//! Target resolution: the destination URL is embedded in the request path,
//! possibly percent-encoded, possibly as a bare domain. Decoding works on
//! bytes and is deliberately tolerant: a `%` not followed by two hex
//! digits passes through unchanged. A decoded target whose bytes are not
//! valid UTF-8 cannot form a URL string and fails resolution.

use vstd::prelude::*;
use vstd::string::StrSliceExecFns;
use vstd::string::StringExecFns;
use vstd::utf8::decode_utf8;
use vstd::utf8::encode_utf8;
use vstd::utf8::valid_utf8;

use crate::cors::error_response;
use crate::cors::error_response_view;
use crate::cors::HttpResponse;
use crate::text::hex_val_byte;
use crate::text::hex_digit_val_byte;
use crate::text::is_hex_digit_byte;
use crate::text::push_char;
use crate::text::str_eq;

verus! {

/// The byte a decoded escape denotes.
pub open spec fn decoded_byte(h1: u8, h2: u8) -> u8 {
    (hex_val_byte(h1) * 16 + hex_val_byte(h2)) as u8
}

/// The percent-decoding of the bytes `s` from position `i` on. A `%`
/// consumes up to two following bytes: two hex digits become the
/// corresponding byte; anything else is passed through verbatim, `%`
/// included.
pub open spec fn percent_decode_from(s: Seq<u8>, i: int) -> Seq<u8>
    decreases s.len() - i,
{
    if i < 0 || i >= s.len() {
        Seq::empty()
    } else if s[i] == 37 {
        if i + 2 < s.len() {
            if is_hex_digit_byte(s[i + 1]) && is_hex_digit_byte(s[i + 2]) {
                seq![decoded_byte(s[i + 1], s[i + 2])] + percent_decode_from(s, i + 3)
            } else {
                seq![37u8, s[i + 1], s[i + 2]] + percent_decode_from(s, i + 3)
            }
        } else if i + 1 < s.len() {
            seq![37u8, s[i + 1]] + percent_decode_from(s, i + 2)
        } else {
            seq![37u8] + percent_decode_from(s, i + 1)
        }
    } else {
        seq![s[i]] + percent_decode_from(s, i + 1)
    }
}

/// The tolerant percent-decoding of the bytes `s`.
pub open spec fn percent_decode(s: Seq<u8>) -> Seq<u8> {
    percent_decode_from(s, 0)
}

/// Decodes percent escapes in a byte string.
fn percent_decode_vec(s: &Vec<u8>) -> (r: Vec<u8>)
    ensures
        r@ == percent_decode(s@),
{
    let n = s.len();
    let mut out: Vec<u8> = Vec::new();
    let mut i: usize = 0;
    while i < n
        invariant
            n == s@.len(),
            i <= n,
            out@ + percent_decode_from(s@, i as int) == percent_decode(s@),
        decreases n - i,
    {
        let ghost out0 = out@;
        let b = s[i];
        if b == 37 {
            if n - i > 2 {
                let h1 = s[i + 1];
                let h2 = s[i + 2];
                match (hex_digit_val_byte(h1), hex_digit_val_byte(h2)) {
                    (Some(v1), Some(v2)) => {
                        out.push(v1 * 16 + v2);
                        proof {
                            assert(out@ + percent_decode_from(s@, i as int + 3) =~= out0
                                + percent_decode_from(s@, i as int));
                        }
                    },
                    _ => {
                        out.push(37);
                        out.push(h1);
                        out.push(h2);
                        proof {
                            assert(out@ + percent_decode_from(s@, i as int + 3) =~= out0
                                + percent_decode_from(s@, i as int));
                        }
                    },
                }
                i += 3;
            } else if n - i > 1 {
                let h1 = s[i + 1];
                out.push(37);
                out.push(h1);
                proof {
                    assert(out@ + percent_decode_from(s@, i as int + 2) =~= out0
                        + percent_decode_from(s@, i as int));
                }
                i += 2;
            } else {
                out.push(37);
                proof {
                    assert(out@ + percent_decode_from(s@, i as int + 1) =~= out0
                        + percent_decode_from(s@, i as int));
                }
                i += 1;
            }
        } else {
            out.push(b);
            proof {
                assert(out@ + percent_decode_from(s@, i as int + 1) =~= out0
                    + percent_decode_from(s@, i as int));
            }
            i += 1;
        }
    }
    proof {
        assert(out@ =~= out@ + percent_decode_from(s@, n as int));
    }
    out
}

/// Relies on `String::from_utf8`: it succeeds exactly on valid UTF-8 and
/// decodes it.
#[verifier::external_body]
fn string_from_utf8(v: Vec<u8>) -> (r: Option<String>)
    ensures
        r is Some <==> valid_utf8(v@),
        r matches Some(s) ==> s@ == decode_utf8(v@),
{
    match String::from_utf8(v) {
        Ok(s) => Some(s),
        Err(_) => None,
    }
}

/// Decodes percent escapes in the bytes of `s`; malformed escapes pass
/// through unchanged. Yields nothing exactly when the decoded bytes are
/// not valid UTF-8 and so form no text.
pub fn urlencoding_decode(s: &str) -> (r: Option<String>)
    ensures
        r is Some <==> valid_utf8(percent_decode(encode_utf8(s@))),
        r matches Some(t) ==> t@ == decode_utf8(percent_decode(encode_utf8(s@))),
{
    let bytes = s.as_bytes_vec();
    let decoded = percent_decode_vec(&bytes);
    string_from_utf8(decoded)
}

/// Whether `p` is a prefix of `s`.
pub open spec fn spec_starts_with(s: Seq<char>, p: Seq<char>) -> bool {
    p.len() <= s.len() && s.subrange(0, p.len() as int) == p
}

/// Decides `spec_starts_with`.
pub fn starts_with_str(s: &str, p: &str) -> (r: bool)
    ensures
        r == spec_starts_with(s@, p@),
{
    let sn = s.unicode_len();
    let pn = p.unicode_len();
    if pn > sn {
        return false;
    }
    let mut i: usize = 0;
    while i < pn
        invariant
            sn == s@.len(),
            pn == p@.len(),
            pn <= sn,
            i <= pn,
            forall|j: int| 0 <= j < i ==> s@[j] == p@[j],
        decreases pn - i,
    {
        if s.get_char(i) != p.get_char(i) {
            proof {
                assert(s@.subrange(0, pn as int)[i as int] == s@[i as int]);
            }
            return false;
        }
        i += 1;
    }
    proof {
        assert(s@.subrange(0, pn as int) =~= p@);
    }
    true
}

/// Decides `Seq::contains` for one character.
pub fn contains_char(s: &str, c: char) -> (r: bool)
    ensures
        r == s@.contains(c),
{
    let n = s.unicode_len();
    let mut i: usize = 0;
    while i < n
        invariant
            n == s@.len(),
            i <= n,
            forall|j: int| 0 <= j < i ==> s@[j] != c,
        decreases n - i,
    {
        if s.get_char(i) == c {
            assert(s@[i as int] == c);
            return true;
        }
        i += 1;
    }
    assert(!s@.contains(c));
    false
}

/// The path with exactly one leading slash removed.
pub open spec fn strip_leading_slash(p: Seq<char>) -> Seq<char> {
    if p.len() > 0 && p[0] == '/' {
        p.subrange(1, p.len() as int)
    } else {
        p
    }
}

/// The target string a path and query resolve to, if any: strip one
/// slash, percent-decode the path bytes (failing if the result is not
/// valid UTF-8), reattach the query verbatim, then accept an explicit
/// http(s) URL or infer `https://` for a bare domain (contains a dot,
/// no space).
pub open spec fn spec_resolve(path: Seq<char>, query: Option<Seq<char>>) -> Option<Seq<char>> {
    let stripped = strip_leading_slash(path);
    if stripped.len() == 0 {
        None
    } else {
        let decoded = percent_decode(encode_utf8(stripped));
        if !valid_utf8(decoded) {
            None
        } else {
            let text = decode_utf8(decoded);
            let joined = match query {
                Some(q) => text + seq!['?'] + q,
                None => text,
            };
            if spec_starts_with(joined, "http://"@) || spec_starts_with(joined, "https://"@) {
                Some(joined)
            } else if joined.contains('.') && !joined.contains(' ') {
                Some("https://"@ + joined)
            } else {
                None
            }
        }
    }
}

/// Extracts the target URL embedded in the request path.
pub fn extract_target_url(path: &str, query: Option<&str>) -> (r: Option<String>)
    ensures
        ({
            let q = match query {
                Some(q) => Some(q@),
                None => None::<Seq<char>>,
            };
            match r {
                Some(t) => spec_resolve(path@, q) == Some(t@),
                None => spec_resolve(path@, q) is None,
            }
        }),
{
    let plen = path.unicode_len();
    let stripped: &str = if plen > 0 && path.get_char(0) == '/' {
        path.substring_char(1, plen)
    } else {
        path
    };
    proof {
        assert(stripped@ =~= strip_leading_slash(path@));
    }
    if stripped.unicode_len() == 0 {
        return None;
    }
    let decoded = match urlencoding_decode(stripped) {
        Some(t) => t,
        None => {
            return None;
        },
    };
    let joined = match query {
        Some(q) => {
            let ghost d = decoded@;
            let mut j = decoded;
            push_char(&mut j, '?');
            j.append(q);
            proof {
                assert(j@ =~= d + seq!['?'] + q@);
            }
            j
        },
        None => decoded,
    };
    if starts_with_str(joined.as_str(), "http://") || starts_with_str(joined.as_str(), "https://") {
        Some(joined)
    } else if contains_char(joined.as_str(), '.') && !contains_char(joined.as_str(), ' ') {
        let mut t = String::from_str("https://");
        t.append(joined.as_str());
        Some(t)
    } else {
        None
    }
}

/// What `url::Url::parse` extracts from a string: whether the string
/// parses, and the scheme, host, non-default port and error display of
/// the outcome.
pub struct UrlParseView {
    pub ok: bool,
    pub scheme: Seq<char>,
    pub host: Option<Seq<char>>,
    pub port: Option<u16>,
    pub err: Seq<char>,
}

pub uninterp spec fn url_parse_of(s: Seq<char>) -> UrlParseView;

/// The scheme, host and non-default port of a parsed URL.
struct UrlParts {
    scheme: String,
    host: Option<String>,
    port: Option<u16>,
}

/// Relies on `url::Url::parse` (with `scheme`, `host_str` and `port`):
/// the outcome depends on the input string alone; `port` is `None` when
/// the port is the scheme's default.
#[verifier::external_body]
fn parse_url_parts(s: &str) -> (r: Result<UrlParts, String>)
    ensures
        r is Ok <==> url_parse_of(s@).ok,
        r matches Ok(p) ==> {
            &&& p.scheme@ == url_parse_of(s@).scheme
            &&& (p.host is Some <==> url_parse_of(s@).host is Some)
            &&& (p.host matches Some(h) ==> url_parse_of(s@).host == Some(h@))
            &&& p.port == url_parse_of(s@).port
        },
        r matches Err(e) ==> e@ == url_parse_of(s@).err,
{
    match url::Url::parse(s) {
        Ok(u) => Ok(UrlParts {
            scheme: u.scheme().to_string(),
            host: match u.host_str() {
                Some(h) => Some(h.to_string()),
                None => None,
            },
            port: u.port(),
        }),
        Err(e) => Err(format!("{}", e)),
    }
}

/// A validated absolute target: parses as a URL and its scheme is
/// `http` or `https`; never constructed otherwise.
#[derive(Debug)]
pub struct ResolvedTarget {
    pub url: String,
    pub scheme: String,
    pub host: Option<String>,
    pub port: Option<u16>,
}

impl ResolvedTarget {
    /// The fields agree with what parsing `url` yields, and the scheme
    /// is one of the two supported ones.
    pub open spec fn wf(&self) -> bool {
        &&& url_parse_of(self.url@).ok
        &&& self.scheme@ == url_parse_of(self.url@).scheme
        &&& (self.scheme@ == "http"@ || self.scheme@ == "https"@)
        &&& (match self.host {
            Some(h) => url_parse_of(self.url@).host == Some(h@),
            None => url_parse_of(self.url@).host is None,
        })
        &&& self.port == url_parse_of(self.url@).port
    }
}

/// The message of the 400 response for a scheme outside http/https.
pub open spec fn unsupported_scheme_msg(scheme: Seq<char>) -> Seq<char> {
    "Unsupported scheme: "@ + scheme + ". Only http and https are allowed."@
}

/// Parses and validates a target string: a parse failure or a scheme
/// outside http/https is a 400, anything else yields the resolved target.
pub fn validate_target(target: String) -> (r: Result<ResolvedTarget, HttpResponse>)
    ensures
        ({
            let v = url_parse_of(target@);
            &&& (!v.ok ==> r is Err && r->Err_0@ == error_response_view(
                400,
                "Invalid URL: "@ + v.err,
            ))
            &&& (v.ok && v.scheme != "http"@ && v.scheme != "https"@ ==> r is Err && r->Err_0@
                == error_response_view(400, unsupported_scheme_msg(v.scheme)))
            &&& (v.ok && (v.scheme == "http"@ || v.scheme == "https"@) ==> r is Ok
                && r->Ok_0.wf() && r->Ok_0.url@ == target@)
        }),
{
    match parse_url_parts(target.as_str()) {
        Err(e) => {
            let mut m = String::from_str("Invalid URL: ");
            m.append(e.as_str());
            Err(error_response(400, m.as_str()))
        },
        Ok(p) => {
            if str_eq(p.scheme.as_str(), "http") || str_eq(p.scheme.as_str(), "https") {
                Ok(ResolvedTarget { url: target, scheme: p.scheme, host: p.host, port: p.port })
            } else {
                let mut m = String::from_str("Unsupported scheme: ");
                m.append(p.scheme.as_str());
                m.append(". Only http and https are allowed.");
                Err(error_response(400, m.as_str()))
            }
        },
    }
}

/// The scheme-translated WebSocket form of a target URL:
/// `http` becomes `ws`, `https` becomes `wss`.
pub open spec fn spec_ws_url(t: Seq<char>) -> Seq<char> {
    if spec_starts_with(t, "http://"@) {
        "ws://"@ + t.skip(7)
    } else if spec_starts_with(t, "https://"@) {
        "wss://"@ + t.skip(8)
    } else {
        t
    }
}

/// Translates a target URL for a WebSocket handshake attempt.
pub fn websocket_url(target: &str) -> (r: String)
    ensures
        r@ == spec_ws_url(target@),
{
    let n = target.unicode_len();
    if starts_with_str(target, "http://") {
        proof {
            reveal_strlit("http://");
        }
        let mut s = String::from_str("ws://");
        s.append(target.substring_char(7, n));
        proof {
            assert(target@.subrange(7, n as int) =~= target@.skip(7));
        }
        s
    } else if starts_with_str(target, "https://") {
        proof {
            reveal_strlit("https://");
        }
        let mut s = String::from_str("wss://");
        s.append(target.substring_char(8, n));
        proof {
            assert(target@.subrange(8, n as int) =~= target@.skip(8));
        }
        s
    } else {
        String::from_str(target)
    }
}

} // verus!
