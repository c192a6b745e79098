//! Origin validation, CORS response annotation, preflight answers, and the
//! JSON error and success responses.

use vstd::prelude::*;
use vstd::string::StrSliceExecFns;
use vstd::string::StringExecFns;
use vstd::utf8::encode_utf8;
use vstd::utf8::is_ascii_chars;
use vstd::utf8::is_ascii_chars_encode_utf8;

use crate::config::Config;
use crate::headers::bytes_to_text;
use crate::headers::clone_bytes;
use crate::headers::spec_lookup;
use crate::headers::spec_set;
use crate::headers::text_of;
use crate::headers::textual;
use crate::headers::Headers;
use crate::text::chars_eq_ic;
use crate::text::hex_digit_char;
use crate::text::lower_code;
use crate::text::push_char;
use crate::text::str_eq;

verus! {

/// A response the library fully determines: status, headers and a textual
/// body. Streamed upstream bodies never pass through this type.
#[derive(Debug)]
pub struct HttpResponse {
    pub status: u16,
    pub headers: Headers,
    pub body: String,
}

impl View for HttpResponse {
    type V = (u16, Seq<(Seq<char>, Seq<u8>)>, Seq<char>);

    open spec fn view(&self) -> (u16, Seq<(Seq<char>, Seq<u8>)>, Seq<char>) {
        (self.status, self.headers@, self.body@)
    }
}

/// The fixed value of `Access-Control-Allow-Methods`.
pub open spec fn cors_methods_text() -> Seq<char> {
    "GET, POST, PUT, PATCH, DELETE, HEAD, OPTIONS"@
}

pub open spec fn n_allow_origin() -> Seq<char> {
    "access-control-allow-origin"@
}

pub open spec fn n_allow_methods() -> Seq<char> {
    "access-control-allow-methods"@
}

pub open spec fn n_allow_headers() -> Seq<char> {
    "access-control-allow-headers"@
}

pub open spec fn n_expose_headers() -> Seq<char> {
    "access-control-expose-headers"@
}

pub open spec fn n_max_age() -> Seq<char> {
    "access-control-max-age"@
}

pub open spec fn n_allow_credentials() -> Seq<char> {
    "access-control-allow-credentials"@
}

pub open spec fn n_request_headers() -> Seq<char> {
    "access-control-request-headers"@
}

/// A character recovered from a textual header value: visible ASCII or tab.
pub open spec fn is_textual_char(c: char) -> bool {
    (32 <= c as u32 && (c as u32) < 127) || c as u32 == 9
}

/// Text whose characters all come from a textual header value.
pub open spec fn textual_text(s: Seq<char>) -> bool {
    forall|i: int| 0 <= i < s.len() ==> is_textual_char(#[trigger] s[i])
}

/// Text that `http` accepts as a header value: every character is tab,
/// or at least a space and not delete (bytes of larger characters are
/// always acceptable continuation bytes).
pub open spec fn valid_header_text(s: Seq<char>) -> bool {
    forall|i: int|
        0 <= i < s.len() ==> (s[i] as u32 == 9 || (32 <= s[i] as u32 && s[i] as u32 != 127))
}

/// Decides `valid_header_text`.
pub fn is_valid_header_text(s: &str) -> (r: bool)
    ensures
        r == valid_header_text(s@),
{
    let n = s.unicode_len();
    let mut i: usize = 0;
    while i < n
        invariant
            n == s@.len(),
            i <= n,
            forall|j: int|
                0 <= j < i ==> (s@[j] as u32 == 9 || (32 <= s@[j] as u32 && s@[j] as u32 != 127)),
        decreases n - i,
    {
        let c = s.get_char(i) as u32;
        if !(c == 9 || (32 <= c && c != 127)) {
            return false;
        }
        i += 1;
    }
    true
}

/// The JSON string-escaping of one character: quote and backslash get a
/// backslash, a control character becomes `\u00XY`, and everything else
/// stands for itself.
pub open spec fn json_escape_char(c: char) -> Seq<char> {
    if c == '"' {
        seq!['\\', '"']
    } else if c == '\\' {
        seq!['\\', '\\']
    } else if (c as u32) < 32 {
        seq!['\\', 'u', '0', '0', hex_digit_char((c as u32 / 16) as u8), hex_digit_char(
            (c as u32 % 16) as u8,
        )]
    } else {
        seq![c]
    }
}

/// The JSON string-escaping of `s` from position `i` on.
pub open spec fn json_escaped_from(s: Seq<char>, i: int) -> Seq<char>
    decreases s.len() - i,
{
    if i < 0 || i >= s.len() {
        Seq::empty()
    } else {
        json_escape_char(s[i]) + json_escaped_from(s, i + 1)
    }
}

/// The JSON string-escaping of `s`.
pub open spec fn json_escaped(s: Seq<char>) -> Seq<char> {
    json_escaped_from(s, 0)
}

/// Escapes a message so it can stand inside a JSON string literal.
pub fn json_escape(s: &str) -> (r: String)
    ensures
        r@ == json_escaped(s@),
{
    let n = s.unicode_len();
    let mut out = String::new();
    let mut i: usize = 0;
    while i < n
        invariant
            n == s@.len(),
            i <= n,
            out@ + json_escaped_from(s@, i as int) == json_escaped(s@),
        decreases n - i,
    {
        let ghost out0 = out@;
        let c = s.get_char(i);
        let cc = c as u32;
        if c == '"' {
            push_char(&mut out, '\\');
            push_char(&mut out, '"');
        } else if c == '\\' {
            push_char(&mut out, '\\');
            push_char(&mut out, '\\');
        } else if cc < 32 {
            push_char(&mut out, '\\');
            push_char(&mut out, 'u');
            push_char(&mut out, '0');
            push_char(&mut out, '0');
            let hi = (cc / 16) as u8;
            let lo = (cc % 16) as u8;
            push_char(&mut out, (if hi < 10 { 48 + hi } else { 87 + hi }) as char);
            push_char(&mut out, (if lo < 10 { 48 + lo } else { 87 + lo }) as char);
        } else {
            push_char(&mut out, c);
        }
        proof {
            assert(out@ + json_escaped_from(s@, i as int + 1) =~= out0 + json_escaped_from(
                s@,
                i as int,
            ));
        }
        i += 1;
    }
    proof {
        assert(out@ =~= out@ + json_escaped_from(s@, n as int));
    }
    out
}

/// `{"error": "<msg>"}`, with the message JSON-escaped so the body is
/// well-formed whatever the message holds.
pub open spec fn json_error_body(msg: Seq<char>) -> Seq<char> {
    "{\"error\": \""@ + json_escaped(msg) + "\"}"@
}

/// `{"message": "<msg>"}`, with the message JSON-escaped.
pub open spec fn json_message_body(msg: Seq<char>) -> Seq<char> {
    "{\"message\": \""@ + json_escaped(msg) + "\"}"@
}

/// The headers every error response carries.
pub open spec fn error_headers() -> Seq<(Seq<char>, Seq<u8>)> {
    seq![
        ("content-type"@, encode_utf8("application/json"@)),
        (n_allow_origin(), encode_utf8("*"@)),
        (n_allow_methods(), encode_utf8(cors_methods_text())),
    ]
}

/// The view of the error response for a status and message.
pub open spec fn error_response_view(status: u16, msg: Seq<char>) -> (
    u16,
    Seq<(Seq<char>, Seq<u8>)>,
    Seq<char>,
) {
    (status, error_headers(), json_error_body(msg))
}

/// The view of the success response for a message.
pub open spec fn success_response_view(msg: Seq<char>) -> (
    u16,
    Seq<(Seq<char>, Seq<u8>)>,
    Seq<char>,
) {
    (
        200u16,
        seq![
            ("content-type"@, encode_utf8("application/json"@)),
            (n_allow_origin(), encode_utf8("*"@)),
        ],
        json_message_body(msg),
    )
}

/// A JSON error response with a given status; it always carries the
/// wildcard Allow-Origin and the fixed Allow-Methods, even on errors.
pub fn error_response(status: u16, message: &str) -> (r: HttpResponse)
    ensures
        r@ == error_response_view(status, message@),
{
    let mut body = String::from_str("{\"error\": \"");
    let escaped = json_escape(message);
    body.append(escaped.as_str());
    body.append("\"}");
    let mut headers = Headers::new();
    headers.push(String::from_str("content-type"), "application/json".as_bytes_vec());
    headers.push(String::from_str("access-control-allow-origin"), "*".as_bytes_vec());
    headers.push(
        String::from_str("access-control-allow-methods"),
        "GET, POST, PUT, PATCH, DELETE, HEAD, OPTIONS".as_bytes_vec(),
    );
    proof {
        assert(headers@ =~= error_headers());
    }
    HttpResponse { status, headers, body }
}

/// The 200 JSON welcome-style response.
pub fn success_response(message: &str) -> (r: HttpResponse)
    ensures
        r@ == success_response_view(message@),
{
    let mut body = String::from_str("{\"message\": \"");
    let escaped = json_escape(message);
    body.append(escaped.as_str());
    body.append("\"}");
    let mut headers = Headers::new();
    headers.push(String::from_str("content-type"), "application/json".as_bytes_vec());
    headers.push(String::from_str("access-control-allow-origin"), "*".as_bytes_vec());
    proof {
        assert(headers@ =~= success_response_view(message@).1);
    }
    HttpResponse { status: 200, headers, body }
}

/// The outcome of origin validation.
pub enum OriginOutcome {
    /// No `Origin` header: a direct, non-browser caller.
    NoHeader,
    /// The `Origin` value is not valid text.
    Invalid,
    /// The origin is not in the allow-set and `allow_all` is off.
    Denied(Seq<char>),
    /// The origin may use the proxy.
    Allowed(Seq<char>),
}

/// What origin validation decides for a header set under a configuration.
pub open spec fn spec_check_origin(hs: Seq<(Seq<char>, Seq<u8>)>, c: &Config) -> OriginOutcome {
    match spec_lookup(hs, "origin"@) {
        None => OriginOutcome::NoHeader,
        Some(v) => if !textual(v) {
            OriginOutcome::Invalid
        } else if c.spec_origin_allowed(text_of(v)) {
            OriginOutcome::Allowed(text_of(v))
        } else {
            OriginOutcome::Denied(text_of(v))
        },
    }
}

/// The message of the 403 response for a denied origin.
pub open spec fn origin_denied_msg(origin: Seq<char>) -> Seq<char> {
    "Origin '"@ + origin + "' is not allowed. Use --allow-origin to add it."@
}

/// Validates the caller's `Origin` header. No header means a direct
/// caller and yields the empty origin; a non-textual value is a 400; a
/// value outside the allow-set (without `allow_all`) is a 403.
pub fn check_origin(headers: &Headers, config: &Config) -> (r: Result<String, HttpResponse>)
    ensures
        ({
            let oc = spec_check_origin(headers@, config);
            &&& (oc is NoHeader ==> r is Ok && r->Ok_0@ == Seq::<char>::empty())
            &&& (oc matches OriginOutcome::Allowed(o) ==> r is Ok && r->Ok_0@ == o)
            &&& (oc is Invalid ==> r is Err && r->Err_0@ == error_response_view(
                400,
                "Invalid Origin header"@,
            ))
            &&& (oc matches OriginOutcome::Denied(o) ==> r is Err && r->Err_0@
                == error_response_view(403, origin_denied_msg(o)))
        }),
{
    match headers.get("origin") {
        None => Ok(String::new()),
        Some(v) => {
            match bytes_to_text(v) {
                None => Err(error_response(400, "Invalid Origin header")),
                Some(o) => {
                    if config.is_origin_allowed(o.as_str()) {
                        Ok(o)
                    } else {
                        let mut msg = String::from_str("Origin '");
                        msg.append(o.as_str());
                        msg.append("' is not allowed. Use --allow-origin to add it.");
                        Err(error_response(403, msg.as_str()))
                    }
                },
            }
        },
    }
}

/// The header set after stamping the six CORS response headers. The
/// validated origin is echoed when present and well-formed; a caller
/// without an `Origin` header gets the wildcard.
pub open spec fn spec_annotate(
    hs: Seq<(Seq<char>, Seq<u8>)>,
    origin: Seq<char>,
    req: Seq<(Seq<char>, Seq<u8>)>,
) -> Seq<(Seq<char>, Seq<u8>)> {
    let h1 = if origin.len() == 0 {
        spec_set(hs, n_allow_origin(), encode_utf8("*"@))
    } else if valid_header_text(origin) {
        spec_set(hs, n_allow_origin(), encode_utf8(origin))
    } else {
        hs
    };
    let h2 = spec_set(h1, n_allow_methods(), encode_utf8(cors_methods_text()));
    let echoed = match spec_lookup(req, n_request_headers()) {
        Some(v) => v,
        None => encode_utf8("*"@),
    };
    let h3 = spec_set(h2, n_allow_headers(), echoed);
    let h4 = spec_set(h3, n_expose_headers(), encode_utf8("*"@));
    let h5 = spec_set(h4, n_max_age(), encode_utf8("86400"@));
    spec_set(h5, n_allow_credentials(), encode_utf8("true"@))
}

/// Stamps the six CORS headers, overwriting any pre-existing values.
pub fn add_cors_headers(headers: &mut Headers, origin: &str, request_headers: &Headers)
    ensures
        final(headers)@ == spec_annotate(old(headers)@, origin@, request_headers@),
{
    if origin.is_empty() {
        headers.set("access-control-allow-origin", "*".as_bytes_vec());
    } else if is_valid_header_text(origin) {
        headers.set("access-control-allow-origin", origin.as_bytes_vec());
    }
    headers.set(
        "access-control-allow-methods",
        "GET, POST, PUT, PATCH, DELETE, HEAD, OPTIONS".as_bytes_vec(),
    );
    match request_headers.get("access-control-request-headers") {
        Some(v) => {
            let echoed = clone_bytes(v);
            headers.set("access-control-allow-headers", echoed);
        },
        None => {
            headers.set("access-control-allow-headers", "*".as_bytes_vec());
        },
    }
    headers.set("access-control-expose-headers", "*".as_bytes_vec());
    headers.set("access-control-max-age", "86400".as_bytes_vec());
    headers.set("access-control-allow-credentials", "true".as_bytes_vec());
}

/// Whether the request is a CORS preflight: method `OPTIONS` with an
/// `Access-Control-Request-Method` header.
pub fn is_preflight(method: &str, headers: &Headers) -> (r: bool)
    ensures
        r == (method@ == "OPTIONS"@ && spec_lookup(headers@, "access-control-request-method"@)
            is Some),
{
    str_eq(method, "OPTIONS") && headers.contains_name("access-control-request-method")
}

/// Answers a preflight: `204 No Content`, an empty body, and exactly the
/// stamped CORS headers.
pub fn handle_preflight(origin: &str, request_headers: &Headers) -> (r: HttpResponse)
    ensures
        r@.0 == 204u16,
        r@.1 == spec_annotate(
            Seq::<(Seq<char>, Seq<u8>)>::empty(),
            origin@,
            request_headers@,
        ),
        r@.2 == Seq::<char>::empty(),
{
    let mut headers = Headers::new();
    add_cors_headers(&mut headers, origin, request_headers);
    HttpResponse { status: 204, headers, body: String::new() }
}

/// The six CORS header names are pairwise different, even up to case.
pub proof fn lemma_cors_names_distinct()
    ensures
        !chars_eq_ic(n_allow_methods(), n_allow_origin()),
        !chars_eq_ic(n_allow_headers(), n_allow_origin()),
        !chars_eq_ic(n_allow_headers(), n_allow_methods()),
        !chars_eq_ic(n_expose_headers(), n_allow_origin()),
        !chars_eq_ic(n_expose_headers(), n_allow_methods()),
        !chars_eq_ic(n_expose_headers(), n_allow_headers()),
        !chars_eq_ic(n_max_age(), n_allow_origin()),
        !chars_eq_ic(n_max_age(), n_allow_methods()),
        !chars_eq_ic(n_max_age(), n_allow_headers()),
        !chars_eq_ic(n_max_age(), n_expose_headers()),
        !chars_eq_ic(n_allow_credentials(), n_allow_origin()),
        !chars_eq_ic(n_allow_credentials(), n_allow_methods()),
        !chars_eq_ic(n_allow_credentials(), n_allow_headers()),
        !chars_eq_ic(n_allow_credentials(), n_expose_headers()),
        !chars_eq_ic(n_allow_credentials(), n_max_age()),
{
    reveal_strlit("access-control-allow-origin");
    reveal_strlit("access-control-allow-methods");
    reveal_strlit("access-control-allow-headers");
    reveal_strlit("access-control-expose-headers");
    reveal_strlit("access-control-max-age");
    reveal_strlit("access-control-allow-credentials");
    assert(n_allow_origin().len() == 27);
    assert(n_allow_methods().len() == 28);
    assert(n_allow_headers().len() == 28);
    assert(n_expose_headers().len() == 29);
    assert(n_max_age().len() == 22);
    assert(n_allow_credentials().len() == 32);
    assert(n_allow_headers()[21] == 'h');
    assert(n_allow_methods()[21] == 'm');
    assert(lower_code(n_allow_headers()[21]) != lower_code(n_allow_methods()[21]));
}

/// What each of the six CORS headers holds after annotation, whatever was
/// in the header set before.
pub proof fn lemma_annotate_lookups(
    hs: Seq<(Seq<char>, Seq<u8>)>,
    origin: Seq<char>,
    req: Seq<(Seq<char>, Seq<u8>)>,
)
    ensures
        origin.len() == 0 ==> spec_lookup(spec_annotate(hs, origin, req), n_allow_origin())
            == Some(encode_utf8("*"@)),
        origin.len() > 0 && valid_header_text(origin) ==> spec_lookup(
            spec_annotate(hs, origin, req),
            n_allow_origin(),
        ) == Some(encode_utf8(origin)),
        spec_lookup(spec_annotate(hs, origin, req), n_allow_methods()) == Some(
            encode_utf8(cors_methods_text()),
        ),
        spec_lookup(spec_annotate(hs, origin, req), n_allow_headers()) == Some(
            match spec_lookup(req, n_request_headers()) {
                Some(v) => v,
                None => encode_utf8("*"@),
            },
        ),
        spec_lookup(spec_annotate(hs, origin, req), n_expose_headers()) == Some(
            encode_utf8("*"@),
        ),
        spec_lookup(spec_annotate(hs, origin, req), n_max_age()) == Some(encode_utf8("86400"@)),
        spec_lookup(spec_annotate(hs, origin, req), n_allow_credentials()) == Some(
            encode_utf8("true"@),
        ),
{
    lemma_cors_names_distinct();
    let star = encode_utf8("*"@);
    let h1 = if origin.len() == 0 {
        spec_set(hs, n_allow_origin(), star)
    } else if valid_header_text(origin) {
        spec_set(hs, n_allow_origin(), encode_utf8(origin))
    } else {
        hs
    };
    let vm = encode_utf8(cors_methods_text());
    let h2 = spec_set(h1, n_allow_methods(), vm);
    let echoed = match spec_lookup(req, n_request_headers()) {
        Some(v) => v,
        None => star,
    };
    let h3 = spec_set(h2, n_allow_headers(), echoed);
    let h4 = spec_set(h3, n_expose_headers(), star);
    let h5 = spec_set(h4, n_max_age(), encode_utf8("86400"@));
    let v6 = encode_utf8("true"@);
    if origin.len() == 0 {
        crate::headers::lemma_lookup_set(hs, n_allow_origin(), star, n_allow_origin());
    } else if valid_header_text(origin) {
        crate::headers::lemma_lookup_set(
            hs,
            n_allow_origin(),
            encode_utf8(origin),
            n_allow_origin(),
        );
    }
    crate::headers::lemma_lookup_set(h1, n_allow_methods(), vm, n_allow_origin());
    crate::headers::lemma_lookup_set(h1, n_allow_methods(), vm, n_allow_methods());
    crate::headers::lemma_lookup_set(h2, n_allow_headers(), echoed, n_allow_origin());
    crate::headers::lemma_lookup_set(h2, n_allow_headers(), echoed, n_allow_methods());
    crate::headers::lemma_lookup_set(h2, n_allow_headers(), echoed, n_allow_headers());
    crate::headers::lemma_lookup_set(h3, n_expose_headers(), star, n_allow_origin());
    crate::headers::lemma_lookup_set(h3, n_expose_headers(), star, n_allow_methods());
    crate::headers::lemma_lookup_set(h3, n_expose_headers(), star, n_allow_headers());
    crate::headers::lemma_lookup_set(h3, n_expose_headers(), star, n_expose_headers());
    crate::headers::lemma_lookup_set(h4, n_max_age(), encode_utf8("86400"@), n_allow_origin());
    crate::headers::lemma_lookup_set(h4, n_max_age(), encode_utf8("86400"@), n_allow_methods());
    crate::headers::lemma_lookup_set(h4, n_max_age(), encode_utf8("86400"@), n_allow_headers());
    crate::headers::lemma_lookup_set(h4, n_max_age(), encode_utf8("86400"@), n_expose_headers());
    crate::headers::lemma_lookup_set(h4, n_max_age(), encode_utf8("86400"@), n_max_age());
    crate::headers::lemma_lookup_set(h5, n_allow_credentials(), v6, n_allow_origin());
    crate::headers::lemma_lookup_set(h5, n_allow_credentials(), v6, n_allow_methods());
    crate::headers::lemma_lookup_set(h5, n_allow_credentials(), v6, n_allow_headers());
    crate::headers::lemma_lookup_set(h5, n_allow_credentials(), v6, n_expose_headers());
    crate::headers::lemma_lookup_set(h5, n_allow_credentials(), v6, n_max_age());
    crate::headers::lemma_lookup_set(h5, n_allow_credentials(), v6, n_allow_credentials());
}

/// Law: every built-in default origin is accepted unchanged when no
/// extras are configured and `allow_all` is off.
pub proof fn lemma_default_origin_accepted(
    hs: Seq<(Seq<char>, Seq<u8>)>,
    c: &Config,
    v: Seq<u8>,
)
    requires
        !c.allow_all,
        c.allow_origins@.len() == 0,
        spec_lookup(hs, "origin"@) == Some(v),
        textual(v),
        crate::config::default_origins().contains(text_of(v)),
    ensures
        spec_check_origin(hs, c) == OriginOutcome::Allowed(text_of(v)),
{
}

/// Law: an origin that is neither a built-in default nor configured is
/// denied when `allow_all` is off.
pub proof fn lemma_unknown_origin_denied(hs: Seq<(Seq<char>, Seq<u8>)>, c: &Config, v: Seq<u8>)
    requires
        !c.allow_all,
        spec_lookup(hs, "origin"@) == Some(v),
        textual(v),
        !crate::config::default_origins().contains(text_of(v)),
        !c.allow_origins.deep_view().contains(text_of(v)),
    ensures
        spec_check_origin(hs, c) == OriginOutcome::Denied(text_of(v)),
{
}

/// Law: with `allow_all` set, any textual origin whatsoever is accepted
/// unchanged.
pub proof fn lemma_allow_all_accepts(hs: Seq<(Seq<char>, Seq<u8>)>, c: &Config, v: Seq<u8>)
    requires
        c.allow_all,
        spec_lookup(hs, "origin"@) == Some(v),
        textual(v),
    ensures
        spec_check_origin(hs, c) == OriginOutcome::Allowed(text_of(v)),
{
}

/// The text of a textual header value — such as every origin that
/// validation accepts — is itself visible ASCII or tab, so it meets the
/// premise of the round-trip law below.
pub proof fn lemma_text_of_is_textual(v: Seq<u8>)
    requires
        textual(v),
    ensures
        textual_text(text_of(v)),
{
    assert forall|i: int| 0 <= i < text_of(v).len() implies is_textual_char(
        #[trigger] text_of(v)[i],
    ) by {
        assert(crate::headers::textual_byte(v[i]));
    }
}

/// Law: the annotated `Access-Control-Allow-Origin` echoes the validated
/// origin byte for byte, and is the wildcard exactly when no `Origin`
/// header was sent. The origin here is text recovered from a header
/// value, so each character is below delete.
pub proof fn lemma_allow_origin_round_trip(
    hs: Seq<(Seq<char>, Seq<u8>)>,
    origin: Seq<char>,
    req: Seq<(Seq<char>, Seq<u8>)>,
)
    requires
        textual_text(origin),
    ensures
        origin.len() > 0 ==> spec_lookup(spec_annotate(hs, origin, req), n_allow_origin())
            == Some(Seq::new(origin.len(), |i: int| origin[i] as u8)),
        origin.len() == 0 ==> spec_lookup(spec_annotate(hs, origin, req), n_allow_origin())
            == Some(encode_utf8("*"@)),
{
    lemma_annotate_lookups(hs, origin, req);
    if origin.len() > 0 {
        assert(valid_header_text(origin));
        assert(is_ascii_chars(origin)) by {
            assert forall|i| 0 <= i < origin.len() implies '\0' <= #[trigger] origin[i]
                <= '\u{7f}' by {
                let c = origin[i];
                assert(is_textual_char(c));
                assert('\0' as u32 == 0 && '\u{7f}' as u32 == 127);
                vstd::utf8::char_u32_cast(c, c as u32);
                vstd::utf8::char_u32_cast('\0', 0);
                vstd::utf8::char_u32_cast('\u{7f}', 127);
            }
        }
        is_ascii_chars_encode_utf8(origin);
        assert(encode_utf8(origin) =~= Seq::new(origin.len(), |i: int| origin[i] as u8));
    }
}

} // verus!
