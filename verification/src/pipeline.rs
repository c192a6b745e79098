//! The per-request pipeline: validate the origin, short-circuit
//! preflights, resolve the target, and plan the outbound call. The
//! surrounding binary only performs what was planned and maps its I/O
//! failures through the response constructors here.

use vstd::prelude::*;
use vstd::string::StrSliceExecFns;
use vstd::string::StringExecFns;
use vstd::utf8::encode_utf8;

use crate::config::Config;
use crate::cors::add_cors_headers;
use crate::cors::check_origin;
use crate::cors::error_response;
use crate::cors::error_response_view;
use crate::cors::handle_preflight;
use crate::cors::is_preflight;
use crate::cors::spec_annotate;
use crate::cors::spec_check_origin;
use crate::cors::success_response;
use crate::cors::success_response_view;
use crate::cors::origin_denied_msg;
use crate::cors::HttpResponse;
use crate::cors::OriginOutcome;
use crate::headers::spec_lookup;
use crate::headers::spec_remove;
use crate::headers::Headers;
use crate::target::extract_target_url;
use crate::target::spec_resolve;
use crate::target::spec_ws_url;
use crate::target::unsupported_scheme_msg;
use crate::target::url_parse_of;
use crate::target::validate_target;
use crate::target::websocket_url;
use crate::target::ResolvedTarget;
use crate::text::chars_eq_ic;
use crate::text::dec_digits;
use crate::text::push_char;
use crate::text::str_eq;
use crate::text::u16_to_dec;
use crate::headers::bytes_to_text;
use crate::headers::text_of;
use crate::headers::textual;
use crate::text::str_eq_ic;

verus! {

/// Request headers never replayed to the target: hop-by-hop and
/// session headers, and the original `Host`.
pub open spec fn hop_names() -> Seq<Seq<char>> {
    seq![
        "connection"@,
        "keep-alive"@,
        "proxy-authenticate"@,
        "proxy-authorization"@,
        "te"@,
        "trailer"@,
        "transfer-encoding"@,
        "upgrade"@,
        "host"@,
    ]
}

/// Response headers never relayed back to the client: their framing
/// becomes stale once the body passes through the proxy.
pub open spec fn skip_response_names() -> Seq<Seq<char>> {
    seq!["connection"@, "keep-alive"@, "transfer-encoding"@, "content-encoding"@, "content-length"@]
}

/// The inbound-to-outbound exclusion list.
pub fn hop_by_hop_names() -> (r: Vec<String>)
    ensures
        r.deep_view() == hop_names(),
{
    let mut v: Vec<String> = Vec::new();
    v.push(String::from_str("connection"));
    v.push(String::from_str("keep-alive"));
    v.push(String::from_str("proxy-authenticate"));
    v.push(String::from_str("proxy-authorization"));
    v.push(String::from_str("te"));
    v.push(String::from_str("trailer"));
    v.push(String::from_str("transfer-encoding"));
    v.push(String::from_str("upgrade"));
    v.push(String::from_str("host"));
    proof {
        assert(v.deep_view() =~= hop_names());
    }
    v
}

/// The outbound-to-inbound exclusion list.
pub fn skip_response_header_names() -> (r: Vec<String>)
    ensures
        r.deep_view() == skip_response_names(),
{
    let mut v: Vec<String> = Vec::new();
    v.push(String::from_str("connection"));
    v.push(String::from_str("keep-alive"));
    v.push(String::from_str("transfer-encoding"));
    v.push(String::from_str("content-encoding"));
    v.push(String::from_str("content-length"));
    proof {
        assert(v.deep_view() =~= skip_response_names());
    }
    v
}

/// The `Host` value for the outbound request: the target's host, with
/// the port appended when it is not the scheme's default.
pub open spec fn spec_host_header(host: Seq<char>, port: Option<u16>) -> Seq<char> {
    match port {
        Some(p) => host + seq![':'] + dec_digits(p as nat),
        None => host,
    }
}

/// The outbound header set: hop-by-hop headers removed, then the
/// explicit `Host` of the target appended when the target has a host.
pub open spec fn spec_forward_headers(
    hs: Seq<(Seq<char>, Seq<u8>)>,
    host: Option<Seq<char>>,
    port: Option<u16>,
) -> Seq<(Seq<char>, Seq<u8>)> {
    let f = spec_remove(hs, hop_names());
    match host {
        Some(h) => f.push(("host"@, encode_utf8(spec_host_header(h, port)))),
        None => f,
    }
}

/// Builds the headers of the outbound request.
pub fn build_forward_headers(headers: &Headers, target: &ResolvedTarget) -> (r: Headers)
    ensures
        r@ == spec_forward_headers(headers@, target.host.deep_view(), target.port),
{
    let excluded = hop_by_hop_names();
    let mut out = headers.without_names(&excluded);
    match &target.host {
        Some(h) => {
            let mut hv = h.clone();
            match target.port {
                Some(p) => {
                    push_char(&mut hv, ':');
                    let d = u16_to_dec(p);
                    hv.append(d.as_str());
                    proof {
                        assert(hv@ =~= spec_host_header(h@, target.port));
                    }
                },
                None => {},
            }
            out.push(String::from_str("host"), hv.as_str().as_bytes_vec());
        },
        None => {},
    }
    out
}

/// Rewraps an upstream response's headers for the client: stale framing
/// headers removed, then the six CORS headers stamped.
pub fn rewrap_response_headers(
    upstream: &Headers,
    origin: &str,
    request_headers: &Headers,
) -> (r: Headers)
    ensures
        r@ == spec_annotate(
            spec_remove(upstream@, skip_response_names()),
            origin@,
            request_headers@,
        ),
{
    let excluded = skip_response_header_names();
    let mut out = upstream.without_names(&excluded);
    add_cors_headers(&mut out, origin, request_headers);
    out
}

/// The welcome message of the root path.
pub open spec fn welcome_text() -> Seq<char> {
    "Holy CORS! Proxy is running. Usage: /{TARGET_URL}"@
}

/// The 502 response for an unreachable target.
pub fn upstream_error_response(detail: &str) -> (r: HttpResponse)
    ensures
        r@ == error_response_view(502, "Failed to reach target: "@ + detail@),
{
    let mut m = String::from_str("Failed to reach target: ");
    m.append(detail);
    error_response(502, m.as_str())
}

/// The 400 response when the inbound body cannot be read.
pub fn body_read_error_response() -> (r: HttpResponse)
    ensures
        r@ == error_response_view(400, "Failed to read request body"@),
{
    error_response(400, "Failed to read request body")
}

/// The 500 response when the outbound request cannot be assembled.
pub fn request_build_error_response() -> (r: HttpResponse)
    ensures
        r@ == error_response_view(500, "Failed to build request"@),
{
    error_response(500, "Failed to build request")
}

/// The 400 response when the target does not form a request URI.
pub fn invalid_uri_error_response(detail: &str) -> (r: HttpResponse)
    ensures
        r@ == error_response_view(400, "Invalid target URI: "@ + detail@),
{
    let mut m = String::from_str("Invalid target URI: ");
    m.append(detail);
    error_response(400, m.as_str())
}

/// What a WebSocket attempt answers: a failed handshake is a 502; a
/// successful one is still only a 501, since the connection is never
/// actually relayed.
pub fn websocket_outcome_response(connected: bool, detail: &str) -> (r: HttpResponse)
    ensures
        !connected ==> r@ == error_response_view(
            502,
            "Failed to connect to WebSocket: "@ + detail@,
        ),
        connected ==> r@ == error_response_view(
            501,
            "WebSocket proxying requires connection hijacking. Use a direct WebSocket connection."@,
        ),
{
    if connected {
        error_response(
            501,
            "WebSocket proxying requires connection hijacking. Use a direct WebSocket connection.",
        )
    } else {
        let mut m = String::from_str("Failed to connect to WebSocket: ");
        m.append(detail);
        error_response(502, m.as_str())
    }
}

/// Whether the request asks for a protocol upgrade to `websocket`.
pub open spec fn spec_ws_upgrade(hs: Seq<(Seq<char>, Seq<u8>)>) -> bool {
    match spec_lookup(hs, "upgrade"@) {
        Some(v) => textual(v) && chars_eq_ic(text_of(v), "websocket"@),
        None => false,
    }
}

/// Decides `spec_ws_upgrade`.
pub fn is_websocket_upgrade(headers: &Headers) -> (r: bool)
    ensures
        r == spec_ws_upgrade(headers@),
{
    match headers.get("upgrade") {
        Some(v) => match bytes_to_text(v) {
            Some(t) => str_eq_ic(t.as_str(), "websocket"),
            None => false,
        },
        None => false,
    }
}

/// An inbound request as the library sees it; the body stays with the
/// transport.
pub struct InboundRequest {
    pub method: String,
    pub path: String,
    pub query: Option<String>,
    pub headers: Headers,
}

/// What to forward over HTTP: the validated target, the validated
/// origin to echo later, and the prepared outbound headers.
pub struct ForwardPlan {
    pub target: ResolvedTarget,
    pub origin: String,
    pub outbound_headers: Headers,
}

/// What to attempt a WebSocket handshake against.
pub struct WsPlan {
    pub ws_url: String,
}

/// The routing decision for one inbound request.
pub enum RouteAction {
    /// Answer directly with this response.
    Respond(HttpResponse),
    /// Issue the planned outbound HTTP request.
    ForwardHttp(ForwardPlan),
    /// Attempt the planned WebSocket handshake.
    ForwardWebSocket(WsPlan),
}

/// The origin string a passing outcome carries: empty for a caller
/// without an `Origin` header.
pub open spec fn spec_origin_of(oc: OriginOutcome) -> Seq<char> {
    match oc {
        OriginOutcome::Allowed(o) => o,
        _ => Seq::empty(),
    }
}

/// Decides one inbound request: origin first, then preflight, then the
/// welcome path, then target resolution and validation, then the
/// WebSocket stub, and only then a forward plan. A preflight never
/// reaches target resolution or forwarding. The decision is total:
/// every failure class answers with an HTTP error response carrying a
/// JSON body, and nothing here ends the request loop.
pub fn route_request(config: &Config, req: &InboundRequest) -> (r: RouteAction)
    ensures
        ({
            let oc = spec_check_origin(req.headers@, config);
            let preflight = req.method@ == "OPTIONS"@ && spec_lookup(
                req.headers@,
                "access-control-request-method"@,
            ) is Some;
            let origin = spec_origin_of(oc);
            let root = req.path@ == "/"@ || req.path@.len() == 0;
            &&& (oc is Invalid ==> (r matches RouteAction::Respond(resp) && resp@
                == error_response_view(400, "Invalid Origin header"@)))
            &&& (oc matches OriginOutcome::Denied(o) ==> (r matches RouteAction::Respond(resp)
                && resp@ == error_response_view(403, origin_denied_msg(o))))
            &&& ((oc is NoHeader || oc is Allowed) && preflight ==> (r matches
                RouteAction::Respond(resp) && resp@.0 == 204u16 && resp@.1 == spec_annotate(
                Seq::<(Seq<char>, Seq<u8>)>::empty(),
                origin,
                req.headers@,
            ) && resp@.2 == Seq::<char>::empty()))
            &&& ((oc is NoHeader || oc is Allowed) && !preflight && root ==> (r matches
                RouteAction::Respond(resp) && resp@ == success_response_view(welcome_text())))
            &&& ((oc is NoHeader || oc is Allowed) && !preflight && !root ==> {
                match spec_resolve(req.path@, req.query.deep_view()) {
                    None => r matches RouteAction::Respond(resp) && resp@ == error_response_view(
                        400,
                        "Invalid target URL"@,
                    ),
                    Some(t) => {
                        let v = url_parse_of(t);
                        &&& (!v.ok ==> (r matches RouteAction::Respond(resp) && resp@
                            == error_response_view(400, "Invalid URL: "@ + v.err)))
                        &&& (v.ok && v.scheme != "http"@ && v.scheme != "https"@ ==> (r matches
                            RouteAction::Respond(resp) && resp@ == error_response_view(
                            400,
                            unsupported_scheme_msg(v.scheme),
                        )))
                        &&& (v.ok && (v.scheme == "http"@ || v.scheme == "https"@)
                            && spec_ws_upgrade(req.headers@) ==> (r matches
                            RouteAction::ForwardWebSocket(w) && w.ws_url@ == spec_ws_url(t)))
                        &&& (v.ok && (v.scheme == "http"@ || v.scheme == "https"@)
                            && !spec_ws_upgrade(req.headers@) ==> (r matches
                            RouteAction::ForwardHttp(p) && p.target.wf() && p.target.url@ == t
                            && p.origin@ == origin && p.outbound_headers@ == spec_forward_headers(
                            req.headers@,
                            v.host,
                            v.port,
                        )))
                    },
                }
            })
        }),
{
    let origin = match check_origin(&req.headers, config) {
        Ok(o) => o,
        Err(resp) => {
            return RouteAction::Respond(resp);
        },
    };
    if is_preflight(req.method.as_str(), &req.headers) {
        return RouteAction::Respond(handle_preflight(origin.as_str(), &req.headers));
    }
    if req.path.unicode_len() == 0 || str_eq(req.path.as_str(), "/") {
        return RouteAction::Respond(
            success_response("Holy CORS! Proxy is running. Usage: /{TARGET_URL}"),
        );
    }
    let query: Option<&str> = match &req.query {
        Some(q) => Some(q.as_str()),
        None => None,
    };
    let target = match extract_target_url(req.path.as_str(), query) {
        Some(t) => t,
        None => {
            return RouteAction::Respond(error_response(400, "Invalid target URL"));
        },
    };
    let resolved = match validate_target(target) {
        Ok(t) => t,
        Err(resp) => {
            return RouteAction::Respond(resp);
        },
    };
    if is_websocket_upgrade(&req.headers) {
        let ws = websocket_url(resolved.url.as_str());
        return RouteAction::ForwardWebSocket(WsPlan { ws_url: ws });
    }
    let outbound = build_forward_headers(&req.headers, &resolved);
    RouteAction::ForwardHttp(ForwardPlan { target: resolved, origin, outbound_headers: outbound })
}

/// Law: a preflight answer carries all six CORS headers, for any request
/// header set and any validated origin; the allowed methods, the
/// wildcard exposure, the max age and the credentials flag are fixed.
pub proof fn lemma_preflight_response_headers(origin: Seq<char>, req: Seq<(Seq<char>, Seq<u8>)>)
    ensures
        spec_lookup(
            spec_annotate(Seq::<(Seq<char>, Seq<u8>)>::empty(), origin, req),
            crate::cors::n_allow_methods(),
        ) == Some(encode_utf8(crate::cors::cors_methods_text())),
        spec_lookup(
            spec_annotate(Seq::<(Seq<char>, Seq<u8>)>::empty(), origin, req),
            crate::cors::n_allow_headers(),
        ) == Some(
            match spec_lookup(req, crate::cors::n_request_headers()) {
                Some(v) => v,
                None => encode_utf8("*"@),
            },
        ),
        spec_lookup(
            spec_annotate(Seq::<(Seq<char>, Seq<u8>)>::empty(), origin, req),
            crate::cors::n_expose_headers(),
        ) == Some(encode_utf8("*"@)),
        spec_lookup(
            spec_annotate(Seq::<(Seq<char>, Seq<u8>)>::empty(), origin, req),
            crate::cors::n_max_age(),
        ) == Some(encode_utf8("86400"@)),
        spec_lookup(
            spec_annotate(Seq::<(Seq<char>, Seq<u8>)>::empty(), origin, req),
            crate::cors::n_allow_credentials(),
        ) == Some(encode_utf8("true"@)),
        origin.len() == 0 ==> spec_lookup(
            spec_annotate(Seq::<(Seq<char>, Seq<u8>)>::empty(), origin, req),
            crate::cors::n_allow_origin(),
        ) == Some(encode_utf8("*"@)),
        origin.len() > 0 && crate::cors::valid_header_text(origin) ==> spec_lookup(
            spec_annotate(Seq::<(Seq<char>, Seq<u8>)>::empty(), origin, req),
            crate::cors::n_allow_origin(),
        ) == Some(encode_utf8(origin)),
{
    crate::cors::lemma_annotate_lookups(Seq::<(Seq<char>, Seq<u8>)>::empty(), origin, req);
}

} // verus!

