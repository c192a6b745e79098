use holy_cors::config::Config;
use holy_cors::cors::add_cors_headers;
use holy_cors::cors::check_origin;
use holy_cors::cors::error_response;
use holy_cors::headers::Header;
use holy_cors::headers::Headers;
use holy_cors::pipeline::build_forward_headers;
use holy_cors::pipeline::hop_by_hop_names;
use holy_cors::pipeline::rewrap_response_headers;
use holy_cors::pipeline::body_read_error_response;
use holy_cors::pipeline::invalid_uri_error_response;
use holy_cors::pipeline::request_build_error_response;
use holy_cors::pipeline::route_request;
use holy_cors::pipeline::upstream_error_response;
use holy_cors::pipeline::websocket_outcome_response;
use holy_cors::pipeline::InboundRequest;
use holy_cors::pipeline::RouteAction;
use holy_cors::target::validate_target;

fn base_config() -> Config {
    Config {
        port: 8080,
        allow_origins: vec![],
        allow_all: false,
        verbose: false,
        bind: "0.0.0.0".to_string(),
    }
}

fn headers_of(pairs: &[(&str, &str)]) -> Headers {
    Headers {
        entries: pairs
            .iter()
            .map(|(n, v)| Header { name: n.to_string(), value: v.as_bytes().to_vec() })
            .collect(),
    }
}

fn get<'a>(h: &'a Headers, name: &str) -> Option<&'a Vec<u8>> {
    h.get(name)
}

#[test]
fn preflight_short_circuits_with_all_cors_headers() {
    let req = InboundRequest {
        method: "OPTIONS".to_string(),
        path: "/https://api.example.com/users".to_string(),
        query: None,
        headers: headers_of(&[
            ("origin", "https://bugdays.com"),
            ("access-control-request-method", "GET"),
        ]),
    };
    match route_request(&base_config(), &req) {
        RouteAction::Respond(resp) => {
            assert_eq!(resp.status, 204);
            assert_eq!(resp.body, "");
            let h = resp.headers;
            assert_eq!(
                get(&h, "access-control-allow-origin").map(|v| v.as_slice()),
                Some(b"https://bugdays.com".as_slice())
            );
            assert_eq!(
                get(&h, "access-control-allow-methods").map(|v| v.as_slice()),
                Some(b"GET, POST, PUT, PATCH, DELETE, HEAD, OPTIONS".as_slice())
            );
            assert_eq!(get(&h, "access-control-allow-headers").map(|v| v.as_slice()), Some(b"*".as_slice()));
            assert_eq!(get(&h, "access-control-expose-headers").map(|v| v.as_slice()), Some(b"*".as_slice()));
            assert_eq!(get(&h, "access-control-max-age").map(|v| v.as_slice()), Some(b"86400".as_slice()));
            assert_eq!(get(&h, "access-control-allow-credentials").map(|v| v.as_slice()), Some(b"true".as_slice()));
        }
        _ => panic!("a preflight must never be forwarded"),
    }
}

#[test]
fn hop_by_hop_filter_keeps_custom_headers() {
    let hs = headers_of(&[
        ("Connection", "keep-alive"),
        ("Host", "proxy.local"),
        ("X-Custom", "MixedCaseValue"),
    ]);
    let filtered = hs.without_names(&hop_by_hop_names());
    assert_eq!(filtered.entries.len(), 1);
    assert_eq!(filtered.entries[0].name, "X-Custom");
    assert_eq!(filtered.entries[0].value, b"MixedCaseValue".to_vec());
}

#[test]
fn forward_headers_set_explicit_host() {
    let hs = headers_of(&[("accept", "*/*"), ("host", "proxy.local")]);
    let target = validate_target("https://api.example.com:8443/users".to_string()).unwrap();
    let out = build_forward_headers(&hs, &target);
    assert_eq!(get(&out, "accept").map(|v| v.as_slice()), Some(b"*/*".as_slice()));
    assert_eq!(
        get(&out, "host").map(|v| v.as_slice()),
        Some(b"api.example.com:8443".as_slice())
    );
    // exactly one host entry: the original one was stripped first
    let hosts = out
        .entries
        .iter()
        .filter(|e| e.name.eq_ignore_ascii_case("host"))
        .count();
    assert_eq!(hosts, 1);
}

#[test]
fn rewrapped_response_echoes_validated_origin() {
    let config = base_config();
    let request_headers = headers_of(&[("origin", "https://bugdays.com")]);
    let origin = check_origin(&request_headers, &config).ok().unwrap();
    assert_eq!(origin, "https://bugdays.com");

    let upstream = headers_of(&[
        ("content-type", "text/plain"),
        ("content-length", "42"),
        ("transfer-encoding", "chunked"),
    ]);
    let out = rewrap_response_headers(&upstream, &origin, &request_headers);
    assert_eq!(
        get(&out, "access-control-allow-origin").map(|v| v.as_slice()),
        Some(b"https://bugdays.com".as_slice())
    );
    assert_eq!(get(&out, "content-type").map(|v| v.as_slice()), Some(b"text/plain".as_slice()));
    assert!(get(&out, "content-length").is_none());
    assert!(get(&out, "transfer-encoding").is_none());
}

#[test]
fn rewrapped_response_uses_wildcard_without_origin() {
    let upstream = headers_of(&[("content-type", "text/plain")]);
    let request_headers = headers_of(&[]);
    let out = rewrap_response_headers(&upstream, "", &request_headers);
    assert_eq!(get(&out, "access-control-allow-origin").map(|v| v.as_slice()), Some(b"*".as_slice()));
}

#[test]
fn cors_annotation_echoes_requested_headers() {
    let request_headers = headers_of(&[("access-control-request-headers", "X-Token, X-Trace")]);
    let mut h = Headers { entries: vec![] };
    add_cors_headers(&mut h, "https://bugdays.com", &request_headers);
    assert_eq!(
        get(&h, "access-control-allow-headers").map(|v| v.as_slice()),
        Some(b"X-Token, X-Trace".as_slice())
    );
}

#[test]
fn denied_origin_gets_403_with_hint() {
    let config = base_config();
    let headers = headers_of(&[("origin", "https://evil.com")]);
    let resp = check_origin(&headers, &config).err().unwrap();
    assert_eq!(resp.status, 403);
    assert_eq!(
        resp.body,
        "{\"error\": \"Origin 'https://evil.com' is not allowed. Use --allow-origin to add it.\"}"
    );
}

#[test]
fn non_textual_origin_gets_400() {
    let config = base_config();
    let headers = Headers {
        entries: vec![Header { name: "origin".to_string(), value: vec![0x80u8, 0x81] }],
    };
    let resp = check_origin(&headers, &config).err().unwrap();
    assert_eq!(resp.status, 400);
    assert_eq!(resp.body, "{\"error\": \"Invalid Origin header\"}");
}

#[test]
fn welcome_response_for_root_path() {
    let req = InboundRequest {
        method: "GET".to_string(),
        path: "/".to_string(),
        query: None,
        headers: headers_of(&[]),
    };
    match route_request(&base_config(), &req) {
        RouteAction::Respond(resp) => {
            assert_eq!(resp.status, 200);
            assert_eq!(
                resp.body,
                "{\"message\": \"Holy CORS! Proxy is running. Usage: /{TARGET_URL}\"}"
            );
            assert_eq!(get(&resp.headers, "access-control-allow-origin").map(|v| v.as_slice()), Some(b"*".as_slice()));
        }
        _ => panic!("the root path must answer directly"),
    }
}

#[test]
fn plain_request_is_planned_for_forwarding() {
    let req = InboundRequest {
        method: "GET".to_string(),
        path: "/https://api.example.com/users".to_string(),
        query: None,
        headers: headers_of(&[("connection", "keep-alive"), ("accept", "*/*")]),
    };
    match route_request(&base_config(), &req) {
        RouteAction::ForwardHttp(plan) => {
            assert_eq!(plan.target.url, "https://api.example.com/users");
            assert_eq!(plan.target.scheme, "https");
            assert_eq!(plan.origin, "");
            assert!(get(&plan.outbound_headers, "connection").is_none());
            assert_eq!(
                get(&plan.outbound_headers, "host").map(|v| v.as_slice()),
                Some(b"api.example.com".as_slice())
            );
        }
        _ => panic!("a plain proxied request must be forwarded"),
    }
}

#[test]
fn websocket_upgrade_is_planned_with_translated_scheme() {
    let req = InboundRequest {
        method: "GET".to_string(),
        path: "/https://api.example.com/socket".to_string(),
        query: None,
        headers: headers_of(&[("upgrade", "WebSocket")]),
    };
    match route_request(&base_config(), &req) {
        RouteAction::ForwardWebSocket(plan) => {
            assert_eq!(plan.ws_url, "wss://api.example.com/socket");
        }
        _ => panic!("an upgrade request must take the WebSocket branch"),
    }
}

#[test]
fn malformed_target_gets_400() {
    let req = InboundRequest {
        method: "GET".to_string(),
        path: "/no url here".to_string(),
        query: None,
        headers: headers_of(&[]),
    };
    match route_request(&base_config(), &req) {
        RouteAction::Respond(resp) => {
            assert_eq!(resp.status, 400);
            assert_eq!(resp.body, "{\"error\": \"Invalid target URL\"}");
        }
        _ => panic!("an unresolvable target must be rejected"),
    }
}

#[test]
fn upstream_failure_yields_502_json() {
    let resp = upstream_error_response("dns error");
    assert_eq!(resp.status, 502);
    assert_eq!(resp.body, "{\"error\": \"Failed to reach target: dns error\"}");
    assert_eq!(
        get(&resp.headers, "content-type").map(|v| v.as_slice()),
        Some(b"application/json".as_slice())
    );
}

#[test]
fn websocket_outcomes_map_to_502_and_501() {
    let failed = websocket_outcome_response(false, "refused");
    assert_eq!(failed.status, 502);
    assert_eq!(failed.body, "{\"error\": \"Failed to connect to WebSocket: refused\"}");
    let connected = websocket_outcome_response(true, "");
    assert_eq!(connected.status, 501);
}

#[test]
fn error_responses_always_carry_cors_basics() {
    let resp = error_response(418, "teapot");
    assert_eq!(resp.status, 418);
    assert_eq!(get(&resp.headers, "access-control-allow-origin").map(|v| v.as_slice()), Some(b"*".as_slice()));
    assert_eq!(
        get(&resp.headers, "access-control-allow-methods").map(|v| v.as_slice()),
        Some(b"GET, POST, PUT, PATCH, DELETE, HEAD, OPTIONS".as_slice())
    );
}

#[test]
fn io_failure_responses_have_fixed_shapes() {
    let resp = body_read_error_response();
    assert_eq!(resp.status, 400);
    assert_eq!(resp.body, "{\"error\": \"Failed to read request body\"}");

    let resp = request_build_error_response();
    assert_eq!(resp.status, 500);
    assert_eq!(resp.body, "{\"error\": \"Failed to build request\"}");

    let resp = invalid_uri_error_response("bad uri");
    assert_eq!(resp.status, 400);
    assert_eq!(resp.body, "{\"error\": \"Invalid target URI: bad uri\"}");
}

#[test]
fn filter_preserves_duplicate_headers_in_order() {
    let hs = headers_of(&[
        ("x-trace", "first"),
        ("connection", "close"),
        ("x-trace", "second"),
    ]);
    let filtered = hs.without_names(&hop_by_hop_names());
    assert_eq!(filtered.entries.len(), 2);
    assert_eq!(filtered.entries[0].value, b"first".to_vec());
    assert_eq!(filtered.entries[1].value, b"second".to_vec());
}

#[test]
fn empty_path_also_gets_welcome() {
    let req = InboundRequest {
        method: "GET".to_string(),
        path: "".to_string(),
        query: None,
        headers: headers_of(&[]),
    };
    match route_request(&base_config(), &req) {
        RouteAction::Respond(resp) => assert_eq!(resp.status, 200),
        _ => panic!("an empty path must answer directly"),
    }
}

#[test]
fn error_bodies_escape_quotes_and_controls() {
    let resp = error_response(400, "a \"quoted\" \\ path");
    assert_eq!(resp.body, "{\"error\": \"a \\\"quoted\\\" \\\\ path\"}");
    let resp = error_response(400, "tab\there");
    assert_eq!(resp.body, "{\"error\": \"tab\\u0009here\"}");
}

#[test]
fn denied_origin_with_quote_still_yields_wellformed_json() {
    let config = base_config();
    let headers = headers_of(&[("origin", "https://evil.com/\"x")]);
    let resp = check_origin(&headers, &config).err().unwrap();
    assert_eq!(resp.status, 403);
    assert_eq!(
        resp.body,
        "{\"error\": \"Origin 'https://evil.com/\\\"x' is not allowed. Use --allow-origin to add it.\"}"
    );
}
