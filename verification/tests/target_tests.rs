use holy_cors::target::extract_target_url;
use holy_cors::target::urlencoding_decode;
use holy_cors::target::validate_target;
use holy_cors::target::websocket_url;

#[test]
fn resolve_plain_url() {
    assert_eq!(
        extract_target_url("/https://api.example.com/users", None),
        Some("https://api.example.com/users".to_string())
    );
}

#[test]
fn resolve_percent_encoded_url() {
    assert_eq!(
        extract_target_url("/https%3A%2F%2Fapi.example.com%2Fusers", None),
        Some("https://api.example.com/users".to_string())
    );
}

#[test]
fn resolve_bare_domain_with_query() {
    assert_eq!(
        extract_target_url("/example.com/path", Some("q=1")),
        Some("https://example.com/path?q=1".to_string())
    );
}

#[test]
fn resolve_empty_paths_fail() {
    assert_eq!(extract_target_url("", None), None);
    assert_eq!(extract_target_url("/", None), None);
}

#[test]
fn resolve_rejects_non_url_text() {
    assert_eq!(extract_target_url("/hello world", None), None);
    assert_eq!(extract_target_url("/nodots", None), None);
}

#[test]
fn decode_passes_malformed_escapes_through() {
    assert_eq!(urlencoding_decode("a%2Fb"), Some("a/b".to_string()));
    assert_eq!(urlencoding_decode("%zq"), Some("%zq".to_string()));
    assert_eq!(urlencoding_decode("%4"), Some("%4".to_string()));
    assert_eq!(urlencoding_decode("%"), Some("%".to_string()));
    // the two bytes after a malformed escape are consumed verbatim,
    // so the inner "%41" is never decoded
    assert_eq!(urlencoding_decode("%%41x"), Some("%%41x".to_string()));
    assert_eq!(urlencoding_decode("100%25"), Some("100%".to_string()));
}

#[test]
fn decode_works_at_the_byte_level() {
    assert_eq!(urlencoding_decode("%C3%A9"), Some("\u{e9}".to_string()));
    assert_eq!(urlencoding_decode("caf%C3%A9"), Some("caf\u{e9}".to_string()));
    // a lone 0xFF byte is not valid UTF-8
    assert_eq!(urlencoding_decode("%FF"), None);
}

#[test]
fn resolve_decodes_multibyte_escapes() {
    assert_eq!(
        extract_target_url("/https://example.com/caf%C3%A9", None),
        Some("https://example.com/caf\u{e9}".to_string())
    );
    assert_eq!(extract_target_url("/https://example.com/a%FF", None), None);
}

#[test]
fn validate_keeps_http_and_https() {
    let t = validate_target("https://example.com:8443/x".to_string()).unwrap();
    assert_eq!(t.url, "https://example.com:8443/x");
    assert_eq!(t.scheme, "https");
    assert_eq!(t.host.as_deref(), Some("example.com"));
    assert_eq!(t.port, Some(8443));

    let t = validate_target("http://example.com/".to_string()).unwrap();
    assert_eq!(t.scheme, "http");
    assert_eq!(t.port, None);
}

#[test]
fn validate_drops_default_port() {
    let t = validate_target("https://example.com:443/x".to_string()).unwrap();
    assert_eq!(t.port, None);
}

#[test]
fn validate_rejects_other_schemes() {
    let r = validate_target("ftp://example.com/x".to_string());
    let resp = r.err().expect("ftp must be rejected");
    assert_eq!(resp.status, 400);
    assert_eq!(
        String::from_utf8(resp.body.into_bytes()).unwrap(),
        "{\"error\": \"Unsupported scheme: ftp. Only http and https are allowed.\"}"
    );
}

#[test]
fn validate_rejects_unparseable_url() {
    let r = validate_target("https://".to_string());
    let resp = r.err().expect("an empty host must be rejected");
    assert_eq!(resp.status, 400);
    let body = resp.body;
    assert!(body.starts_with("{\"error\": \"Invalid URL: "));
}

#[test]
fn websocket_url_translates_schemes() {
    assert_eq!(websocket_url("http://example.com/ws"), "ws://example.com/ws");
    assert_eq!(websocket_url("https://example.com/ws"), "wss://example.com/ws");
}
