use holy_cors::config::Config;

fn base_config() -> Config {
    Config {
        port: 8080,
        allow_origins: vec![],
        allow_all: false,
        verbose: false,
        bind: "0.0.0.0".to_string(),
    }
}

#[test]
fn test_default_origins() {
    let config = Config {
        port: 8080,
        allow_origins: vec![],
        allow_all: false,
        verbose: false,
        bind: "0.0.0.0".to_string(),
    };

    assert!(config.is_origin_allowed("https://bugdays.com"));
    assert!(config.is_origin_allowed("https://www.bugdays.com"));
    assert!(!config.is_origin_allowed("https://evil.com"));
}

#[test]
fn test_custom_origin() {
    let config = Config {
        port: 8080,
        allow_origins: vec!["http://localhost:3000".to_string()],
        allow_all: false,
        verbose: false,
        bind: "0.0.0.0".to_string(),
    };

    assert!(config.is_origin_allowed("http://localhost:3000"));
    assert!(config.is_origin_allowed("https://bugdays.com"));
}

#[test]
fn test_allow_all() {
    let config = Config {
        port: 8080,
        allow_origins: vec![],
        allow_all: true,
        verbose: false,
        bind: "0.0.0.0".to_string(),
    };

    assert!(config.is_origin_allowed("https://anything.com"));
    assert!(config.is_origin_allowed("http://localhost:9999"));
}

#[test]
fn test_all_four_defaults_allowed() {
    let config = base_config();
    assert!(config.is_origin_allowed("https://bugdays.com"));
    assert!(config.is_origin_allowed("https://www.bugdays.com"));
    assert!(config.is_origin_allowed("http://bugdays.com"));
    assert!(config.is_origin_allowed("http://www.bugdays.com"));
}

#[test]
fn test_allowed_origins_lists_defaults_then_extras() {
    let config = Config {
        allow_origins: vec!["http://localhost:3000".to_string()],
        ..base_config()
    };
    let all = config.allowed_origins();
    assert_eq!(
        all,
        vec![
            "https://bugdays.com".to_string(),
            "https://www.bugdays.com".to_string(),
            "http://bugdays.com".to_string(),
            "http://www.bugdays.com".to_string(),
            "http://localhost:3000".to_string(),
        ]
    );
}

#[test]
fn test_socket_addr_formats_bind_and_port() {
    let config = base_config();
    assert_eq!(config.socket_addr(), "0.0.0.0:8080");
    let config = Config { port: 65535, bind: "127.0.0.1".to_string(), ..base_config() };
    assert_eq!(config.socket_addr(), "127.0.0.1:65535");
}

#[test]
fn test_allowed_origins_is_duplicate_free() {
    let config = Config {
        allow_origins: vec![
            "https://bugdays.com".to_string(),
            "http://localhost:3000".to_string(),
            "http://localhost:3000".to_string(),
        ],
        ..base_config()
    };
    let all = config.allowed_origins();
    assert_eq!(all.len(), 5);
    assert_eq!(all[4], "http://localhost:3000");
    assert!(config.is_origin_allowed("http://localhost:3000"));
}
