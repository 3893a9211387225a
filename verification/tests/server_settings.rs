use tcpserver::config::{parse_port, validate_config, ConfigError, TcpServerConfig};

#[test]
fn defaults_apply_to_missing_and_unreadable_values() {
    let c = TcpServerConfig::from_values(None, Some("abc".to_string()), None, None, Some("grpc".to_string()), Some("7000".to_string()));
    assert_eq!(c.host, "127.0.0.1");
    assert_eq!(c.port, 4000);
    assert_eq!(c.redis_port, 6379);
    assert_eq!(c.grpc_host, "grpc");
    assert_eq!(c.grpc_port, 7000);
    assert_eq!(c.bind_address(), "127.0.0.1:4000");
    assert_eq!(c.redis_address(), "redis://127.0.0.1:6379");
    assert_eq!(c.grpc_address(), "http://grpc:7000");
    assert_eq!(validate_config(&c), Ok(()));
}

#[test]
fn ports_parse_like_the_standard_library() {
    assert_eq!(parse_port("8080"), Some(8080));
    assert_eq!(parse_port("+1"), Some(1));
    assert_eq!(parse_port("65536"), None);
    assert_eq!(parse_port(""), None);
    assert_eq!(parse_port(" 80"), None);
}

#[test]
fn invalid_settings_are_refused() {
    let mut c = TcpServerConfig::from_values(None, None, None, None, None, None);
    c.port = 0;
    assert_eq!(validate_config(&c), Err(ConfigError::InvalidTcpPort));
    c.port = 1;
    c.redis_host = String::new();
    assert_eq!(validate_config(&c), Err(ConfigError::EmptyRedisHost));
}

#[test]
fn port_text_edge_cases() {
    assert_eq!(parse_port("65535"), Some(65535));
    assert_eq!(parse_port("0"), Some(0));
    assert_eq!(parse_port("00080"), Some(80));
    assert_eq!(parse_port("+"), None);
    assert_eq!(parse_port("-1"), None);
    assert_eq!(parse_port("8a"), None);
    assert_eq!(parse_port("99999999999999999999"), None);
    assert_eq!(parse_port("٣"), None);
    for p in [1u16, 443, 8080, 65535] {
        assert_eq!(parse_port(&p.to_string()), p.to_string().parse::<u16>().ok());
    }
}
