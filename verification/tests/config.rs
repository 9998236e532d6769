use lanshare::config::{known_protocol, parse_port, ConfigError, MyConfig};

fn make(protocol: Option<&str>, port: Option<&str>) -> Result<MyConfig, ConfigError> {
    MyConfig::from_env(
        None,
        protocol.map(|p| p.to_string()),
        port.map(|p| p.to_string()),
        "/tmp".to_string(),
    )
}

#[test]
fn absent_values_get_their_defaults() {
    let c = MyConfig::from_env(None, None, None, "/home/user".to_string()).unwrap();
    assert_eq!(c.working_dir(), "/home/user");
    assert_eq!(c.protocol(), "http");
    assert_eq!(c.port(), "8000");
    assert_eq!(c.port_number(), 8000);
}

#[test]
fn configured_values_are_kept() {
    let c = MyConfig::from_env(
        Some("/srv/files".to_string()),
        Some("https".to_string()),
        Some("8443".to_string()),
        "/home/user".to_string(),
    )
    .unwrap();
    assert_eq!(c.working_dir(), "/srv/files");
    assert_eq!(c.protocol(), "https");
    assert_eq!(c.port(), "8443");
    assert_eq!(c.port_number(), 8443);
}

#[test]
fn each_value_falls_back_on_its_own() {
    let c = MyConfig::from_env(None, Some("https".to_string()), None, "/cwd".to_string()).unwrap();
    assert_eq!(c.working_dir(), "/cwd");
    assert_eq!(c.protocol(), "https");
    assert_eq!(c.port(), "8000");
}

#[test]
fn current_directory_is_not_used_where_a_working_directory_is_given() {
    let c = MyConfig::from_env(Some("/srv/files".to_string()), None, None, String::new()).unwrap();
    assert_eq!(c.working_dir(), "/srv/files");
}

#[test]
fn equal_values_make_equal_configurations() {
    assert_eq!(make(None, None), make(Some("http"), Some("8000")));
    assert_ne!(make(None, None), make(Some("https"), Some("8000")));
    assert_ne!(make(None, None), make(Some("http"), Some("8001")));
}

#[test]
fn unknown_protocol_is_refused() {
    assert_eq!(make(Some("ftp"), None), Err(ConfigError::UnknownProtocol));
    assert_eq!(make(Some("HTTP"), None), Err(ConfigError::UnknownProtocol));
    assert_eq!(make(Some(""), None), Err(ConfigError::UnknownProtocol));
    assert_eq!(make(Some("httpss"), None), Err(ConfigError::UnknownProtocol));
    assert_eq!(make(Some("http "), Some("8000")), Err(ConfigError::UnknownProtocol));
}

#[test]
fn invalid_port_is_refused() {
    assert_eq!(make(None, Some("0")), Err(ConfigError::InvalidPort));
    assert_eq!(make(None, Some("65536")), Err(ConfigError::InvalidPort));
    assert_eq!(make(None, Some("")), Err(ConfigError::InvalidPort));
    assert_eq!(make(Some("https"), Some("x")), Err(ConfigError::InvalidPort));
    assert_eq!(make(Some("http"), Some("80a")), Err(ConfigError::InvalidPort));
}

#[test]
fn protocol_is_tested_before_the_port() {
    assert_eq!(make(Some("ftp"), Some("0")), Err(ConfigError::UnknownProtocol));
}

#[test]
fn every_configuration_is_valid() {
    let protocols = [None, Some("http"), Some("https"), Some("ftp"), Some("")];
    let ports = [None, Some("1"), Some("65535"), Some("+80"), Some("0"), Some("65536"), Some("x")];
    for protocol in protocols {
        for port in ports {
            if let Ok(c) = make(protocol, port) {
                assert!(c.protocol() == "http" || c.protocol() == "https");
                assert!(c.port_number() >= 1);
                assert_eq!(parse_port(c.port()), Some(c.port_number()));
            }
        }
    }
}

#[test]
fn port_of_digits() {
    assert_eq!(parse_port("8000"), Some(8000));
    assert_eq!(parse_port("1"), Some(1));
    assert_eq!(parse_port("65535"), Some(65535));
    assert_eq!(parse_port("00080"), Some(80));
    assert_eq!(make(None, Some("00080")).unwrap().port_number(), 80);
}

#[test]
fn port_with_a_plus_sign() {
    assert_eq!(parse_port("+8000"), Some(8000));
    assert_eq!(parse_port("+1"), Some(1));
    assert_eq!(parse_port("+065535"), Some(65535));
    assert_eq!(parse_port("+"), None);
    assert_eq!(parse_port("++80"), None);
    assert_eq!(parse_port("8+0"), None);
    assert_eq!(parse_port("+0"), None);
    assert_eq!(parse_port("+65536"), None);
    let c = make(None, Some("+8000")).unwrap();
    assert_eq!(c.port(), "+8000");
    assert_eq!(c.port_number(), 8000);
}

#[test]
fn port_out_of_range() {
    assert_eq!(parse_port("0"), None);
    assert_eq!(parse_port("000"), None);
    assert_eq!(parse_port("65536"), None);
    assert_eq!(parse_port("99999999999999999999999"), None);
}

#[test]
fn port_of_other_text() {
    assert_eq!(parse_port(""), None);
    assert_eq!(parse_port("-1"), None);
    assert_eq!(parse_port("80a"), None);
    assert_eq!(parse_port(" 80"), None);
    assert_eq!(parse_port("80 "), None);
    assert_eq!(parse_port("\u{ff18}\u{ff10}"), None);
    assert_eq!(parse_port("700000x"), None);
}

#[test]
fn port_agrees_with_the_standard_parser_but_for_zero() {
    let texts = [
        "8000", "+8000", "0", "+0", "1", "65535", "65536", "", "+", "-1", "-0", "0080", "+0080",
        "8 0", "0x50", "1e3", "80.0", "++1", "\u{663}",
    ];
    for text in texts {
        let expected = text.parse::<u16>().ok().filter(|p| *p != 0);
        assert_eq!(parse_port(text), expected, "{:?}", text);
    }
}

#[test]
fn known_protocols_are_http_and_https() {
    assert!(known_protocol("http"));
    assert!(known_protocol("https"));
    assert!(!known_protocol("ftp"));
    assert!(!known_protocol("HTTP"));
    assert!(!known_protocol(""));
    assert!(!known_protocol("httpss"));
    assert!(!known_protocol("htt"));
}

#[test]
fn refusal_messages() {
    assert_eq!(ConfigError::UnknownProtocol.message(), "the protocol is neither http nor https");
    assert_eq!(ConfigError::InvalidPort.message(), "the port is no number between 1 and 65535");
}
