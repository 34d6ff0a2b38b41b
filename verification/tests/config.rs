use speedtest_exporter::config::{
    Config, ConfigError, DEFAULT_INTERVAL_SECS, DEFAULT_PORT, MIN_INTERVAL_SECS,
};

fn some(s: &str) -> Option<String> {
    Some(s.to_string())
}

#[test]
fn defaults_when_no_env() {
    let config = Config::new(None, None, None).unwrap();
    assert_eq!(config.port, DEFAULT_PORT);
    assert_eq!(config.interval_secs, DEFAULT_INTERVAL_SECS);
    assert!(config.server_id.is_none());
}

#[test]
fn custom_port() {
    let config = Config::new(some("8080"), None, None).unwrap();
    assert_eq!(config.port, 8080);
}

#[test]
fn custom_server_id() {
    let config = Config::new(None, None, some("1234")).unwrap();
    assert_eq!(config.server_id, Some("1234".to_string()));
}

#[test]
fn rejects_invalid_port() {
    let err = Config::new(some("not-a-number"), None, None).unwrap_err();
    assert!(matches!(err, ConfigError::InvalidPort(_)));
}

#[test]
fn rejects_interval_below_minimum() {
    let err = Config::new(None, some("10"), None).unwrap_err();
    assert!(matches!(err, ConfigError::InvalidInterval(_)));
}

#[test]
fn accepts_minimum_interval() {
    let config = Config::new(None, some("30"), None).unwrap();
    assert_eq!(config.interval_secs, 30);
}

#[test]
fn rejects_non_numeric_interval() {
    let err = Config::new(None, some("abc"), None).unwrap_err();
    assert!(matches!(err, ConfigError::InvalidInterval(_)));
}

#[test]
fn default_values_match_documentation() {
    assert_eq!(DEFAULT_PORT, 9798);
    assert_eq!(DEFAULT_INTERVAL_SECS, 300);
    assert_eq!(MIN_INTERVAL_SECS, 30);
}

#[test]
fn invalid_port_carries_fixed_detail() {
    match Config::new(some("70000"), some("abc"), None) {
        Err(ConfigError::InvalidPort(m)) => assert_eq!(m, "not a valid u16"),
        other => panic!("unexpected {:?}", other),
    }
}

#[test]
fn port_is_checked_before_interval() {
    let err = Config::new(some(""), some("5"), None).unwrap_err();
    assert!(matches!(err, ConfigError::InvalidPort(_)));
}

#[test]
fn non_numeric_interval_carries_the_text() {
    match Config::new(None, some("12s"), None) {
        Err(ConfigError::InvalidInterval(m)) => assert_eq!(m, "12s"),
        other => panic!("unexpected {:?}", other),
    }
}

#[test]
fn short_interval_carries_its_decimal_value() {
    match Config::new(None, some("+0029"), None) {
        Err(ConfigError::InvalidInterval(m)) => assert_eq!(m, "29"),
        other => panic!("unexpected {:?}", other),
    }
}

#[test]
fn interval_just_below_minimum_is_rejected_and_above_is_accepted() {
    assert!(Config::new(None, some("29"), None).is_err());
    let config = Config::new(Some("65535".into()), some("31"), some("")).unwrap();
    assert_eq!(config.port, 65535);
    assert_eq!(config.interval_secs, 31);
    assert_eq!(config.server_id, Some(String::new()));
}

#[test]
fn large_interval_is_accepted() {
    let config = Config::new(None, some("18446744073709551615"), None).unwrap();
    assert_eq!(config.interval_secs, u64::MAX);
    assert!(Config::new(None, some("18446744073709551616"), None).is_err());
}

#[test]
fn port_overflow_and_signs_are_rejected() {
    assert!(Config::new(some("65536"), None, None).is_err());
    assert!(Config::new(some("-1"), None, None).is_err());
    assert!(Config::new(some(" 80"), None, None).is_err());
    assert_eq!(Config::new(some("+80"), None, None).unwrap().port, 80);
    assert_eq!(Config::new(some("0"), None, None).unwrap().port, 0);
}

#[test]
fn config_error_messages() {
    let e = ConfigError::InvalidPort("not a valid u16".to_string());
    assert_eq!(e.to_string(), "invalid PORT value: not a valid u16");
    let e = ConfigError::InvalidInterval("10".to_string());
    assert_eq!(
        e.to_string(),
        "invalid SPEEDTEST_INTERVAL_SECS value: 10 (minimum: 30s)"
    );
}
