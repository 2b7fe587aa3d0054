use user_service::config::{Config, ConfigError, ConfigValues};

fn values(secret: Option<&str>) -> ConfigValues {
    ConfigValues {
        session_secret: secret.map(|s| s.to_string()),
        cookie_secure: None,
        bcrypt_cost: None,
        rate_limit_max_failures: None,
        rate_limit_lockout_minutes: None,
        rate_limit_ip_per_minute: None,
        session_ttl_short: None,
        session_ttl_long: None,
        cors_origin: None,
        listen_addr: None,
    }
}

const LONG_SECRET: &str = "this-is-a-very-long-secret-key-32+bytes!";

#[test]
fn missing_secret_errors() {
    assert!(matches!(
        Config::from_values(values(None)),
        Err(ConfigError::MissingSecret)
    ));
}

#[test]
fn short_secret_errors() {
    assert!(matches!(
        Config::from_values(values(Some("short"))),
        Err(ConfigError::SecretTooShort(5))
    ));
}

#[test]
fn defaults_with_valid_secret() {
    let cfg = Config::from_values(values(Some(LONG_SECRET))).unwrap();
    assert_eq!(cfg.bcrypt_cost, 12);
    assert!(cfg.cookie_secure);
    assert_eq!(cfg.session_ttl_short, 7200);
    assert_eq!(cfg.session_ttl_long, 604_800);
    assert_eq!(cfg.rate_limit_max_failures, 5);
    assert_eq!(cfg.rate_limit_lockout_minutes, 15);
    assert_eq!(cfg.rate_limit_ip_per_minute, 20);
    assert_eq!(cfg.cors_origin, "http://localhost:5173");
    assert_eq!(cfg.listen_addr, "0.0.0.0:3000");
    assert_eq!(cfg.session_secret, LONG_SECRET);
}

#[test]
fn override_defaults() {
    let mut v = values(Some(LONG_SECRET));
    v.bcrypt_cost = Some("10".to_string());
    v.cookie_secure = Some("false".to_string());
    v.session_ttl_short = Some("3600".to_string());
    let cfg = Config::from_values(v).unwrap();
    assert_eq!(cfg.bcrypt_cost, 10);
    assert!(!cfg.cookie_secure);
    assert_eq!(cfg.session_ttl_short, 3600);
}

#[test]
fn secret_length_counts_bytes() {
    // 11 three-byte characters: 33 bytes.
    let secret = "密".repeat(11);
    assert!(Config::from_values(values(Some(&secret))).is_ok());
    // 10 three-byte characters: 30 bytes.
    let short = "密".repeat(10);
    assert!(matches!(
        Config::from_values(values(Some(&short))),
        Err(ConfigError::SecretTooShort(30))
    ));
}

#[test]
fn cookie_secure_is_case_insensitive() {
    let mut v = values(Some(LONG_SECRET));
    v.cookie_secure = Some("FALSE".to_string());
    assert!(!Config::from_values(v).unwrap().cookie_secure);
}

#[test]
fn invalid_value_names_first_bad_setting() {
    let mut v = values(Some(LONG_SECRET));
    v.bcrypt_cost = Some("twelve".to_string());
    v.session_ttl_long = Some("-1".to_string());
    match Config::from_values(v) {
        Err(ConfigError::InvalidValue { key, value }) => {
            assert_eq!(key, "BCRYPT_COST");
            assert_eq!(value, "twelve");
        }
        other => panic!("unexpected: {other:?}"),
    }
    let mut v = values(Some(LONG_SECRET));
    v.cookie_secure = Some("yes".to_string());
    match Config::from_values(v) {
        Err(ConfigError::InvalidValue { key, value }) => {
            assert_eq!(key, "COOKIE_SECURE");
            assert_eq!(value, "yes");
        }
        other => panic!("unexpected: {other:?}"),
    }
}

#[test]
fn overrides_of_strings() {
    let mut v = values(Some(LONG_SECRET));
    v.cors_origin = Some("https://app.example.com".to_string());
    v.listen_addr = Some("127.0.0.1:8080".to_string());
    v.session_ttl_long = Some("86400".to_string());
    v.rate_limit_ip_per_minute = Some("3".to_string());
    let cfg = Config::from_values(v).unwrap();
    assert_eq!(cfg.cors_origin, "https://app.example.com");
    assert_eq!(cfg.listen_addr, "127.0.0.1:8080");
    assert_eq!(cfg.session_ttl_long, 86400);
    assert_eq!(cfg.rate_limit_ip_per_minute, 3);
}

#[test]
fn numbers_take_an_optional_plus_and_nothing_else() {
    let mut v = values(Some(LONG_SECRET));
    v.bcrypt_cost = Some("+10".to_string());
    assert_eq!(Config::from_values(v).unwrap().bcrypt_cost, 10);
    for bad in ["", "+", " 10", "-1", "4294967296"] {
        let mut v = values(Some(LONG_SECRET));
        v.bcrypt_cost = Some(bad.to_string());
        assert!(matches!(
            Config::from_values(v),
            Err(ConfigError::InvalidValue { .. })
        ));
    }
    let mut v = values(Some(LONG_SECRET));
    v.session_ttl_long = Some("18446744073709551615".to_string());
    assert_eq!(Config::from_values(v).unwrap().session_ttl_long, u64::MAX);
}
