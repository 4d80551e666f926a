use starrocks_admin_backend::config::{
    duration_secs_value, parse_bool_text, parse_days_to_i64, parse_duration_to_secs,
    parse_i64_text, parse_u16_text, parse_u64_text, env_fits, Config, ConfigError, EnvOverrides,
};

#[test]
fn durations_accept_numbers_and_units() {
    assert_eq!(parse_duration_to_secs("30"), Ok(30));
    assert_eq!(parse_duration_to_secs("+30"), Ok(30));
    assert_eq!(parse_duration_to_secs("30s"), Ok(30));
    assert_eq!(parse_duration_to_secs("5m"), Ok(300));
    assert_eq!(parse_duration_to_secs(" 1H "), Ok(3600));
    assert_eq!(parse_duration_to_secs("2days"), Ok(172800));
    assert_eq!(parse_duration_to_secs("10minutes"), Ok(600));
}

#[test]
fn durations_report_errors() {
    assert_eq!(parse_duration_to_secs("s"), Err("missing number or unit".to_string()));
    assert_eq!(parse_duration_to_secs(""), Err("missing number or unit".to_string()));
    assert_eq!(parse_duration_to_secs("5x"), Err("unsupported unit: x".to_string()));
    assert_eq!(parse_duration_to_secs("5 m"), Err("unsupported unit:  m".to_string()));
    assert_eq!(
        parse_duration_to_secs("99999999999999999999s"),
        Err("invalid number".to_string())
    );
    // the multiplication is reported by the unbounded form
    assert_eq!(duration_secs_value("18446744073709551615d"), Ok(18446744073709551615u128 * 86400));
}

#[test]
fn days_accept_numbers_and_units() {
    assert_eq!(parse_days_to_i64("7"), Ok(7));
    assert_eq!(parse_days_to_i64("-3"), Ok(-3));
    assert_eq!(parse_days_to_i64("7d"), Ok(7));
    assert_eq!(parse_days_to_i64("2w"), Ok(14));
    assert_eq!(parse_days_to_i64("3weeks"), Ok(21));
    assert_eq!(parse_days_to_i64("3h"), Err("unsupported unit: h".to_string()));
    assert_eq!(parse_days_to_i64("d"), Err("missing number or unit".to_string()));
}

#[test]
fn integer_text_matches_std_parse() {
    for s in ["0", "+7", "-7", "65535", "65536", "", "+", "-", "1a", " 1", "18446744073709551615", "18446744073709551616", "-9223372036854775808", "9223372036854775808"] {
        assert_eq!(parse_u64_text(s), s.parse::<u64>().ok(), "u64 {:?}", s);
        assert_eq!(parse_u16_text(s), s.parse::<u16>().ok(), "u16 {:?}", s);
        assert_eq!(parse_i64_text(s), s.parse::<i64>().ok(), "i64 {:?}", s);
    }
    for s in ["true", "false", "True", "1", ""] {
        assert_eq!(parse_bool_text(s), s.parse::<bool>().ok(), "bool {:?}", s);
    }
}

#[test]
fn defaults_validate() {
    let c = Config::default();
    assert_eq!(c.server.host, "0.0.0.0");
    assert_eq!(c.server.port, 8080);
    assert_eq!(c.database.url, "sqlite://data/starrocks-admin.db");
    assert_eq!(c.metrics.interval_secs, 30);
    assert_eq!(c.metrics.retention_days, 7);
    assert!(c.validate().is_ok());
    assert!(c.uses_default_jwt_secret());
}

#[test]
fn validation_reports_first_problem() {
    let mut c = Config::default();
    c.metrics.retention_days = 0;
    assert_eq!(c.validate(), Err(ConfigError::NonPositiveRetention));
    c.metrics.interval_secs = 0;
    assert_eq!(c.validate(), Err(ConfigError::ZeroInterval));
    c.database.url = String::new();
    assert_eq!(c.validate(), Err(ConfigError::EmptyDatabaseUrl));
    c.server.port = 0;
    assert_eq!(c.validate(), Err(ConfigError::ZeroPort));
    assert_eq!(ConfigError::ZeroPort.message(), "Server port cannot be 0");
    assert_eq!(ConfigError::NonPositiveRetention.message(), "metrics.retention_days must be > 0");
}

#[test]
fn env_overrides_apply_when_valid() {
    let mut env = EnvOverrides::none();
    env.server_host = Some("127.0.0.1".to_string());
    env.server_port = Some("9090".to_string());
    env.jwt_secret = Some("s3cret".to_string());
    env.metrics_interval_secs = Some("5m".to_string());
    env.metrics_retention_days = Some("2w".to_string());
    env.metrics_enabled = Some("false".to_string());
    let c = Config::load(None, &env).unwrap();
    assert_eq!(c.server.host, "127.0.0.1");
    assert_eq!(c.server.port, 9090);
    assert!(!c.uses_default_jwt_secret());
    assert_eq!(c.metrics.interval_secs, 300);
    assert_eq!(c.metrics.retention_days, 14);
    assert!(!c.metrics.enabled);
    assert_eq!(c.logging.file.as_deref(), Some("logs/starrocks-admin.log"));
}

#[test]
fn invalid_env_values_keep_settings() {
    let mut env = EnvOverrides::none();
    env.server_port = Some("http".to_string());
    env.metrics_interval_secs = Some("soon".to_string());
    env.metrics_enabled = Some("yes".to_string());
    let mut c = Config::default();
    c.apply_env_overrides(&env);
    assert_eq!(c.server.port, 8080);
    assert_eq!(c.metrics.interval_secs, 30);
    assert!(c.metrics.enabled);
}

#[test]
fn load_refuses_invalid_result() {
    let mut env = EnvOverrides::none();
    env.server_port = Some("0".to_string());
    assert_eq!(Config::load(None, &env).err(), Some(ConfigError::ZeroPort));
    let mut file = Config::default();
    file.database.url = String::new();
    assert_eq!(Config::load(Some(file), &EnvOverrides::none()).err(), Some(ConfigError::EmptyDatabaseUrl));
}

#[test]
fn overflowing_environment_numbers_are_caught() {
    let mut env = EnvOverrides::none();
    assert!(env_fits(&env));
    env.metrics_interval_secs = Some("5m".to_string());
    env.metrics_retention_days = Some("7d".to_string());
    assert!(env_fits(&env));
    let c = Config::load_checked(None, &env).unwrap().ok().unwrap();
    assert_eq!(c.metrics.interval_secs, 300);
    env.metrics_interval_secs = Some("18446744073709551615h".to_string());
    assert!(!env_fits(&env));
    assert!(Config::load_checked(None, &env).is_none());
    env.metrics_interval_secs = Some("oops".to_string());
    assert!(env_fits(&env));
    env.metrics_retention_days = Some("9223372036854775807w".to_string());
    assert!(!env_fits(&env));
}
