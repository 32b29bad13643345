use loginapp::config::{value_or, Config, ConfigError, DEFAULT_EXPIRES_IN, DEFAULT_PORT};

fn s(text: &str) -> Option<String> {
    Some(text.to_string())
}

#[test]
fn defaults_are_used_for_what_is_missing() {
    let config = Config::from_values(None, None, None, s("top secret"), None, None).unwrap();
    assert_eq!(
        config,
        Config {
            host: "127.0.0.1".to_string(),
            port: 8001,
            database_url: "sqlite:loginapp.db".to_string(),
            jwt_secret: "top secret".to_string(),
            jwt_expires_in: 604_800,
            frontend_url: "http://localhost:5173".to_string(),
        }
    );
    assert_eq!((DEFAULT_PORT, DEFAULT_EXPIRES_IN), (8001, 604_800));
    assert_eq!(DEFAULT_EXPIRES_IN, 7 * 24 * 60 * 60);
}

#[test]
fn given_values_are_kept() {
    let config = Config::from_values(
        s("0.0.0.0"),
        s("8080"),
        s("sqlite::memory:"),
        s("k"),
        s("3600"),
        s("https://app.example"),
    )
    .unwrap();
    assert_eq!(
        config,
        Config {
            host: "0.0.0.0".to_string(),
            port: 8080,
            database_url: "sqlite::memory:".to_string(),
            jwt_secret: "k".to_string(),
            jwt_expires_in: 3600,
            frontend_url: "https://app.example".to_string(),
        }
    );
    assert_eq!(config.clone(), config);
}

#[test]
fn empty_values_are_kept_as_they_are() {
    let config = Config::from_values(s(""), None, s(""), s(""), None, s("")).unwrap();
    assert_eq!(config.host, "");
    assert_eq!(config.database_url, "");
    assert_eq!(config.jwt_secret, "");
    assert_eq!(config.frontend_url, "");
}

#[test]
fn a_bad_port_is_refused() {
    for port in ["", "http", "65536", "-1", "80 ", "8o01"] {
        assert_eq!(
            Config::from_values(None, s(port), None, s("k"), None, None),
            Err(ConfigError::InvalidPort),
            "{}",
            port
        );
    }
    let config = Config::from_values(None, s("+65535"), None, s("k"), None, None).unwrap();
    assert_eq!(config.port, 65_535);
}

#[test]
fn a_missing_secret_is_refused() {
    assert_eq!(
        Config::from_values(None, None, None, None, None, None),
        Err(ConfigError::MissingSecret)
    );
}

#[test]
fn a_bad_lifetime_is_refused() {
    for expiry in ["", "week", "9223372036854775808", "1.5", "7d"] {
        assert_eq!(
            Config::from_values(None, None, None, s("k"), s(expiry), None),
            Err(ConfigError::InvalidExpiry),
            "{}",
            expiry
        );
    }
    let config = Config::from_values(None, None, None, s("k"), s("-60"), None).unwrap();
    assert_eq!(config.jwt_expires_in, -60);
}

#[test]
fn the_first_wrong_value_is_reported() {
    assert_eq!(
        Config::from_values(None, s("x"), None, None, s("y"), None),
        Err(ConfigError::InvalidPort)
    );
    assert_eq!(
        Config::from_values(None, s("1"), None, None, s("y"), None),
        Err(ConfigError::MissingSecret)
    );
}

#[test]
fn value_or_takes_the_default_only_when_missing() {
    assert_eq!(value_or(None, "d"), "d");
    assert_eq!(value_or(s("v"), "d"), "v");
    assert_eq!(value_or(s(""), "d"), "");
}
