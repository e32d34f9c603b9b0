use kountr::config::{AppEnv, AppOptions, ConfigError, LogLevel};

fn s(text: &str) -> Option<String> {
    Some(text.to_string())
}

#[test]
fn options_defaults() {
    let o = AppOptions::new_from_envs(s("postgres://db"), None, None, None).unwrap();
    assert_eq!(o.db_url, "postgres://db");
    assert_eq!(o.host, "127.0.0.1");
    assert_eq!(o.port, 8000);
    assert_eq!(o.env, AppEnv::Dev);
    assert_eq!(o.log_level, LogLevel::Debug);
}

#[test]
fn options_prod() {
    let o = AppOptions::new_from_envs(s("u"), s("0.0.0.0"), s("+80"), s("prod")).unwrap();
    assert_eq!(o.host, "0.0.0.0");
    assert_eq!(o.port, 80);
    assert_eq!(o.env, AppEnv::Prod);
    assert_eq!(o.log_level, LogLevel::Info);
    let other = AppOptions::new_from_envs(s("u"), None, s("65535"), s("staging")).unwrap();
    assert_eq!(other.port, 65535);
    assert_eq!(other.env, AppEnv::Dev);
}

#[test]
fn options_errors() {
    assert_eq!(
        AppOptions::new_from_envs(None, None, None, None),
        Err(ConfigError::MissingDatabaseUrl)
    );
    for bad in ["", "http", "65536", "-1", " 80", "8o"] {
        assert_eq!(
            AppOptions::new_from_envs(s("u"), None, s(bad), None),
            Err(ConfigError::InvalidPort),
            "{}",
            bad
        );
    }
}
