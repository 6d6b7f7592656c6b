use face_detect_rust::config::{parse_log_level, AppConfig, LogLevel};

#[test]
fn test_app_config_default() {
    let config = AppConfig::default();
    assert_eq!(config.port, 8080);
    assert_eq!(config.max_file_size, 10 * 1024 * 1024);
    assert_eq!(config.upload_dir, "uploads");
}

#[test]
fn config_takes_values_that_parse() {
    let config = AppConfig::default().with_env_values(Some("3000"), Some("debug"), None, None);
    assert_eq!(config.port, 3000);
    assert_eq!(config.log_level, LogLevel::Debug);
    assert_eq!(config.max_file_size, 10 * 1024 * 1024);
    assert_eq!(config.upload_dir, "uploads");
}

#[test]
fn config_keeps_defaults_for_bad_values() {
    let config = AppConfig::default().with_env_values(
        Some("70000"),
        Some("loud"),
        Some("-5"),
        Some("/tmp/up".to_string()),
    );
    assert_eq!(config.port, 8080);
    assert_eq!(config.log_level, LogLevel::Info);
    assert_eq!(config.max_file_size, 10 * 1024 * 1024);
    assert_eq!(config.upload_dir, "/tmp/up");
    let sized = AppConfig::default().with_env_values(None, Some("WARN"), Some("+2048"), None);
    assert_eq!(sized.max_file_size, 2048);
    assert_eq!(sized.log_level, LogLevel::Warn);
}

#[test]
fn log_level_names_in_any_case() {
    assert_eq!(parse_log_level("TRACE"), Some(LogLevel::Trace));
    assert_eq!(parse_log_level("Error"), Some(LogLevel::Error));
    assert_eq!(parse_log_level("info"), Some(LogLevel::Info));
    assert_eq!(parse_log_level("verbose"), None);
}
