use quant_trading_system::logging::{log_level_setting, tracing_setting, LogLevel};

#[test]
fn test_log_level_parsing_debug() {
    assert_eq!(log_level_setting(Some("DEBUG")), LogLevel::Debug);
}

#[test]
fn test_log_level_parsing_info() {
    assert_eq!(log_level_setting(Some("INFO")), LogLevel::Info);
}

#[test]
fn test_log_level_parsing_warn() {
    assert_eq!(log_level_setting(Some("WARN")), LogLevel::Warn);
}

#[test]
fn test_log_level_parsing_error() {
    assert_eq!(log_level_setting(Some("ERROR")), LogLevel::Error);
}

#[test]
fn test_log_level_parsing_trace() {
    assert_eq!(log_level_setting(Some("TRACE")), LogLevel::Trace);
}

#[test]
fn test_log_level_parsing_invalid_defaults_to_info() {
    assert_eq!(log_level_setting(Some("INVALID")), LogLevel::Info);
}

#[test]
fn test_log_level_case_insensitive() {
    assert_eq!(log_level_setting(Some("debug")), LogLevel::Debug);
}

#[test]
fn test_default_log_level_when_env_not_set() {
    assert_eq!(log_level_setting(None), LogLevel::Info);
}

#[test]
fn test_enable_tracing_true() {
    assert!(tracing_setting(Some("true")));
}

#[test]
fn test_enable_tracing_false() {
    assert!(!tracing_setting(Some("false")));
}

#[test]
fn test_enable_tracing_default_false() {
    assert!(!tracing_setting(None));
}

#[test]
fn test_enable_tracing_case_sensitive() {
    assert!(!tracing_setting(Some("TRUE")));
}

#[test]
fn level_names() {
    assert_eq!(LogLevel::Warn.name(), "WARN");
    assert_eq!(log_level_setting(Some("wArN")).name(), "WARN");
}
