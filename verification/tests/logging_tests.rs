use device_faker::logging::{LogLevel, LogState, configure_log_level, init_file_logging_if_needed,
    log_level_for};

#[test]
fn level_follows_debug_flag() {
    assert!(matches!(log_level_for(true), LogLevel::Info));
    assert!(matches!(log_level_for(false), LogLevel::ErrorOnly));
}

#[test]
fn configure_applies_the_level_to_the_platform_logger() {
    configure_log_level(true);
    assert_eq!(log::max_level(), log::LevelFilter::Info);
    configure_log_level(false);
    assert_eq!(log::max_level(), log::LevelFilter::Error);
}

#[test]
fn file_logging_is_set_up_exactly_once() {
    let mut log_state = LogState::new();
    assert!(init_file_logging_if_needed(&mut log_state));
    assert!(!init_file_logging_if_needed(&mut log_state));
    assert!(!init_file_logging_if_needed(&mut log_state));
}
