use self_evolving_agent::logger::{LogLevel, Logger};

#[test]
fn test_log_levels() {
    assert!(LogLevel::Error as u8 <= LogLevel::Warning as u8);
    assert!(LogLevel::Warning as u8 <= LogLevel::Info as u8);
    assert!(LogLevel::Info as u8 <= LogLevel::Debug as u8);
}

#[test]
fn logger_filter_follows_rank() {
    let logger = Logger::for_date("/tmp/logs".to_string(), LogLevel::Info, "2024-01-02");
    assert!(logger.accepts(LogLevel::Error));
    assert!(logger.accepts(LogLevel::Info));
    assert!(!logger.accepts(LogLevel::Debug));
    assert_eq!(logger.current_file(), "/tmp/logs/2024-01-02.log");
}

#[test]
fn logger_levels_from_config() {
    assert_eq!(LogLevel::from_config("error"), LogLevel::Error);
    assert_eq!(LogLevel::from_config("warning"), LogLevel::Warning);
    assert_eq!(LogLevel::from_config("debug"), LogLevel::Debug);
    assert_eq!(LogLevel::from_config("loud"), LogLevel::Info);
    assert_eq!(LogLevel::Warning.label(), "WARN");
}

#[test]
fn logger_rotation_and_level_change() {
    let mut logger = Logger::for_date("/tmp/logs/".to_string(), LogLevel::Error, "2024-01-02");
    logger.rotate_to("2024-01-03");
    assert_eq!(logger.current_file(), "/tmp/logs/2024-01-03.log");
    logger.set_level(LogLevel::Debug);
    assert!(logger.accepts(LogLevel::Debug));
}
