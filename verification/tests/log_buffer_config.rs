use catpane::log_buffer_config::{
    initial_log_backlog, log_buffer_capacity, parse_positive_usize, DEFAULT_INITIAL_LOG_BACKLOG,
    DEFAULT_LOG_BUFFER_CAPACITY,
};

#[test]
fn default_capacity_is_positive() {
    assert!(DEFAULT_LOG_BUFFER_CAPACITY > 0);
    assert!(log_buffer_capacity(None) > 0);
}

#[test]
fn default_initial_backlog_is_positive() {
    assert!(DEFAULT_INITIAL_LOG_BACKLOG > 0);
    assert!(initial_log_backlog(None, log_buffer_capacity(None)) > 0);
}

#[test]
fn default_initial_backlog_does_not_exceed_capacity() {
    assert!(DEFAULT_INITIAL_LOG_BACKLOG <= DEFAULT_LOG_BUFFER_CAPACITY);
    let capacity = log_buffer_capacity(None);
    assert!(initial_log_backlog(None, capacity) <= capacity);
}

#[test]
fn configured_values_are_read_and_bounded() {
    assert_eq!(parse_positive_usize(" 42 "), Some(42));
    assert_eq!(parse_positive_usize("0"), None);
    assert_eq!(parse_positive_usize("lots"), None);
    assert_eq!(log_buffer_capacity(Some("1234")), 1234);
    assert_eq!(log_buffer_capacity(Some("nope")), DEFAULT_LOG_BUFFER_CAPACITY);
    assert_eq!(initial_log_backlog(Some("5000"), 100), 100);
    assert_eq!(initial_log_backlog(Some("50"), 100), 50);
}
