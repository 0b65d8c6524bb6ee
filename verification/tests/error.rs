use tx_tracker::error::{ConfigError, TrackerError};

#[test]
fn configuration_and_connection_errors_are_fatal() {
    assert!(TrackerError::Configuration(ConfigError::Missing).is_fatal());
    assert!(TrackerError::Configuration(ConfigError::Malformed("zz".to_string())).is_fatal());
    assert!(TrackerError::Connection("refused".to_string()).is_fatal());
}

#[test]
fn resolution_errors_are_recoverable() {
    assert!(!TrackerError::Resolution("timed out".to_string()).is_fatal());
}
