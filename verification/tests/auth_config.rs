use drift::auth::config::{AuthConfig, AuthError, AuthMetrics, ConfigError, SignatureError, TimeoutError};
use std::time::Duration;

#[test]
fn test_auth_config_default() {
    let config = AuthConfig::default();
    assert!(!config.enabled);
    assert_eq!(config.threshold, 3);
    assert_eq!(config.max_message_age_secs, 300);
    assert!(config.identity_path.is_none());
    assert_eq!(config.key_rotation_interval_secs, 0);
}

#[test]
fn test_auth_config_validate_threshold_zero() {
    let config = AuthConfig { enabled: true, threshold: 0, max_message_age_secs: 300, identity_path: None, key_rotation_interval_secs: 0 };
    let result = config.validate();
    assert!(result.is_err());
}

#[test]
fn test_auth_config_validate_threshold_positive() {
    let config = AuthConfig { enabled: true, threshold: 3, max_message_age_secs: 300, identity_path: None, key_rotation_interval_secs: 0 };
    let result = config.validate();
    assert!(result.is_ok());
}

#[test]
fn test_config_error_display() {
    let err = ConfigError::Io("file not found: some path".to_string());
    let display = err.message();
    assert!(display.contains("configuration file error"));
    assert!(display.contains("file not found"));
}

#[test]
fn test_auth_error_display() {
    let err = AuthError::AuthFailed("invalid signature".to_string());
    let display = err.message();
    assert!(display.contains("authentication failed"));
    assert!(display.contains("invalid signature"));
}

#[test]
fn test_signature_error_display() {
    let err = SignatureError::VerificationFailed;
    let display = err.message();
    assert!(display.contains("signature verification failed"));
}

#[test]
fn test_timeout_error_display() {
    let err = TimeoutError::TimedOut(30);
    let display = err.message();
    assert!(display.contains("timed out"));
    assert!(display.contains("30 seconds"));
}

#[test]
fn test_timeout_error_missing_signatures() {
    let err = TimeoutError::MissingSignatures(2);
    let display = err.message();
    assert!(display.contains("missing 2 signatures"));
}

#[test]
fn test_auth_metrics_new() {
    let metrics = AuthMetrics::new();
    assert_eq!(metrics.nodes_authenticated(), 0);
    assert_eq!(metrics.consensus_time_ms(), 0);
}

#[test]
fn test_auth_metrics_increment() {
    let mut metrics = AuthMetrics::new();
    metrics.increment_authenticated();
    metrics.increment_authenticated();
    assert_eq!(metrics.nodes_authenticated(), 2);
}

#[test]
fn test_auth_metrics_record_time() {
    let mut metrics = AuthMetrics::new();
    metrics.record_consensus_time(Duration::from_millis(150));
    assert_eq!(metrics.consensus_time_ms(), 150);
}

#[test]
fn config_validation_error_text() {
    let config = AuthConfig { enabled: true, threshold: 0, max_message_age_secs: 300, identity_path: None, key_rotation_interval_secs: 0 };
    match config.validate() {
        Err(e) => assert_eq!(e.message(), "configuration validation error: threshold must be >= 1"),
        Ok(()) => panic!("threshold 0 must be refused"),
    }
}

#[test]
fn error_texts_exact() {
    assert_eq!(ConfigError::Parse("bad".to_string()).message(), "configuration parse error: bad");
    assert_eq!(SignatureError::InvalidFormat.message(), "invalid signature format");
    assert_eq!(SignatureError::AggregationFailed("x".to_string()).message(), "signature aggregation failed: x");
    assert_eq!(TimeoutError::TimedOut(7).message(), "operation timed out after 7 seconds");
    assert_eq!(TimeoutError::MissingSignatures(0).message(), "coordinator timeout: missing 0 signatures");
    assert_eq!(AuthError::Signature(SignatureError::VerificationFailed).message(), "signature error: signature verification failed");
    assert_eq!(AuthError::Timeout(TimeoutError::TimedOut(5)).message(), "timeout: operation timed out after 5 seconds");
    assert_eq!(AuthError::from(SignatureError::InvalidFormat).message(), "signature error: invalid signature format");
}

#[test]
fn metrics_record_time_truncates_to_millis() {
    let mut metrics = AuthMetrics::new();
    metrics.record_consensus_time(Duration::from_micros(2999));
    assert_eq!(metrics.consensus_time_ms(), 2);
    metrics.record_consensus_time_ms(u128::from(u64::MAX) + 5);
    assert_eq!(metrics.consensus_time_ms(), 4);
}

#[test]
fn metrics_counter_wraps() {
    let mut metrics = AuthMetrics::new();
    metrics.nodes_authenticated = usize::MAX;
    metrics.increment_authenticated();
    assert_eq!(metrics.nodes_authenticated(), 0);
}
