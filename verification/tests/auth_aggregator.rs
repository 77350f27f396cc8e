use drift::auth::aggregator::exceeds_timeout;
use drift::auth::aggregator::{AggregationError, Aggregator};
use drift::auth::messages::{AuthMessage, SignedAuthMessage};
use std::time::Duration;

fn secret() -> [u8; 32] {
    rand::random::<[u8; 32]>()
}

fn create_signed_message(msg: &AuthMessage, keypair: &[u8; 32]) -> SignedAuthMessage {
    SignedAuthMessage::sign(msg, keypair).unwrap()
}

fn names(n: usize) -> Vec<String> {
    (0..n).map(|i| format!("n{}", i)).collect()
}

#[test]
fn test_aggregator_new() {
    let nodes = vec!["node1".to_string(), "node2".to_string(), "node3".to_string()];
    let agg = Aggregator::new(nodes, 2, Duration::from_secs(30));
    assert_eq!(agg.threshold(), 2);
    assert_eq!(agg.total_nodes(), 3);
    assert_eq!(agg.collected_count(), 0);
    assert!(!agg.is_timed_out());
}

#[test]
fn test_aggregator_add_signature() {
    let kp = secret();
    let msg = AuthMessage::with_values("node1", "abc123", 1000u64, 42u64, 1u64);
    let mut agg = Aggregator::new(vec!["node1".to_string()], 1, Duration::from_secs(30));
    let result = agg.add_signature("node1", create_signed_message(&msg, &kp));
    assert!(result.is_ok());
    assert_eq!(agg.collected_count(), 1);
}

#[test]
fn test_aggregator_duplicate_signature() {
    let kp = secret();
    let msg = AuthMessage::with_values("node1", "abc123", 1000u64, 42u64, 1u64);
    let mut agg = Aggregator::new(vec!["node1".to_string(), "node2".to_string()], 2, Duration::from_secs(30));
    agg.add_signature("node1", create_signed_message(&msg, &kp)).unwrap();
    let result = agg.add_signature("node1", create_signed_message(&msg, &kp));
    assert!(matches!(result, Err(AggregationError::DuplicateSignature(_))));
}

#[test]
fn test_aggregator_unexpected_node() {
    let kp = secret();
    let msg = AuthMessage::with_values("node1", "abc123", 1000u64, 42u64, 1u64);
    let mut agg = Aggregator::new(vec!["node1".to_string()], 1, Duration::from_secs(30));
    let result = agg.add_signature("node2", create_signed_message(&msg, &kp));
    assert!(matches!(result, Err(AggregationError::MessageMismatch(_))));
}

#[test]
fn test_aggregator_mismatched_messages() {
    let msg1 = AuthMessage::with_values("node1", "abc123", 1000u64, 42u64, 1u64);
    let msg2 = AuthMessage::with_values("node2", "def456", 1000u64, 42u64, 1u64);
    let mut agg = Aggregator::new(vec!["node1".to_string(), "node2".to_string()], 2, Duration::from_secs(30));
    agg.add_signature("node1", create_signed_message(&msg1, &secret())).unwrap();
    let result = agg.add_signature("node2", create_signed_message(&msg2, &secret()));
    assert!(matches!(result, Err(AggregationError::MessageMismatch(_))));
}

#[test]
fn test_aggregator_threshold() {
    let msg = AuthMessage::with_values("coordinator", "abc123", 1000u64, 42u64, 1u64);
    let mut agg = Aggregator::new(names(5), 3, Duration::from_secs(30));
    assert!(!agg.has_threshold());
    for i in 0..3 {
        agg.add_signature(&format!("n{}", i), create_signed_message(&msg, &secret())).unwrap();
    }
    assert!(agg.has_threshold());
}

#[test]
fn test_aggregator_create_aggregate_success() {
    let msg = AuthMessage::with_values("coordinator", "abc123", 1000u64, 42u64, 1u64);
    let mut agg = Aggregator::new(names(5), 3, Duration::from_secs(30));
    for i in 0..3 {
        agg.add_signature(&format!("n{}", i), create_signed_message(&msg, &secret())).unwrap();
    }
    let aggregate = agg.create_aggregate();
    assert!(aggregate.is_ok());
    let aggregate = aggregate.unwrap();
    assert_eq!(aggregate.threshold, 3);
    assert_eq!(aggregate.total_nodes, 5);
}

#[test]
fn test_aggregator_create_aggregate_insufficient() {
    let msg = AuthMessage::with_values("coordinator", "abc123", 1000u64, 42u64, 1u64);
    let mut agg = Aggregator::new(names(5), 3, Duration::from_secs(30));
    agg.add_signature("n0", create_signed_message(&msg, &secret())).unwrap();
    let result = agg.create_aggregate();
    assert!(matches!(result, Err(AggregationError::ThresholdNotReached(1, 3))));
}

#[test]
fn test_aggregator_missing_nodes() {
    let msg = AuthMessage::with_values("coordinator", "abc123", 1000u64, 42u64, 1u64);
    let mut agg = Aggregator::new(names(3), 2, Duration::from_secs(30));
    let mut missing = agg.missing_nodes();
    missing.sort();
    assert_eq!(missing, vec!["n0".to_string(), "n1".to_string(), "n2".to_string()]);
    agg.add_signature("n0", create_signed_message(&msg, &secret())).unwrap();
    missing = agg.missing_nodes();
    missing.sort();
    assert_eq!(missing, vec!["n1".to_string(), "n2".to_string()]);
}

#[test]
fn test_aggregator_missing_nodes_empty() {
    let kp = secret();
    let msg = AuthMessage::with_values("coordinator", "abc123", 1000u64, 42u64, 1u64);
    let mut agg = Aggregator::new(names(2), 2, Duration::from_secs(30));
    agg.add_signature("n0", create_signed_message(&msg, &kp)).unwrap();
    agg.add_signature("n1", create_signed_message(&msg, &kp)).unwrap();
    assert!(agg.missing_nodes().is_empty());
}

#[test]
fn test_aggregator_threshold_3_of_5() {
    let msg = AuthMessage::with_values("coordinator", "abc123", 1000u64, 42u64, 1u64);
    let mut agg = Aggregator::new(names(5), 3, Duration::from_secs(30));
    for i in 0..5 {
        agg.add_signature(&format!("n{}", i), create_signed_message(&msg, &secret())).unwrap();
    }
    assert!(agg.has_threshold());
    assert_eq!(agg.collected_count(), 5);
    let aggregate = agg.create_aggregate().unwrap();
    assert_eq!(aggregate.threshold, 3);
    assert_eq!(aggregate.total_nodes, 5);
    assert_eq!(aggregate.node_ids.len(), 5);
}

#[test]
fn test_aggregator_threshold_2_of_3() {
    let msg = AuthMessage::with_values("coordinator", "abc123", 1000u64, 42u64, 1u64);
    let mut agg = Aggregator::new(names(3), 2, Duration::from_secs(30));
    for i in 0..2 {
        agg.add_signature(&format!("n{}", i), create_signed_message(&msg, &secret())).unwrap();
    }
    assert!(agg.has_threshold());
    assert_eq!(agg.collected_count(), 2);
}

#[test]
fn test_aggregator_empty_expected_nodes() {
    let agg = Aggregator::new(vec![], 0, Duration::from_secs(30));
    assert_eq!(agg.threshold(), 0);
    assert_eq!(agg.total_nodes(), 0);
    assert!(agg.missing_nodes().is_empty());
}

#[test]
fn test_aggregator_collected_count() {
    let kp = secret();
    let msg = AuthMessage::with_values("coordinator", "abc123", 1000u64, 42u64, 1u64);
    let mut agg = Aggregator::new(names(3), 2, Duration::from_secs(30));
    assert_eq!(agg.collected_count(), 0);
    agg.add_signature("n0", create_signed_message(&msg, &kp)).unwrap();
    assert_eq!(agg.collected_count(), 1);
    agg.add_signature("n1", create_signed_message(&msg, &kp)).unwrap();
    assert_eq!(agg.collected_count(), 2);
}

#[test]
fn collected_and_missing_add_up() {
    let msg = AuthMessage::with_values("coordinator", "abc123", 1000u64, 42u64, 1u64);
    let mut agg = Aggregator::new(names(5), 3, Duration::from_secs(30));
    for i in 0..2 {
        agg.add_signature(&format!("n{}", i), create_signed_message(&msg, &secret())).unwrap();
        assert_eq!(agg.collected_count() + agg.missing_nodes().len(), 5);
    }
}

#[test]
fn reset_clears_signatures_and_renews_round() {
    let msg = AuthMessage::with_values("coordinator", "abc123", 1000u64, 42u64, 1u64);
    let mut agg = Aggregator::new(names(2), 1, Duration::from_secs(30));
    let before = agg.round_id();
    agg.add_signature("n0", create_signed_message(&msg, &secret())).unwrap();
    agg.reset();
    assert_eq!(agg.collected_count(), 0);
    assert_eq!(agg.missing_nodes().len(), 2);
    assert_ne!(agg.round_id(), before);
}

#[test]
fn aggregation_error_texts() {
    assert_eq!(AggregationError::Timeout.message(), "timeout waiting for signatures");
    assert_eq!(AggregationError::ThresholdNotReached(1, 3).message(), "threshold not reached: 1/3");
    assert_eq!(AggregationError::DuplicateSignature("n0".to_string()).message(), "duplicate signature from node n0");
    assert_eq!(AggregationError::MessageMismatch("m".to_string()).message(), "message mismatch: m");
}

#[test]
fn timeout_comparison() {
    assert!(exceeds_timeout(&Duration::from_millis(31), &Duration::from_millis(30)));
    assert!(!exceeds_timeout(&Duration::from_millis(30), &Duration::from_millis(30)));
    assert!(!exceeds_timeout(&Duration::from_secs(1), &Duration::from_secs(2)));
    assert!(exceeds_timeout(&Duration::new(1, 1), &Duration::from_secs(1)));
}

#[test]
fn zero_timeout_round_times_out() {
    let agg = Aggregator::new(vec!["n0".to_string()], 1, Duration::from_secs(0));
    while agg.elapsed().as_nanos() == 0 {}
    assert!(agg.is_timed_out());
}
