use drift::coord::auth::status_of;
use drift::auth::aggregator::AggregationError;
use drift::auth::messages::{AuthMessage, SignedAuthMessage};
use drift::coord::auth::{broadcast_failure, poll_interval_ms, CollectionStatus, CoordinatorAuth, CoordinatorAuthError};
use std::time::Duration;

#[test]
fn auth_test_coordinator_auth_new() {
    let auth = CoordinatorAuth::new(true, 2);
    assert_eq!(auth.registered_node_count(), 0);
    assert!(auth.is_auth_enabled());
    assert_eq!(auth.get_threshold(), 2);
    assert!(!auth.has_aggregator());
}

#[test]
fn auth_test_coordinator_auth_disabled() {
    let auth = CoordinatorAuth::new(false, 2);
    assert!(!auth.is_auth_enabled());
}

#[test]
fn test_coordinator_auth_register_node() {
    let mut auth = CoordinatorAuth::new(true, 2);
    auth.register_node("node1".to_string());
    assert_eq!(auth.registered_node_count(), 1);
    assert!(auth.expected_nodes().contains(&"node1".to_string()));
}

#[test]
fn test_coordinator_auth_register_multiple_nodes() {
    let mut auth = CoordinatorAuth::new(true, 3);
    auth.register_node("node1".to_string());
    auth.register_node("node2".to_string());
    auth.register_node("node3".to_string());
    assert_eq!(auth.registered_node_count(), 3);
    assert_eq!(auth.get_threshold(), 3);
}

#[test]
fn test_coordinator_auth_collect_signatures_disabled() {
    let mut auth = CoordinatorAuth::new(false, 2);
    let result = auth.begin_collection(vec![], Duration::from_secs(30));
    assert!(matches!(result, Err(CoordinatorAuthError::AuthDisabled)));
}

#[test]
fn test_coordinator_auth_collect_signatures_no_nodes() {
    let mut auth = CoordinatorAuth::new(true, 2);
    let result = auth.begin_collection(vec![], Duration::from_secs(30));
    assert!(matches!(result, Err(CoordinatorAuthError::NoNodesRegistered)));
}

#[test]
fn test_coordinator_auth_log_status_disabled() {
    let auth = CoordinatorAuth::new(false, 2);
    assert!(auth.log_status_string().contains("disabled"));
    assert_eq!(auth.log_status_string(), "Auth status: disabled");
}

#[test]
fn test_coordinator_auth_log_status_no_aggregator() {
    let mut auth = CoordinatorAuth::new(true, 2);
    auth.register_node("node1".to_string());
    let status = auth.log_status_string();
    assert!(status.contains("1 nodes registered"));
    assert!(status.contains("threshold 2"));
}

#[test]
fn test_coordinator_auth_log_status_missing_nodes() {
    let mut auth = CoordinatorAuth::new(true, 2);
    auth.register_node("n0".to_string());
    auth.register_node("n1".to_string());
    auth.register_node("n2".to_string());
    let kp = rand::random::<[u8; 32]>();
    let msg = AuthMessage::with_values("coordinator", "abc123", 1000u64, 42u64, 1u64);
    let signed = SignedAuthMessage::sign(&msg, &kp).unwrap();
    auth.begin_collection(vec!["n0".to_string(), "n1".to_string(), "n2".to_string()], Duration::from_secs(30)).unwrap();
    auth.get_aggregator_mut().unwrap().add_signature("n0", signed).unwrap();
    let status = auth.log_status_string();
    assert!(status.contains("1/3 signatures"));
    assert!(status.contains("Missing"));
    assert_eq!(status, "Auth status: 1/3 signatures collected, need 2\n  Missing from: [\"n1\", \"n2\"]");
}

#[test]
fn test_coordinator_auth_rotate_keys_not_implemented() {
    let mut auth = CoordinatorAuth::new(true, 2);
    let result = auth.rotate_coordinator_keys();
    assert!(result.is_err());
    assert_eq!(result.unwrap_err(), "coordinator key rotation not yet implemented");
}

#[test]
fn test_coordinator_auth_multiple_registrations_same_node() {
    let mut auth = CoordinatorAuth::new(true, 2);
    auth.register_node("node1".to_string());
    auth.register_node("node1".to_string());
    assert_eq!(auth.registered_node_count(), 1);
}

#[test]
fn test_coordinator_auth_expected_nodes() {
    let mut auth = CoordinatorAuth::new(true, 3);
    auth.register_node("node1".to_string());
    auth.register_node("node2".to_string());
    let expected = auth.expected_nodes();
    assert_eq!(expected.len(), 2);
    assert!(expected.contains(&"node1".to_string()));
    assert!(expected.contains(&"node2".to_string()));
}

#[test]
fn test_coordinator_auth_broadcast_disabled() {
    let auth = CoordinatorAuth::new(false, 2);
    assert!(matches!(auth.broadcast_targets(), Err(CoordinatorAuthError::AuthDisabled)));
}

#[test]
fn test_coordinator_auth_broadcast_no_nodes() {
    let auth = CoordinatorAuth::new(true, 2);
    assert!(matches!(auth.broadcast_targets(), Err(CoordinatorAuthError::NoNodesRegistered)));
}

#[test]
fn test_coordinator_auth_broadcast_success() {
    let mut auth = CoordinatorAuth::new(true, 2);
    auth.register_node("node1".to_string());
    auth.register_node("node2".to_string());
    let targets = auth.broadcast_targets().unwrap();
    assert_eq!(targets, vec!["node1".to_string(), "node2".to_string()]);
}

#[test]
fn collection_runs_to_an_aggregate() {
    let mut auth = CoordinatorAuth::new(true, 2);
    for n in ["n0", "n1", "n2"] {
        auth.register_node(n.to_string());
    }
    assert_eq!(auth.collection_status(), CollectionStatus::NotStarted);
    assert!(matches!(auth.finish_collection(), Err(CoordinatorAuthError::NoNodesRegistered)));
    auth.begin_collection(vec![], Duration::from_secs(30)).unwrap();
    assert_eq!(auth.collection_status(), CollectionStatus::Waiting);
    let msg = AuthMessage::with_values("coordinator", "abc123", 1000u64, 42u64, 1u64);
    assert!(matches!(
        auth.finish_collection(),
        Err(CoordinatorAuthError::AggregationFailed(AggregationError::ThresholdNotReached(0, 2)))
    ));
    for n in ["n0", "n1"] {
        let signed = SignedAuthMessage::sign(&msg, &rand::random::<[u8; 32]>()).unwrap();
        auth.get_aggregator_mut().unwrap().add_signature(n, signed).unwrap();
    }
    assert_eq!(auth.collection_status(), CollectionStatus::Ready);
    let agg = auth.finish_collection().unwrap();
    assert_eq!(agg.threshold, 2);
    assert_eq!(agg.total_nodes, 3);
    assert_eq!(agg.node_ids.len(), 2);
}

#[test]
fn collection_with_short_timeout_times_out() {
    let mut auth = CoordinatorAuth::new(true, 2);
    auth.register_node("node1".to_string());
    auth.begin_collection(vec!["node1".to_string(), "node2".to_string()], Duration::from_nanos(0)).unwrap();
    let mut status = auth.collection_status();
    let mut rounds = 0;
    while status != CollectionStatus::TimedOut && rounds < 1000000 {
        status = auth.collection_status();
        rounds += 1;
    }
    assert_eq!(status, CollectionStatus::TimedOut);
}

#[test]
fn error_texts() {
    assert_eq!(CoordinatorAuthError::Timeout.message(), "timeout waiting for signatures");
    assert_eq!(CoordinatorAuthError::AuthDisabled.message(), "auth disabled in train config");
    assert_eq!(CoordinatorAuthError::NoNodesRegistered.message(), "no nodes registered");
    assert_eq!(broadcast_failure("n7").message(), "broadcast failed: failed to send to node n7");
    assert_eq!(
        CoordinatorAuthError::from(AggregationError::ThresholdNotReached(1, 2)).message(),
        "aggregation failed: threshold not reached: 1/2"
    );
}

#[test]
fn polling_interval() {
    assert_eq!(poll_interval_ms(0), 10);
    assert_eq!(poll_interval_ms(9), 10);
    assert_eq!(poll_interval_ms(10), 100);
}

#[test]
fn round_status_puts_timeout_first() {
    assert_eq!(status_of(false, true, true), CollectionStatus::NotStarted);
    assert_eq!(status_of(true, true, true), CollectionStatus::TimedOut);
    assert_eq!(status_of(true, false, true), CollectionStatus::Ready);
    assert_eq!(status_of(true, false, false), CollectionStatus::Waiting);
}
