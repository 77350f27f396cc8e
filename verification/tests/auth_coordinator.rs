use drift::auth::aggregator::{AggregationError, Aggregator};
use drift::auth::coordinator::{BroadcastError, CoordinatorAuth, CoordinatorStatus};
use drift::auth::messages::{AggregateAuthMessage, AuthMessage, SignedAuthMessage};
use std::time::Duration;

fn setup_nodes_auth(count: usize, threshold: usize) -> (CoordinatorAuth, Vec<[u8; 32]>, Vec<String>) {
    let node_ids: Vec<String> = (0..count).map(|i| format!("node_{}", i)).collect();
    let keypairs: Vec<[u8; 32]> = (0..count).map(|_| rand::random::<[u8; 32]>()).collect();
    let auth = CoordinatorAuth::new(node_ids.clone(), true, threshold);
    (auth, keypairs, node_ids)
}

fn signed(msg: &AuthMessage, kp: &[u8; 32]) -> SignedAuthMessage {
    SignedAuthMessage::sign(msg, kp).unwrap()
}

#[test]
fn coordinator_test_coordinator_auth_new() {
    let node_ids = vec!["n0".to_string(), "n1".to_string(), "n2".to_string()];
    let auth = CoordinatorAuth::new(node_ids, true, 2);
    assert_eq!(auth.node_ids.len(), 3);
    assert_eq!(auth.threshold, 2);
    assert!(auth.enable_auth);
    assert!(auth.aggregator.is_none());
}

#[test]
fn coordinator_test_coordinator_auth_disabled() {
    let auth = CoordinatorAuth::new(vec!["n0".to_string(), "n1".to_string()], false, 2);
    assert!(!auth.is_auth_enabled());
}

#[test]
fn test_coordinator_auth_start_collection() {
    let (mut auth, _, _) = setup_nodes_auth(3, 2);
    auth.start_collection(Duration::from_secs(30)).unwrap();
    assert!(auth.aggregator.is_some());
    let agg = auth.get_aggregator().unwrap();
    assert_eq!(agg.total_nodes(), 3);
    assert_eq!(agg.threshold(), 2);
}

#[test]
fn test_coordinator_auth_start_collection_disabled() {
    let mut auth = CoordinatorAuth::new(vec!["n0".to_string()], false, 1);
    let result = auth.start_collection(Duration::from_secs(30));
    assert!(result.is_ok());
    assert!(auth.aggregator.is_none());
}

#[test]
fn test_coordinator_auth_add_signatures() {
    let (mut auth, keypairs, node_ids) = setup_nodes_auth(5, 3);
    auth.start_collection(Duration::from_secs(30)).unwrap();
    let msg = AuthMessage::with_values("coordinator", "abc123", 1000u64, 42u64, 1u64);
    let agg = auth.get_aggregator_mut().unwrap();
    for i in 0..3 {
        agg.add_signature(&node_ids[i], signed(&msg, &keypairs[i])).unwrap();
    }
    assert!(agg.has_threshold());
    assert_eq!(agg.collected_count(), 3);
}

#[test]
fn test_coordinator_auth_create_aggregate() {
    let (mut auth, keypairs, node_ids) = setup_nodes_auth(5, 3);
    auth.start_collection(Duration::from_secs(30)).unwrap();
    let msg = AuthMessage::with_values("coordinator", "abc123", 1000u64, 42u64, 1u64);
    let agg = auth.get_aggregator_mut().unwrap();
    for i in 0..3 {
        agg.add_signature(&node_ids[i], signed(&msg, &keypairs[i])).unwrap();
    }
    let aggregate = agg.create_aggregate();
    assert!(aggregate.is_ok());
    let aggregate = aggregate.unwrap();
    assert_eq!(aggregate.threshold, 3);
    assert_eq!(aggregate.total_nodes, 5);
}

#[test]
fn test_coordinator_auth_create_aggregate_insufficient() {
    let (mut auth, keypairs, node_ids) = setup_nodes_auth(5, 3);
    auth.start_collection(Duration::from_secs(30)).unwrap();
    let msg = AuthMessage::with_values("coordinator", "abc123", 1000u64, 42u64, 1u64);
    let agg = auth.get_aggregator_mut().unwrap();
    agg.add_signature(&node_ids[0], signed(&msg, &keypairs[0])).unwrap();
    let result = agg.create_aggregate();
    assert!(matches!(result, Err(AggregationError::ThresholdNotReached(1, 3))));
}

#[test]
fn test_coordinator_auth_status_summary() {
    let (mut auth, keypairs, node_ids) = setup_nodes_auth(5, 3);
    assert!(matches!(auth.status_summary(), CoordinatorStatus::NotStarted));
    auth.start_collection(Duration::from_secs(30)).unwrap();
    let msg = AuthMessage::with_values("coordinator", "abc123", 1000u64, 42u64, 1u64);
    let agg = auth.get_aggregator_mut().unwrap();
    for i in 0..2 {
        agg.add_signature(&node_ids[i], signed(&msg, &keypairs[i])).unwrap();
    }
    match auth.status_summary() {
        CoordinatorStatus::Collecting { collected, total, threshold, missing_count, is_complete, is_timed_out } => {
            assert_eq!(collected, 2);
            assert_eq!(total, 5);
            assert_eq!(threshold, 3);
            assert_eq!(missing_count, 3);
            assert!(!is_complete);
            assert!(!is_timed_out);
        }
        _ => panic!("expected Collecting status"),
    }
}

#[test]
fn test_coordinator_auth_status_complete() {
    let (mut auth, keypairs, node_ids) = setup_nodes_auth(3, 2);
    auth.start_collection(Duration::from_secs(30)).unwrap();
    let msg = AuthMessage::with_values("coordinator", "abc123", 1000u64, 42u64, 1u64);
    let agg = auth.get_aggregator_mut().unwrap();
    for i in 0..2 {
        agg.add_signature(&node_ids[i], signed(&msg, &keypairs[i])).unwrap();
    }
    match auth.status_summary() {
        CoordinatorStatus::Collecting { is_complete, .. } => assert!(is_complete),
        _ => panic!("expected Collecting status"),
    }
}

#[test]
fn test_coordinator_auth_reset() {
    let (mut auth, _, _) = setup_nodes_auth(3, 2);
    auth.start_collection(Duration::from_secs(30)).unwrap();
    assert!(auth.aggregator.is_some());
    auth.reset();
    assert!(auth.aggregator.is_none());
}

#[test]
fn test_coordinator_auth_with_aggregator() {
    let node_ids = vec!["n0".to_string(), "n1".to_string()];
    let msg = AuthMessage::with_values("coordinator", "abc123", 1000u64, 42u64, 1u64);
    let mut aggregator = Aggregator::new(node_ids.clone(), 1, Duration::from_secs(30));
    aggregator.add_signature("n0", signed(&msg, &rand::random::<[u8; 32]>())).unwrap();
    let mut auth = CoordinatorAuth::new(node_ids, true, 1);
    auth = auth.with_aggregator(aggregator);
    assert!(auth.get_aggregator().is_some());
    assert_eq!(auth.get_aggregator().unwrap().collected_count(), 1);
}

#[test]
fn test_coordinator_auth_get_threshold() {
    let auth = CoordinatorAuth::new(vec!["n0".to_string()], true, 3);
    assert_eq!(auth.get_threshold(), 3);
}

#[test]
fn test_coordinator_auth_get_node_ids() {
    let auth = CoordinatorAuth::new(vec!["a".to_string(), "b".to_string()], true, 2);
    let ids = auth.get_node_ids();
    assert_eq!(ids.len(), 2);
    assert_eq!(ids[0], "a");
    assert_eq!(ids[1], "b");
}

#[test]
fn test_coordinator_auth_threshold_3_of_5() {
    let (mut auth, keypairs, node_ids) = setup_nodes_auth(5, 3);
    auth.start_collection(Duration::from_secs(30)).unwrap();
    let msg = AuthMessage::with_values("coordinator", "abc123", 1000u64, 42u64, 1u64);
    let agg = auth.get_aggregator_mut().unwrap();
    for i in 0..5 {
        agg.add_signature(&node_ids[i], signed(&msg, &keypairs[i])).unwrap();
    }
    assert!(agg.has_threshold());
    assert_eq!(agg.collected_count(), 5);
    assert_eq!(agg.threshold(), 3);
    let aggregate = agg.create_aggregate().unwrap();
    assert_eq!(aggregate.threshold, 3);
    assert_eq!(aggregate.total_nodes, 5);
}

#[test]
fn test_coordinator_auth_threshold_2_of_3() {
    let (mut auth, keypairs, node_ids) = setup_nodes_auth(3, 2);
    auth.start_collection(Duration::from_secs(30)).unwrap();
    let msg = AuthMessage::with_values("coordinator", "abc123", 1000u64, 42u64, 1u64);
    let agg = auth.get_aggregator_mut().unwrap();
    for i in 0..2 {
        agg.add_signature(&node_ids[i], signed(&msg, &keypairs[i])).unwrap();
    }
    assert!(agg.has_threshold());
    assert_eq!(agg.collected_count(), 2);
    let aggregate = agg.create_aggregate().unwrap();
    assert_eq!(aggregate.threshold, 2);
    assert_eq!(aggregate.total_nodes, 3);
}

#[test]
fn test_coordinator_auth_empty_node_ids() {
    let auth = CoordinatorAuth::new(vec![], true, 0);
    assert_eq!(auth.node_ids.len(), 0);
    assert_eq!(auth.threshold, 0);
}

#[test]
fn test_coordinator_auth_status_display_not_started() {
    let auth = CoordinatorAuth::new(vec!["n0".to_string()], true, 1);
    assert_eq!(auth.status_summary().message(), "not_started");
}

#[test]
fn test_coordinator_auth_status_display_collecting() {
    let (mut auth, keypairs, node_ids) = setup_nodes_auth(5, 3);
    auth.start_collection(Duration::from_secs(30)).unwrap();
    let msg = AuthMessage::with_values("coordinator", "abc123", 1000u64, 42u64, 1u64);
    let agg = auth.get_aggregator_mut().unwrap();
    agg.add_signature(&node_ids[0], signed(&msg, &keypairs[0])).unwrap();
    let display = auth.status_summary().message();
    assert!(display.contains("collecting"));
    assert!(display.contains("1/5"));
}

#[test]
fn test_coordinator_auth_status_display_complete() {
    let (mut auth, keypairs, node_ids) = setup_nodes_auth(3, 2);
    auth.start_collection(Duration::from_secs(30)).unwrap();
    let msg = AuthMessage::with_values("coordinator", "abc123", 1000u64, 42u64, 1u64);
    let agg = auth.get_aggregator_mut().unwrap();
    for i in 0..2 {
        agg.add_signature(&node_ids[i], signed(&msg, &keypairs[i])).unwrap();
    }
    assert!(auth.status_summary().message().contains("complete"));
}

#[test]
fn coordinator_test_coordinator_auth_full_flow() {
    let (mut auth, keypairs, node_ids) = setup_nodes_auth(5, 3);
    auth.start_collection(Duration::from_secs(30)).unwrap();
    let msg = AuthMessage::with_values("coordinator", "repo123", 1000u64, 99u64, 5u64);
    let agg = auth.get_aggregator_mut().unwrap();
    for i in 0..3 {
        let result = agg.add_signature(&node_ids[i], signed(&msg, &keypairs[i]));
        assert!(result.is_ok(), "signature {} should succeed", i);
    }
    assert!(agg.has_threshold(), "threshold should be met");
    let aggregate_result = agg.create_aggregate();
    assert!(aggregate_result.is_ok(), "aggregate creation should succeed");
    let aggregate = aggregate_result.unwrap();
    assert_eq!(aggregate.threshold, 3);
    assert_eq!(aggregate.total_nodes, 5);
    assert_eq!(aggregate.message.repo_hash, "repo123");
    assert_eq!(aggregate.message.sequence, 5);
}

#[test]
fn test_coordinator_auth_full_flow_insufficient() {
    let (mut auth, keypairs, node_ids) = setup_nodes_auth(5, 3);
    auth.start_collection(Duration::from_secs(30)).unwrap();
    let msg = AuthMessage::with_values("coordinator", "repo123", 1000u64, 99u64, 5u64);
    let agg = auth.get_aggregator_mut().unwrap();
    for i in 0..2 {
        agg.add_signature(&node_ids[i], signed(&msg, &keypairs[i])).unwrap();
    }
    assert!(!agg.has_threshold());
    assert!(agg.create_aggregate().is_err());
}

#[test]
fn test_coordinator_auth_broadcast_aggregate() {
    let (mut auth, keypairs, node_ids) = setup_nodes_auth(5, 3);
    auth.start_collection(Duration::from_secs(30)).unwrap();
    let msg = AuthMessage::with_values("coordinator", "broadcast_test", 1000u64, 99u64, 5u64);
    let agg = auth.get_aggregator_mut().unwrap();
    for i in 0..3 {
        agg.add_signature(&node_ids[i], signed(&msg, &keypairs[i])).unwrap();
    }
    let aggregate = agg.create_aggregate().unwrap();
    assert!(auth.broadcast_aggregate_to_all_nodes(&aggregate).is_ok());
}

#[test]
fn test_coordinator_auth_broadcast_empty_nodes() {
    let (auth, _, _) = setup_nodes_auth(0, 0);
    let msg = AuthMessage::with_values("coordinator", "broadcast_test", 1000u64, 99u64, 5u64);
    let s = signed(&msg, &rand::random::<[u8; 32]>());
    let aggregate = AggregateAuthMessage::create(vec![s], 1, 1).unwrap();
    let result = auth.broadcast_aggregate_to_all_nodes(&aggregate);
    assert!(result.is_err());
    assert!(matches!(result.unwrap_err(), BroadcastError::NoNodesRegistered));
}

#[test]
fn test_coordinator_auth_rotate_keys() {
    let (mut auth, _, _) = setup_nodes_auth(3, 2);
    auth.start_collection(Duration::from_secs(30)).unwrap();
    let round_id_before = auth.get_current_round_id();
    assert!(round_id_before.is_some());
    assert!(auth.rotate_coordinator_keys().is_ok());
    assert!(auth.aggregator.is_some(), "aggregator should still exist after rotation");
    assert_ne!(round_id_before, auth.get_current_round_id(), "round_id should change");
    assert_eq!(auth.get_aggregator().unwrap().collected_count(), 0, "collected should be 0 after rotation");
}

#[test]
fn test_coordinator_auth_rotate_keys_generates_round_id() {
    let (mut auth, _, _) = setup_nodes_auth(3, 2);
    auth.start_collection(Duration::from_secs(30)).unwrap();
    assert!(auth.rotate_coordinator_keys().is_ok());
    auth.start_collection(Duration::from_secs(30)).unwrap();
    let round_id1 = auth.get_current_round_id();
    auth.reset();
    auth.start_collection(Duration::from_secs(30)).unwrap();
    let round_id2 = auth.get_current_round_id();
    assert!(round_id1.is_some(), "round_id should be set after rotation");
    assert!(round_id2.is_some(), "round_id should be set after new collection");
    assert_ne!(round_id1, round_id2, "round_ids should be unique per rotation");
}

#[test]
fn test_coordinator_auth_rotate_keys_resets_aggregator_state() {
    let (mut auth, keypairs, node_ids) = setup_nodes_auth(3, 2);
    auth.start_collection(Duration::from_secs(30)).unwrap();
    let first_round_id = auth.get_current_round_id();
    let msg = AuthMessage::with_values("coordinator", "test", 1000u64, 42u64, 1u64);
    let agg = auth.get_aggregator_mut().unwrap();
    agg.add_signature(&node_ids[0], signed(&msg, &keypairs[0])).unwrap();
    assert_eq!(agg.collected_count(), 1);
    assert_eq!(agg.threshold(), 2);
    auth.rotate_coordinator_keys().unwrap();
    let new_agg = auth.get_aggregator().unwrap();
    let second_round_id = auth.get_current_round_id();
    assert_ne!(first_round_id, second_round_id, "round_id should change after rotation");
    assert_eq!(new_agg.collected_count(), 0, "aggregator should be empty after rotation");
    assert_eq!(new_agg.threshold(), 2, "aggregator should preserve threshold");
}

#[test]
fn test_coordinator_auth_rotate_keys_multiple_rotations() {
    let (mut auth, _, _) = setup_nodes_auth(5, 3);
    for i in 0..5 {
        auth.start_collection(Duration::from_secs(30)).unwrap();
        let round_id_before = auth.get_current_round_id();
        auth.rotate_coordinator_keys().unwrap();
        auth.start_collection(Duration::from_secs(30)).unwrap();
        let round_id_after = auth.get_current_round_id();
        assert_ne!(round_id_before, round_id_after, "round_id {} should change", i);
    }
}

#[test]
fn test_coordinator_auth_rotate_keys_preserves_node_ids() {
    let (mut auth, _, _) = setup_nodes_auth(3, 2);
    let original_len = auth.get_node_ids().len();
    let original_threshold = auth.get_threshold();
    auth.start_collection(Duration::from_secs(30)).unwrap();
    auth.rotate_coordinator_keys().unwrap();
    auth.start_collection(Duration::from_secs(30)).unwrap();
    assert_eq!(auth.get_node_ids().len(), original_len, "node count should be preserved");
    assert_eq!(auth.get_threshold(), original_threshold, "threshold should be preserved");
}

#[test]
fn test_coordinator_auth_rotate_keys_preserves_threshold() {
    let (mut auth, _, _) = setup_nodes_auth(3, 2);
    let original_threshold = auth.get_threshold();
    auth.start_collection(Duration::from_secs(30)).unwrap();
    auth.rotate_coordinator_keys().unwrap();
    auth.start_collection(Duration::from_secs(30)).unwrap();
    assert_eq!(auth.get_threshold(), original_threshold, "threshold should be preserved");
}

#[test]
fn test_coordinator_auth_rotate_keys_no_aggregator() {
    let mut auth = CoordinatorAuth::new(vec!["n0".to_string()], true, 1);
    assert!(auth.rotate_coordinator_keys().is_ok());
}

#[test]
fn status_texts_exact() {
    let collecting = CoordinatorStatus::Collecting {
        collected: 1,
        total: 5,
        threshold: 3,
        missing_count: 4,
        is_complete: false,
        is_timed_out: false,
    };
    assert_eq!(collecting.message(), "collecting:1/5 (missing: 4, threshold: 3)");
    let complete = CoordinatorStatus::Collecting {
        collected: 3,
        total: 5,
        threshold: 3,
        missing_count: 2,
        is_complete: true,
        is_timed_out: true,
    };
    assert_eq!(complete.message(), "complete:3/3");
    assert_eq!(BroadcastError::NoNodesRegistered.message(), "no nodes registered for broadcast");
}
