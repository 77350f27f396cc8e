use drift::auth::messages::{AggregateAuthMessage, AuthMessage, SignedAuthMessage};
use drift::auth::node::{
    validate_sequence, validate_sequence_strict, validate_sequence_strict_v2, validate_sequence_v2, verify_aggregate,
    verify_aggregate_v2, MockVerifier, NodeIdentity, SequenceState, SequenceTracker,
};

fn keypair() -> ([u8; 32], [u8; 32]) {
    let sk = rand::random::<[u8; 32]>();
    let pk = ed25519_dalek::SigningKey::from_bytes(&sk).verifying_key().to_bytes();
    (sk, pk)
}

fn single_aggregate() -> (AggregateAuthMessage, [u8; 32]) {
    let (sk, pk) = keypair();
    let msg = AuthMessage::with_values("node1", "abc123", 1000u64, 42u64, 1u64);
    let signed = SignedAuthMessage::sign(&msg, &sk).unwrap();
    (AggregateAuthMessage::create(vec![signed], 1, 1).unwrap(), pk)
}

#[test]
fn test_verify_aggregate_success() {
    let (agg, pubkey) = single_aggregate();
    let verifier = MockVerifier::new(vec![pubkey], vec!["node1".to_string()], "abc123".to_string());
    let result = verify_aggregate(&agg, "abc123", &["node1".to_string()], &verifier);
    assert!(result.is_ok(), "aggregate should verify");
}

#[test]
fn test_verify_aggregate_repo_hash_mismatch() {
    let (agg, pubkey) = single_aggregate();
    let verifier = MockVerifier::new(vec![pubkey], vec!["node1".to_string()], "abc123".to_string());
    let result = verify_aggregate(&agg, "different_hash", &["node1".to_string()], &verifier);
    assert!(result.is_err(), "should fail on repo hash mismatch");
}

#[test]
fn test_verify_aggregate_threshold_not_met() {
    let (agg, pubkey) = single_aggregate();
    let verifier = MockVerifier::new(vec![pubkey], vec!["node1".to_string()], "abc123".to_string());
    let result = verify_aggregate(&agg, "abc123", &["node1".to_string(), "node2".to_string()], &verifier);
    assert!(result.is_err(), "should fail when threshold not met");
}

#[test]
fn test_verify_aggregate_unknown_node() {
    let (agg, pubkey) = single_aggregate();
    let verifier = MockVerifier::new(vec![pubkey], vec!["node2".to_string()], "abc123".to_string());
    let result = verify_aggregate(&agg, "abc123", &["node1".to_string()], &verifier);
    assert!(result.is_err(), "should fail for unknown node");
}

#[test]
fn test_validate_sequence_increasing() {
    let mut state = SequenceState::default();
    assert!(validate_sequence(0, &mut state).is_ok());
    assert_eq!(state.expected, 1u64);
    assert!(validate_sequence(1, &mut state).is_ok());
    assert_eq!(state.expected, 2u64);
    assert!(validate_sequence(2, &mut state).is_ok());
    assert_eq!(state.expected, 3u64);
}

#[test]
fn test_validate_sequence_duplicate() {
    let mut state = SequenceState::default();
    assert!(validate_sequence(0, &mut state).is_ok());
    let result = validate_sequence(0, &mut state);
    assert!(result.is_err(), "duplicate should fail");
}

#[test]
fn test_validate_sequence_backwards() {
    let mut state = SequenceState::default();
    assert!(validate_sequence(5, &mut state).is_ok());
    let result = validate_sequence(3, &mut state);
    assert!(result.is_err(), "backwards should fail");
}

#[test]
fn test_validate_sequence_strict() {
    let mut state = SequenceState::default();
    assert!(validate_sequence_strict(0, &mut state).is_ok());
    assert_eq!(state.expected, 1u64);
    assert!(validate_sequence_strict(1, &mut state).is_ok());
    assert_eq!(state.expected, 2u64);
}

#[test]
fn test_validate_sequence_strict_gap() {
    let mut state = SequenceState::default();
    assert!(validate_sequence_strict(0, &mut state).is_ok());
    let result = validate_sequence_strict(2, &mut state);
    assert!(result.is_err(), "gap should fail in strict mode");
}

#[test]
fn test_node_identity_new() {
    let identity = NodeIdentity::new("node1").unwrap();
    assert_eq!(identity.node_id, "node1");
    let pk = identity.iroh_pubkey().unwrap();
    assert_eq!(pk.as_bytes(), &identity.public_key());
}

#[test]
fn test_node_identity_multiple() {
    for id in ["node1", "node2", "node3"] {
        let identity = NodeIdentity::new(id).unwrap();
        assert_eq!(identity.node_id, id);
        let _pk = identity.iroh_pubkey().unwrap();
    }
}

#[test]
fn test_verify_aggregate_v2_success() {
    let (agg, _pk) = single_aggregate();
    let result = verify_aggregate_v2(&agg, "abc123", &["node1".to_string()]);
    assert!(result.is_ok(), "aggregate should verify");
}

#[test]
fn test_verify_aggregate_v2_repo_hash_mismatch() {
    let (agg, _pk) = single_aggregate();
    let result = verify_aggregate_v2(&agg, "different_hash", &["node1".to_string()]);
    assert!(result.is_err(), "should fail on repo hash mismatch");
}

#[test]
fn test_verify_aggregate_v2_threshold_not_met() {
    let result = AggregateAuthMessage::create(vec![], 1, 5);
    assert!(result.is_err(), "should fail when no signatures provided");
}

#[test]
fn test_verify_aggregate_v2_unknown_node() {
    let (agg, _pk) = single_aggregate();
    let result = verify_aggregate_v2(&agg, "abc123", &["node2".to_string()]);
    assert!(result.is_err(), "should fail for unknown node");
}

#[test]
fn test_verify_aggregate_v2_multiple_nodes() {
    let msg = AuthMessage::with_values("coordinator", "repo", 1000u64, 42u64, 1u64);
    let signed_messages: Vec<SignedAuthMessage> = (0..5).map(|_| SignedAuthMessage::sign(&msg, &keypair().0).unwrap()).collect();
    let agg = AggregateAuthMessage::create(signed_messages, 3, 5).unwrap();
    let result = verify_aggregate_v2(&agg, "repo", &["coordinator".to_string()]);
    assert!(result.is_ok(), "3-of-5 should meet threshold");
}

#[test]
fn test_validate_sequence_v2_increasing() {
    let mut tracker = SequenceTracker::default();
    assert!(validate_sequence_v2(0, &mut tracker).is_ok());
    assert_eq!(tracker.expected, 1u64);
    assert!(validate_sequence_v2(1, &mut tracker).is_ok());
    assert_eq!(tracker.expected, 2u64);
    assert!(validate_sequence_v2(2, &mut tracker).is_ok());
    assert_eq!(tracker.expected, 3u64);
}

#[test]
fn test_validate_sequence_v2_duplicate() {
    let mut tracker = SequenceTracker::default();
    assert!(validate_sequence_v2(0, &mut tracker).is_ok());
    let result = validate_sequence_v2(0, &mut tracker);
    assert!(result.is_err(), "duplicate should fail");
}

#[test]
fn test_validate_sequence_v2_backwards() {
    let mut tracker = SequenceTracker::default();
    assert!(validate_sequence_v2(5, &mut tracker).is_ok());
    let result = validate_sequence_v2(3, &mut tracker);
    assert!(result.is_err(), "backwards should fail");
}

#[test]
fn test_validate_sequence_v2_skip_allowed() {
    let mut tracker = SequenceTracker::default();
    assert!(validate_sequence_v2(0, &mut tracker).is_ok());
    assert_eq!(tracker.expected, 1u64);
    assert!(validate_sequence_v2(5, &mut tracker).is_ok());
    assert_eq!(tracker.expected, 6u64);
}

#[test]
fn test_validate_sequence_strict_v2_gap() {
    let mut tracker = SequenceTracker::default();
    assert!(validate_sequence_strict_v2(0, &mut tracker).is_ok());
    assert_eq!(tracker.expected, 1u64);
    let result = validate_sequence_strict_v2(2, &mut tracker);
    assert!(result.is_err(), "gap should fail in strict mode");
}

#[test]
fn accepted_sequences_are_never_accepted_again() {
    let mut state = SequenceState::default();
    for s in [0u64, 3, 4, 10] {
        assert!(validate_sequence(s, &mut state).is_ok());
    }
    for s in [0u64, 3, 4, 10] {
        assert!(validate_sequence(s, &mut state).is_err());
    }
    assert_eq!(state.expected, 11);
}

#[test]
fn sequence_expected_follows_last_accepted() {
    let mut state = SequenceState::default();
    for n in [0u64, 3, 3, 2, 7, 8, 5] {
        let _ = validate_sequence(n, &mut state);
        assert_eq!(state.expected, state.seen.last().map_or(0, |l| l + 1));
    }
    assert_eq!(state.seen, vec![0, 3, 7, 8]);
}
