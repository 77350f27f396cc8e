use drift::coord::peer_registry::{NodeStatus, PeerEntry, PeerRegistry, RegistryState, WorkReply};
use drift::proto::ShardAssignment;
use drift::coord::consensus::{commit_verdict, distinct_commits, CommitVerdict};

fn shard(node: &str, index: u32, start: u64, end: u64) -> ShardAssignment {
    ShardAssignment { node_id: node.to_string(), shard_index: index, shard_start: start, shard_end: end }
}

#[test]
fn scenario_node_completes_and_requests_more_work() {
    let mut registry = PeerRegistry::new_with_pending_shards(1);
    match registry.handle_ask_for_more_work("idle_node_0") {
        WorkReply::AssignNext(shard) => assert_eq!(shard.shard_index, 100),
        WorkReply::NoMoreWork => panic!("expected AssignNext but got NoMoreWork"),
    }
}

#[test]
fn scenario_no_shards_remaining_returns_no_more_work() {
    let mut empty_registry = PeerRegistry::empty();
    empty_registry.pending.clear();
    match empty_registry.handle_ask_for_more_work("lonely_node") {
        WorkReply::NoMoreWork => {}
        other => panic!("expected NoMoreWork for empty registry, got {:?}", other),
    }
}

#[test]
fn scenario_only_one_gets_each_failed_shard_reassignment() {
    let mut reg = PeerRegistry::new_with_pending_shards(1);
    let resp_a = reg.handle_ask_for_more_work("idle_node_0");
    assert!(matches!(resp_a, WorkReply::AssignNext(_)), "first requester should get shard");
    let resp_b = reg.handle_ask_for_more_work("idle_node_1");
    if let WorkReply::AssignNext(_) = resp_b {
        panic!("only one reassignment per failed shard");
    }
}

#[test]
fn scenario_three_nodes_request_four_failed_shards_all_assigned_in_order() {
    let mut registry = PeerRegistry::new_with_pending_shards(4);
    for i in 0..4 {
        registry.add_failed_node(format!("reclaimer_{}", i), i + 50);
    }
    let mut assignments_received: Vec<u32> = vec![];
    for i in 0..4 {
        match registry.handle_ask_for_more_work(&format!("reclaimer_{}", i)) {
            WorkReply::AssignNext(shard) => assignments_received.push(shard.shard_index),
            other => panic!("node {} got {:?} instead of AssignNext", i, other),
        }
    }
    assert_eq!(assignments_received.len(), 4);
    let mut unique = assignments_received.clone();
    unique.sort();
    unique.dedup();
    assert_eq!(unique.len(), 4, "each shard assigned exactly once");
}

#[test]
fn failed_shards_follow_pending_ones_and_go_out_once() {
    let mut registry = PeerRegistry::new_with_failed_and_idles(2, 3);
    assert_eq!(registry.total_peers(), 5);
    let mut indices = vec![];
    loop {
        match registry.handle_ask_for_more_work("n") {
            WorkReply::AssignNext(s) => indices.push(s.shard_index),
            WorkReply::NoMoreWork => break,
        }
    }
    assert_eq!(indices, vec![50, 51]);
    let e = registry.get_peer_entry("failed_node_0").unwrap();
    assert!(matches!(e.status, NodeStatus::Idle));
    assert!(matches!(registry.handle_ask_for_more_work("n"), WorkReply::NoMoreWork));
}

#[test]
fn pending_shards_layout() {
    let mut registry = PeerRegistry::new_with_pending_shards(2);
    let first = registry.pop_pending_assignment().unwrap();
    assert_eq!(first.node_id, "pending_node_0");
    assert_eq!((first.shard_index, first.shard_start, first.shard_end), (100, 100000, 100999));
    let second = registry.pop_pending_assignment().unwrap();
    assert_eq!((second.shard_index, second.shard_start, second.shard_end), (101, 101000, 101999));
    assert!(registry.pop_pending_assignment().is_none());
}

#[test]
fn mixed_peers_layout() {
    let registry = PeerRegistry::new_with_mixed_peers(2, 1);
    assert_eq!(registry.total_peers(), 3);
    let a = registry.get_peer_entry("active_1").unwrap();
    assert_eq!(a.did_hash_address, "did:test:active_1");
    assert_eq!((a.original_shard.shard_start, a.original_shard.shard_end), (10000, 20000));
    assert!(a.last_seen.is_some());
    let s = registry.get_peer_entry("stale_0").unwrap();
    assert_eq!(s.original_shard.shard_index, 2);
    assert!(matches!(s.status, NodeStatus::Stale { .. }));
    assert!(s.last_seen.is_none());
}

#[test]
fn progress_marks_peer_active() {
    let mut reg = PeerRegistry::new();
    reg.add_peer_entry(PeerEntry {
        did_hash_address: "did:test".to_string(),
        original_shard: shard("node_2", 2, 20000, 30000),
        status: NodeStatus::Stale { since: time::OffsetDateTime::now_utc() },
        last_seen: None,
    });
    reg.update_on_progress("node_2", 900);
    let e = reg.get_peer_entry("node_2").unwrap();
    assert!(matches!(e.status, NodeStatus::Active));
    assert!(e.last_seen.is_some());
    reg.update_on_progress("unknown", 1);
    assert_eq!(reg.total_peers(), 1);
}

#[test]
fn adding_a_peer_twice_replaces_it() {
    let mut reg = PeerRegistry::new();
    reg.add_peer_entry(PeerEntry::new("did:a".to_string(), shard("surviving_node", 5, 5000, 6000)));
    reg.add_peer_entry(PeerEntry::new("did:b".to_string(), shard("surviving_node", 6, 6000, 7000)));
    assert_eq!(reg.total_peers(), 1);
    let e = reg.get_peer_entry("surviving_node").unwrap();
    assert_eq!(e.did_hash_address, "did:b");
    assert!(matches!(e.status, NodeStatus::Active));
}

#[test]
fn pop_failed_shard_when_none_failed() {
    let mut state = RegistryState::default();
    assert!(state.pop_failed_shard().is_none());
}

#[test]
fn registry_paths() {
    assert_eq!(RegistryState::state_path_in(Some("/home/u")), "/home/u/.drift/nodes.toml");
    assert_eq!(RegistryState::state_path_in(None), "/tmp/drift-nodes.toml");
}

#[test]
fn test_commit_mismatch_reason_format() {
    let reason = drift::coord::consensus::commit_mismatch_reason(2);
    assert!(reason.contains("Commit hash mismatch"));
    assert_eq!(reason, "Commit hash mismatch detected: 2 different commits");
}

#[test]
fn test_timeout_reason_format() {
    let reason = drift::coord::consensus::missing_commit_reason("node_abc123");
    assert!(reason.contains("did not send RepoCommit"));
    assert!(reason.contains("30s"));
}

#[test]
fn test_standby_timeout_message() {
    let msg = drift::node::session::standby_timeout_message();
    assert!(msg.contains("Standby timeout"));
    assert!(msg.contains("30s"));
}

#[test]
fn commit_verdicts() {
    let same = vec!["abc".to_string(), "abc".to_string(), "abc".to_string()];
    assert_eq!(commit_verdict(&same), CommitVerdict::Agree("abc".to_string()));
    let mixed = vec!["abc".to_string(), "def".to_string(), "abc".to_string()];
    assert_eq!(commit_verdict(&mixed), CommitVerdict::Mismatch(2));
    assert_eq!(commit_verdict(&vec![]), CommitVerdict::NoCommits);
    assert_eq!(distinct_commits(&mixed), vec!["abc".to_string(), "def".to_string()]);
}
