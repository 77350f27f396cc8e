use drift::proto::{
    frame_length, frame_message, shard_cache_path_in, CoordEndpointCache, CoordState, FrameError, NodeInfo, NodeSlot,
    ShardAssignment, SlotState, TrainingCancel, DRIFT_ALPN, DRIFT_RING_ALPN, MAX_MESSAGE_SIZE,
};
use std::time::Instant;

fn node(id: &str) -> NodeInfo {
    NodeInfo {
        node_id: id.to_string(),
        gpu_name: "GPU".to_string(),
        gpu_vram_mb: 8192u64,
        gpu_compute_capability: "8.6".to_string(),
        available: true,
    }
}

#[test]
fn test_coord_state_default() {
    let state: CoordState = CoordState::default();
    assert_eq!(state.pending.len(), 0);
    assert_eq!(state.slots.len(), 0);
    assert!(!state.has_in_flight_nodes());
}

#[test]
fn test_slot_state_helpers() {
    let available = SlotState::Available { since: Instant::now() };
    let in_flight = SlotState::InFlight { last_heartbeat: Instant::now() };
    assert!(available.is_available());
    assert!(!available.is_in_flight());
    assert!(in_flight.is_in_flight());
    assert!(!in_flight.is_available());
}

#[test]
fn test_node_slot_creation() {
    let node_id = "node_abc123".to_string();
    let slot = NodeSlot { node_id, state: SlotState::Available { since: Instant::now() } };
    assert_eq!(slot.node_id, "node_abc123");
    assert!(matches!(slot.state, SlotState::Available { .. }));
}

#[test]
fn test_shard_assignment_size() {
    let shard = ShardAssignment { node_id: "node_x".to_string(), shard_index: 2u32, shard_start: 5000u64, shard_end: 15000u64 };
    assert_eq!(shard.size(), 10000u64);
}

#[test]
fn test_coord_state_with_initial_nodes() {
    let nodes = [
        NodeInfo {
            node_id: "alpha".to_string(),
            gpu_name: "GPU A".to_string(),
            gpu_vram_mb: 8192u64,
            gpu_compute_capability: "8.6".to_string(),
            available: true,
        },
        NodeInfo {
            node_id: "beta".to_string(),
            gpu_name: "GPU B".to_string(),
            gpu_vram_mb: 16384u64,
            gpu_compute_capability: "8.9".to_string(),
            available: true,
        },
    ];
    let state = CoordState::new(&nodes);
    assert_eq!(state.slots.len(), 2);
    assert_eq!(state.pending.len(), 1);
}

#[test]
fn test_mark_completed_transitions_in_flight_to_available() {
    let mut state = CoordState::default();
    state.register_node(&NodeInfo {
        node_id: "gamma".to_string(),
        gpu_name: "Test".to_string(),
        gpu_vram_mb: 4096u64,
        gpu_compute_capability: "8.0".to_string(),
        available: false,
    });
    if let Some(slot) = state.get_available_slot_mut("gamma") {
        slot.state = SlotState::InFlight { last_heartbeat: Instant::now() };
    }
    let result = state.mark_completed("gamma");
    assert!(result);
    if let Some(slot) = state.get_available_slot_mut("gamma") {
        assert!(matches!(slot.state, SlotState::Available { .. }));
    }
}

#[test]
fn test_mark_completed_returns_false_when_not_in_flight() {
    let mut state = CoordState::default();
    state.register_node(&NodeInfo {
        node_id: "delta".to_string(),
        gpu_name: "GPU D".to_string(),
        gpu_vram_mb: 8192u64,
        gpu_compute_capability: "8.9".to_string(),
        available: true,
    });
    let result = state.mark_completed("delta");
    assert!(!result);
}

#[test]
fn test_coord_endpoint_cache_creation() {
    let cache = CoordEndpointCache {
        did_hash_address: "did:test123".to_string(),
        public_key_or_secret: Some("secret456".to_string()),
    };
    assert_eq!(cache.did_hash_address, "did:test123");
    assert_eq!(cache.public_key_or_secret, Some("secret456".to_string()));
}

#[test]
fn test_training_cancel_struct() {
    let cancel = TrainingCancel {
        reason: "Commit hash mismatch".to_string(),
        time: "2024-01-01T00:00:00Z".to_string(),
        repo_url: "https://github.com/user/repo".to_string(),
    };
    assert_eq!(cancel.reason, "Commit hash mismatch");
    assert_eq!(cancel.time, "2024-01-01T00:00:00Z");
    assert_eq!(cancel.repo_url, "https://github.com/user/repo");
}

#[test]
fn training_cancel_display() {
    let cancel = TrainingCancel {
        reason: "Commit hash mismatch".to_string(),
        time: "2024-01-01T00:00:00Z".to_string(),
        repo_url: "https://github.com/user/repo".to_string(),
    };
    let display = cancel.message();
    assert!(display.contains("TrainingCancel"));
    assert!(display.contains("Commit hash mismatch"));
    assert_eq!(display, "TrainingCancel(reason=Commit hash mismatch, time=2024-01-01T00:00:00Z, repo=https://github.com/user/repo)");
}

#[test]
fn test_training_cancel_with_empty_reason() {
    let cancel = TrainingCancel { reason: String::new(), time: String::new(), repo_url: String::new() };
    assert!(cancel.reason.is_empty());
    assert!(cancel.time.is_empty());
    assert!(cancel.repo_url.is_empty());
}

#[test]
fn registering_twice_keeps_one_slot() {
    let mut state = CoordState::new(&[node("a"), node("b")]);
    state.register_node(&node("a"));
    state.register_node(&node("c"));
    assert_eq!(state.slots.len(), 3);
    assert_eq!(state.pending.len(), 1);
    assert_eq!(state.pending[0].node_id, "a");
    assert_eq!(state.pending[0].shard_end, 1000);
}

#[test]
fn pop_pending_takes_the_first() {
    let mut state = CoordState::new(&[node("a")]);
    let s = state.pop_pending_assignment().unwrap();
    assert_eq!(s.node_id, "a");
    assert_eq!(s.size(), 1000);
    assert!(state.pop_pending_assignment().is_none());
}

#[test]
fn mark_failed_after_timeout_only_for_in_flight() {
    let mut state = CoordState::new(&[node("a")]);
    assert!(state.mark_failed_after("a", 100, 10).is_none());
    state.get_available_slot_mut("a").unwrap().state = SlotState::InFlight { last_heartbeat: Instant::now() };
    assert!(state.mark_failed_after("a", 10, 10).is_none());
    assert!(state.has_in_flight_nodes());
    let shard = state.mark_failed_after("a", 11, 10).unwrap();
    assert_eq!(shard.node_id, "a");
    assert_eq!(shard.shard_index, 0);
    assert_eq!(shard.shard_start, 0);
    assert_eq!(shard.shard_end, 1000);
    assert!(!state.has_in_flight_nodes());
    match &state.get_available_slot_mut("a").unwrap().state {
        SlotState::Failed { unclaimed_shard: Some(s) } => assert_eq!(s.shard_end, 1000),
        _ => panic!("expected a failed slot"),
    }
    assert!(state.mark_failed_after("unknown", 100, 10).is_none());
}

#[test]
fn mark_failed_if_needed_with_recent_heartbeat() {
    let mut state = CoordState::new(&[node("a")]);
    state.get_available_slot_mut("a").unwrap().state = SlotState::InFlight { last_heartbeat: Instant::now() };
    assert!(state.mark_failed_if_needed("a", Instant::now(), 3600).is_none());
    assert!(state.has_in_flight_nodes());
}

#[test]
fn shard_size_saturates() {
    let shard = ShardAssignment { node_id: "x".to_string(), shard_index: 0, shard_start: 10, shard_end: 5 };
    assert_eq!(shard.size(), 0);
    assert_eq!(ShardAssignment::default().size(), 0);
}

#[test]
fn frame_roundtrip() {
    let body = b"{\"Ping\":null}".to_vec();
    let framed = frame_message(&body);
    assert_eq!(framed.len(), body.len() + 4);
    assert_eq!(&framed[..4], &[0u8, 0, 0, 13]);
    let prefix = [framed[0], framed[1], framed[2], framed[3]];
    assert_eq!(frame_length(prefix), Ok(13));
    assert_eq!(&framed[4..], &body[..]);
}

#[test]
fn frame_length_limits() {
    assert_eq!(frame_length([4, 0, 0, 0]), Ok(MAX_MESSAGE_SIZE));
    assert_eq!(frame_length([4, 0, 0, 1]), Err(FrameError::TooLarge { len: MAX_MESSAGE_SIZE + 1 }));
    assert_eq!(FrameError::TooLarge { len: 67108865 }.message(), "message too large: 67108865 bytes");
    assert_eq!(frame_length([0, 1, 2, 3]), Ok(66051));
}

#[test]
fn cache_paths() {
    assert_eq!(shard_cache_path_in(Some("/home/u"), "node123"), "/home/u/.drift/shard-node123");
    assert_eq!(shard_cache_path_in(Some("/home/u/"), "n"), "/home/u/.drift/shard-n");
    assert_eq!(shard_cache_path_in(None, "n"), "/tmp/drift-shard-n");
    assert_eq!(CoordEndpointCache::cache_path_in(Some("/root")), "/root/.drift/coordinator.toml");
    assert!(CoordEndpointCache::cache_path_in(None).ends_with("coordinator.toml"));
}

#[test]
fn alpn_identifiers() {
    assert_eq!(&DRIFT_ALPN[..], b"drift/0");
    assert_eq!(&DRIFT_RING_ALPN[..], b"drift-ring/0");
}

#[test]
fn test_local_shard_state_local_cache_path() {
    for home in [Some("/home/alice"), None] {
        let path_str = shard_cache_path_in(home, "node123");
        assert!(path_str.contains("node123"), "Path should contain node_id");
        assert!(path_str.contains(".drift") || path_str.contains("drift-"), "Path should be a drift cache");
    }
    assert!(shard_cache_path_in(Some("/home/alice"), "node123").contains(".drift"));
}

#[test]
fn test_local_cache_path_contains_node_id() {
    let path_str = shard_cache_path_in(Some("/home/alice"), "test_node_123");
    assert!(path_str.contains("test_node_123"));
    assert!(path_str.contains(".drift"));
}

#[test]
fn test_coord_endpoint_cache_cache_path() {
    for home in [Some("/home/alice"), None] {
        let path_str = CoordEndpointCache::cache_path_in(home);
        assert!(path_str.contains("coordinator.toml"), "Path should end with coordinator.toml");
    }
}

#[test]
fn test_empty_repo_commit() {
    let commit = drift::proto::RepoCommit { commit: "".to_string(), repo_url: "".to_string(), signature: vec![] };
    assert!(commit.commit.is_empty());
    assert!(commit.repo_url.is_empty());
    assert!(commit.signature.is_empty());
}

#[test]
fn node_info_display() {
    let mut info = node("0123456789abcdef");
    assert_eq!(info.message(), "0123456789ab | GPU (8192 MB VRAM, compute 8.6)");
    info.node_id = "abc".to_string();
    assert_eq!(info.message(), "abc | GPU (8192 MB VRAM, compute 8.6)");
    info.node_id = "ééééééé".to_string();
    assert_eq!(info.message(), "éééééé | GPU (8192 MB VRAM, compute 8.6)");
}

#[test]
fn byte_prefixes() {
    assert_eq!(drift::text::prefix_of_bytes("héllo", 3), "hé");
    assert_eq!(drift::text::prefix_of_bytes("abc", 12), "abc");
    assert_eq!(drift::text::prefix_of_bytes("abcdef", 0), "");
    assert_eq!(drift::text::prefix_of_bytes("a€b", 4), "a€");
}
