//! Registry of the peers taking part in a training run: the shard each peer
//! started with, how it is doing, and the shards waiting to be handed out
//! again. Failed peers' shards go to the next node that asks for work, each
//! to exactly one node.
use vstd::prelude::*;
use std::collections::VecDeque;
use crate::proto::{ShardAssignment, ShardAssignmentView};
use crate::text::{decimal_chars, push_decimal};

verus! {

#[verifier::external_type_specification]
#[verifier::external_body]
pub struct ExOffsetDateTime(time::OffsetDateTime);

/// The current time in UTC (`OffsetDateTime::now_utc`).
#[verifier::external_body]
pub(crate) fn now_utc() -> time::OffsetDateTime {
    time::OffsetDateTime::now_utc()
}

/// Possible states for a peer's participation in training.
#[derive(Debug, Clone, Copy, PartialEq, Eq)]
pub enum NodeStatus {
    Active,
    Idle,
    Stale { since: time::OffsetDateTime },
    Failed { unclaimed_since: time::OffsetDateTime },
    Done,
}

/// What the registry knows of one peer.
#[derive(Debug, Clone)]
pub struct PeerEntry {
    /// Address for reaching this node.
    pub did_hash_address: String,
    /// The shard originally assigned to this node at start of run.
    pub original_shard: ShardAssignment,
    /// Current status within the training run.
    pub status: NodeStatus,
    /// Last time any message came from this node.
    pub last_seen: Option<time::OffsetDateTime>,
}

impl PeerEntry {
    /// An active peer, seen just now.
    pub fn new(did_hash_address: String, original_shard: ShardAssignment) -> (r: Self)
        ensures
            r.did_hash_address == did_hash_address,
            r.original_shard == original_shard,
            r.status is Active,
            r.last_seen is Some,
    {
        PeerEntry { did_hash_address, original_shard, status: NodeStatus::Active, last_seen: Some(now_utc()) }
    }
}

/// The node ids of the peers, in order.
pub open spec fn peer_ids(peers: Seq<PeerEntry>) -> Seq<Seq<char>> {
    peers.map_values(|e: PeerEntry| e.original_shard.node_id@)
}

/// Whether `peers[i]` is the first peer with node id `id`.
pub open spec fn is_first_peer(peers: Seq<PeerEntry>, id: Seq<char>, i: int) -> bool {
    &&& 0 <= i < peers.len()
    &&& peers[i].original_shard.node_id@ == id
    &&& forall|j: int| 0 <= j < i ==> (#[trigger] peers[j]).original_shard.node_id@ != id
}

/// Whether no peer has node id `id`.
pub open spec fn has_no_peer(peers: Seq<PeerEntry>, id: Seq<char>) -> bool {
    forall|j: int| 0 <= j < peers.len() ==> (#[trigger] peers[j]).original_shard.node_id@ != id
}

/// Whether `peers[i]` is the first failed peer.
pub open spec fn is_first_failed(peers: Seq<PeerEntry>, i: int) -> bool {
    &&& 0 <= i < peers.len()
    &&& peers[i].status is Failed
    &&& forall|j: int| 0 <= j < i ==> !((#[trigger] peers[j]).status is Failed)
}

/// The number of failed peers, whose shards wait to be handed out again.
pub open spec fn count_failed(peers: Seq<PeerEntry>) -> nat
    decreases peers.len(),
{
    if peers.len() == 0 {
        0
    } else {
        count_failed(peers.drop_last()) + if peers.last().status is Failed {
            1nat
        } else {
            0nat
        }
    }
}

/// Replacing one peer changes the failed count by what the two entries add.
proof fn lemma_count_failed_update(peers: Seq<PeerEntry>, i: int, e: PeerEntry)
    requires
        0 <= i < peers.len(),
    ensures
        count_failed(peers.update(i, e)) + (if peers[i].status is Failed {
            1int
        } else {
            0int
        }) == count_failed(peers) + (if e.status is Failed {
            1int
        } else {
            0int
        }),
    decreases peers.len(),
{
    let u = peers.update(i, e);
    if i == peers.len() - 1 {
        assert(u.drop_last() =~= peers.drop_last());
    } else {
        assert(u.drop_last() =~= peers.drop_last().update(i, e));
        lemma_count_failed_update(peers.drop_last(), i, e);
    }
}

/// With no failed peer the failed count is zero, and with one it is not.
proof fn lemma_count_failed_zero(peers: Seq<PeerEntry>)
    ensures
        count_failed(peers) == 0 <==> forall|j: int| 0 <= j < peers.len() ==> !((#[trigger] peers[j]).status is Failed),
    decreases peers.len(),
{
    if peers.len() > 0 {
        lemma_count_failed_zero(peers.drop_last());
        if count_failed(peers) == 0 {
            assert forall|j: int| 0 <= j < peers.len() implies !((#[trigger] peers[j]).status is Failed) by {
                if j < peers.len() - 1 {
                    assert(peers[j] == peers.drop_last()[j]);
                }
            }
        }
        if forall|j: int| 0 <= j < peers.len() ==> !((#[trigger] peers[j]).status is Failed) {
            assert forall|j: int| 0 <= j < peers.drop_last().len() implies !((
            #[trigger] peers.drop_last()[j]).status is Failed) by {
                assert(peers.drop_last()[j] == peers[j]);
            }
        }
    }
}

/// Serializable registry state: one entry per peer, no node id twice.
#[derive(Debug, Clone)]
pub struct RegistryState {
    pub peers: Vec<PeerEntry>,
}

impl Default for RegistryState {
    /// No peers.
    fn default() -> (r: Self)
        ensures
            r.peers@.len() == 0,
    {
        RegistryState { peers: Vec::new() }
    }
}

impl RegistryState {
    /// Takes back the shard of the first failed peer, which becomes idle; the
    /// shard is returned so that another node can take it over. `None` when
    /// no peer has failed.
    pub fn pop_failed_shard(&mut self) -> (r: Option<ShardAssignment>)
        ensures
            r is None <==> forall|j: int| 0 <= j < old(self).peers@.len() ==> !((#[trigger] old(
                self,
            ).peers@[j]).status is Failed),
            r is None ==> final(self).peers@ == old(self).peers@,
            r matches Some(s) ==> exists|i: int|
                #![trigger is_first_failed(old(self).peers@, i)]
                is_first_failed(old(self).peers@, i) && s@ == old(self).peers@[i].original_shard@
                    && final(self).peers@ == old(self).peers@.update(
                    i,
                    PeerEntry { status: NodeStatus::Idle, ..old(self).peers@[i] },
                ),
    {
        let mut i: usize = 0;
        while i < self.peers.len()
            invariant
                i <= self.peers@.len(),
                self.peers@ == old(self).peers@,
                forall|j: int| 0 <= j < i ==> !((#[trigger] self.peers@[j]).status is Failed),
            decreases self.peers@.len() - i,
        {
            match self.peers[i].status {
                NodeStatus::Failed { .. } => {
                    let shard = self.peers[i].original_shard.duplicate();
                    let mut peers: Vec<PeerEntry> = Vec::new();
                    std::mem::swap(&mut peers, &mut self.peers);
                    let old_entry = peers.remove(i);
                    let entry = PeerEntry { status: NodeStatus::Idle, ..old_entry };
                    peers.insert(i, entry);
                    proof {
                        assert(peers@ =~= old(self).peers@.update(
                            i as int,
                            PeerEntry { status: NodeStatus::Idle, ..old(self).peers@[i as int] },
                        ));
                        assert(is_first_failed(old(self).peers@, i as int));
                    }
                    self.peers = peers;
                    return Some(shard);
                },
                _ => {},
            }
            i = i + 1;
        }
        None
    }
}

/// What a node that asks for more work is told.
#[derive(Debug, Clone, PartialEq, Eq)]
pub enum WorkReply {
    AssignNext(ShardAssignment),
    NoMoreWork,
}

/// Runtime registry holding both persistent and pending shard state.
#[derive(Debug, Clone)]
pub struct PeerRegistry {
    pub state: RegistryState,
    pub pending: VecDeque<ShardAssignment>,
}

/// The shards that a registry can still hand out: the pending ones and those
/// of failed peers.
pub open spec fn work_left(reg: PeerRegistry) -> nat {
    reg.pending@.len() + count_failed(reg.state.peers@)
}

/// The position of the first peer with node id `id`.
fn find_peer(peers: &Vec<PeerEntry>, id: &str) -> (r: Option<usize>)
    ensures
        r matches Some(i) ==> is_first_peer(peers@, id@, i as int),
        r is None ==> has_no_peer(peers@, id@),
{
    let key = String::from_str(id);
    let mut i: usize = 0;
    while i < peers.len()
        invariant
            i <= peers@.len(),
            key@ == id@,
            forall|j: int| 0 <= j < i ==> (#[trigger] peers@[j]).original_shard.node_id@ != id@,
        decreases peers@.len() - i,
    {
        if peers[i].original_shard.node_id == key {
            return Some(i);
        }
        i = i + 1;
    }
    None
}

/// Builds `prefix` followed by the decimal rendering of `n`.
fn numbered(prefix: &str, n: u64) -> (r: String)
    ensures
        r@ == prefix@ + decimal_chars(n as nat),
{
    let mut s = String::from_str(prefix);
    push_decimal(&mut s, n);
    s
}

/// The `i`-th shard of a registry made with pending shards: node
/// `pending_node_<i>`, index `100 + i`, items `(100 + i) * 1000` to
/// `(100 + i) * 1000 + 999`.
pub open spec fn pending_test_shard(i: nat) -> ShardAssignmentView {
    ShardAssignmentView {
        node_id: "pending_node_"@ + decimal_chars(i),
        shard_index: (100 + i) as u32,
        shard_start: ((100 + i) * 1000) as u64,
        shard_end: ((100 + i) * 1000 + 999) as u64,
    }
}

/// Whether `e` has the given address and shard.
pub open spec fn peer_is(e: PeerEntry, did: Seq<char>, shard: ShardAssignmentView) -> bool {
    e.did_hash_address@ == did && e.original_shard@ == shard
}

impl PeerRegistry {
    /// An empty registry.
    pub fn new() -> (r: Self)
        ensures
            r.state.peers@.len() == 0,
            r.pending@.len() == 0,
    {
        PeerRegistry { state: RegistryState::default(), pending: VecDeque::new() }
    }

    /// An empty registry.
    pub fn empty() -> (r: Self)
        ensures
            r.state.peers@.len() == 0,
            r.pending@.len() == 0,
    {
        Self::new()
    }

    /// A registry with no peers and `count` shards waiting to be handed out.
    pub fn new_with_pending_shards(count: usize) -> (r: Self)
        requires
            count <= 4294967196,
        ensures
            r.state.peers@.len() == 0,
            r.pending@.len() == count,
            forall|i: int| 0 <= i < count ==> (#[trigger] r.pending@[i])@ == pending_test_shard(i as nat),
    {
        let mut pending: VecDeque<ShardAssignment> = VecDeque::new();
        let mut i: usize = 0;
        while i < count
            invariant
                i <= count <= 4294967196,
                pending@.len() == i,
                forall|j: int| 0 <= j < i ==> (#[trigger] pending@[j])@ == pending_test_shard(j as nat),
            decreases count - i,
        {
            let start: u64 = (100u64 + i as u64) * 1000;
            pending.push_back(ShardAssignment {
                node_id: numbered("pending_node_", i as u64),
                shard_index: 100 + i as u32,
                shard_start: start,
                shard_end: start.saturating_add(999),
            });
            i = i + 1;
        }
        PeerRegistry { state: RegistryState::default(), pending }
    }

    /// A registry with `failed_count` failed peers (`failed_node_<i>`, shard
    /// index `50 + i`, items `i * 10000` to `(i + 1) * 10000`) followed by
    /// `idle_count` idle ones (`idle_node_<i>`, shard index `i`, items
    /// `i * 1000` to `(i + 1) * 1000`).
    pub fn new_with_failed_and_idles(failed_count: usize, idle_count: usize) -> (r: Self)
        requires
            failed_count <= 1844674407370955,
            failed_count + 50 <= usize::MAX,
            idle_count <= 18446744073709551,
        ensures
            r.pending@.len() == 0,
            r.state.peers@.len() == failed_count + idle_count,
            forall|i: int|
                0 <= i < failed_count ==> {
                    let e = #[trigger] r.state.peers@[i];
                    &&& peer_is(
                        e,
                        "did:test:failed_"@ + decimal_chars(i as nat),
                        ShardAssignmentView {
                            node_id: "failed_node_"@ + decimal_chars(i as nat),
                            shard_index: (50 + i) as u32,
                            shard_start: (i * 10000) as u64,
                            shard_end: ((i + 1) * 10000) as u64,
                        },
                    )
                    &&& e.status is Failed
                    &&& e.last_seen is None
                },
            forall|i: int|
                0 <= i < idle_count ==> {
                    let e = #[trigger] r.state.peers@[failed_count + i];
                    &&& peer_is(
                        e,
                        "did:test:idle_"@ + decimal_chars(i as nat),
                        ShardAssignmentView {
                            node_id: "idle_node_"@ + decimal_chars(i as nat),
                            shard_index: i as u32,
                            shard_start: (i * 1000) as u64,
                            shard_end: ((i + 1) * 1000) as u64,
                        },
                    )
                    &&& e.status is Idle
                    &&& e.last_seen is Some
                },
    {
        let mut peers: Vec<PeerEntry> = Vec::new();
        let mut i: usize = 0;
        while i < failed_count
            invariant
                i <= failed_count <= 1844674407370955,
                failed_count + 50 <= usize::MAX,
                peers@.len() == i,
                forall|k: int|
                    0 <= k < i ==> {
                        let e = #[trigger] peers@[k];
                        &&& peer_is(
                            e,
                            "did:test:failed_"@ + decimal_chars(k as nat),
                            ShardAssignmentView {
                                node_id: "failed_node_"@ + decimal_chars(k as nat),
                                shard_index: (50 + k) as u32,
                                shard_start: (k * 10000) as u64,
                                shard_end: ((k + 1) * 10000) as u64,
                            },
                        )
                        &&& e.status is Failed
                        &&& e.last_seen is None
                    },
            decreases failed_count - i,
        {
            peers.push(PeerEntry {
                did_hash_address: numbered("did:test:failed_", i as u64),
                original_shard: ShardAssignment {
                    node_id: numbered("failed_node_", i as u64),
                    shard_index: (50 + i) as u32,
                    shard_start: (i as u64) * 10000,
                    shard_end: ((i as u64) + 1) * 10000,
                },
                status: NodeStatus::Failed { unclaimed_since: now_utc() },
                last_seen: None,
            });
            i = i + 1;
        }
        let mut k: usize = 0;
        while k < idle_count
            invariant
                k <= idle_count <= 18446744073709551,
                failed_count <= 1844674407370955,
                peers@.len() == failed_count + k,
                forall|m: int|
                    0 <= m < failed_count ==> {
                        let e = #[trigger] peers@[m];
                        &&& peer_is(
                            e,
                            "did:test:failed_"@ + decimal_chars(m as nat),
                            ShardAssignmentView {
                                node_id: "failed_node_"@ + decimal_chars(m as nat),
                                shard_index: (50 + m) as u32,
                                shard_start: (m * 10000) as u64,
                                shard_end: ((m + 1) * 10000) as u64,
                            },
                        )
                        &&& e.status is Failed
                        &&& e.last_seen is None
                    },
                forall|m: int|
                    0 <= m < k ==> {
                        let e = #[trigger] peers@[failed_count + m];
                        &&& peer_is(
                            e,
                            "did:test:idle_"@ + decimal_chars(m as nat),
                            ShardAssignmentView {
                                node_id: "idle_node_"@ + decimal_chars(m as nat),
                                shard_index: m as u32,
                                shard_start: (m * 1000) as u64,
                                shard_end: ((m + 1) * 1000) as u64,
                            },
                        )
                        &&& e.status is Idle
                        &&& e.last_seen is Some
                    },
            decreases idle_count - k,
        {
            let ghost before = peers@;
            peers.push(PeerEntry {
                did_hash_address: numbered("did:test:idle_", k as u64),
                original_shard: ShardAssignment {
                    node_id: numbered("idle_node_", k as u64),
                    shard_index: k as u32,
                    shard_start: (k as u64) * 1000,
                    shard_end: (k as u64).saturating_add(1) * 1000,
                },
                status: NodeStatus::Idle,
                last_seen: Some(now_utc()),
            });
            proof {
                assert forall|m: int| 0 <= m < failed_count implies #[trigger] peers@[m] == before[m] by {}
                assert forall|m: int| 0 <= m < k implies #[trigger] peers@[failed_count + m]
                    == before[failed_count + m] by {}
            }
            k = k + 1;
        }
        PeerRegistry { state: RegistryState { peers }, pending: VecDeque::new() }
    }

    /// A registry with `active_count` active peers (`active_<i>`, shard index
    /// `i`, items `i * 10000` to `(i + 1) * 10000`) followed by `stale_count`
    /// stale ones (`stale_<i>`, shard index `active_count + i`, items
    /// `(active_count + i) * 10000` to `(active_count + i + 1) * 10000`).
    pub fn new_with_mixed_peers(active_count: usize, stale_count: usize) -> (r: Self)
        requires
            active_count + stale_count <= 1844674407370955,
            active_count + stale_count <= usize::MAX,
        ensures
            r.pending@.len() == 0,
            r.state.peers@.len() == active_count + stale_count,
            forall|i: int|
                0 <= i < active_count ==> {
                    let e = #[trigger] r.state.peers@[i];
                    &&& peer_is(
                        e,
                        "did:test:active_"@ + decimal_chars(i as nat),
                        ShardAssignmentView {
                            node_id: "active_"@ + decimal_chars(i as nat),
                            shard_index: i as u32,
                            shard_start: (i * 10000) as u64,
                            shard_end: ((i + 1) * 10000) as u64,
                        },
                    )
                    &&& e.status is Active
                    &&& e.last_seen is Some
                },
            forall|i: int|
                0 <= i < stale_count ==> {
                    let e = #[trigger] r.state.peers@[active_count + i];
                    &&& peer_is(
                        e,
                        "did:test:stale_"@ + decimal_chars(i as nat),
                        ShardAssignmentView {
                            node_id: "stale_"@ + decimal_chars(i as nat),
                            shard_index: (active_count + i) as u32,
                            shard_start: ((active_count + i) * 10000) as u64,
                            shard_end: ((active_count + i + 1) * 10000) as u64,
                        },
                    )
                    &&& e.status is Stale
                    &&& e.last_seen is None
                },
    {
        let mut peers: Vec<PeerEntry> = Vec::new();
        let mut i: usize = 0;
        while i < active_count
            invariant
                i <= active_count,
                active_count + stale_count <= 1844674407370955,
                peers@.len() == i,
                forall|k: int|
                    0 <= k < i ==> {
                        let e = #[trigger] peers@[k];
                        &&& peer_is(
                            e,
                            "did:test:active_"@ + decimal_chars(k as nat),
                            ShardAssignmentView {
                                node_id: "active_"@ + decimal_chars(k as nat),
                                shard_index: k as u32,
                                shard_start: (k * 10000) as u64,
                                shard_end: ((k + 1) * 10000) as u64,
                            },
                        )
                        &&& e.status is Active
                        &&& e.last_seen is Some
                    },
            decreases active_count - i,
        {
            peers.push(PeerEntry {
                did_hash_address: numbered("did:test:active_", i as u64),
                original_shard: ShardAssignment {
                    node_id: numbered("active_", i as u64),
                    shard_index: i as u32,
                    shard_start: (i as u64) * 10000,
                    shard_end: ((i as u64) + 1) * 10000,
                },
                status: NodeStatus::Active,
                last_seen: Some(now_utc()),
            });
            i = i + 1;
        }
        let mut k: usize = 0;
        while k < stale_count
            invariant
                k <= stale_count,
                active_count + stale_count <= 1844674407370955,
                active_count + stale_count <= usize::MAX,
                peers@.len() == active_count + k,
                forall|m: int|
                    0 <= m < active_count ==> {
                        let e = #[trigger] peers@[m];
                        &&& peer_is(
                            e,
                            "did:test:active_"@ + decimal_chars(m as nat),
                            ShardAssignmentView {
                                node_id: "active_"@ + decimal_chars(m as nat),
                                shard_index: m as u32,
                                shard_start: (m * 10000) as u64,
                                shard_end: ((m + 1) * 10000) as u64,
                            },
                        )
                        &&& e.status is Active
                        &&& e.last_seen is Some
                    },
                forall|m: int|
                    0 <= m < k ==> {
                        let e = #[trigger] peers@[active_count + m];
                        &&& peer_is(
                            e,
                            "did:test:stale_"@ + decimal_chars(m as nat),
                            ShardAssignmentView {
                                node_id: "stale_"@ + decimal_chars(m as nat),
                                shard_index: (active_count + m) as u32,
                                shard_start: ((active_count + m) * 10000) as u64,
                                shard_end: ((active_count + m + 1) * 10000) as u64,
                            },
                        )
                        &&& e.status is Stale
                        &&& e.last_seen is None
                    },
            decreases stale_count - k,
        {
            let ghost before = peers@;
            let base: u64 = (active_count as u64) + (k as u64);
            peers.push(PeerEntry {
                did_hash_address: numbered("did:test:stale_", k as u64),
                original_shard: ShardAssignment {
                    node_id: numbered("stale_", k as u64),
                    shard_index: (active_count + k) as u32,
                    shard_start: base * 10000,
                    shard_end: (base + 1) * 10000,
                },
                status: NodeStatus::Stale { since: now_utc() },
                last_seen: None,
            });
            proof {
                assert forall|m: int| 0 <= m < active_count implies #[trigger] peers@[m] == before[m] by {}
                assert forall|m: int| 0 <= m < k implies #[trigger] peers@[active_count + m]
                    == before[active_count + m] by {}
            }
            k = k + 1;
        }
        PeerRegistry { state: RegistryState { peers }, pending: VecDeque::new() }
    }

    /// Records a failed peer `node_id` whose shard, index `shard_idx` over
    /// items 0 to 1000, waits to be handed out again; it replaces any entry
    /// for the same node.
    pub fn add_failed_node(&mut self, node_id: String, shard_idx: usize)
        ensures
            final(self).pending@ == old(self).pending@,
            peer_added(old(self).state.peers@, final(self).state.peers@, node_id@),
            forall|i: int| is_slot_of(final(self).state.peers@, node_id@, i) ==> {
                let e = #[trigger] final(self).state.peers@[i];
                &&& peer_is(
                    e,
                    "did:test"@,
                    ShardAssignmentView {
                        node_id: node_id@,
                        shard_index: shard_idx as u32,
                        shard_start: 0,
                        shard_end: 1000,
                    },
                )
                &&& e.status is Failed
                &&& e.last_seen is None
            },
    {
        let entry = PeerEntry {
            did_hash_address: String::from_str("did:test"),
            original_shard: ShardAssignment {
                node_id: node_id.clone(),
                shard_index: shard_idx as u32,
                shard_start: 0u64,
                shard_end: 1000u64,
            },
            status: NodeStatus::Failed { unclaimed_since: now_utc() },
            last_seen: None,
        };
        self.add_peer_entry(entry);
    }

    /// The entry of peer `node_id`, if any.
    pub fn get_peer_entry(&self, node_id: &str) -> (r: Option<&PeerEntry>)
        ensures
            r is None ==> has_no_peer(self.state.peers@, node_id@),
            r matches Some(e) ==> exists|i: int|
                #![trigger is_first_peer(self.state.peers@, node_id@, i)]
                is_first_peer(self.state.peers@, node_id@, i) && *e == self.state.peers@[i],
    {
        match find_peer(&self.state.peers, node_id) {
            Some(i) => Some(&self.state.peers[i]),
            None => None,
        }
    }

    /// The number of peers.
    pub fn total_peers(&self) -> (r: usize)
        ensures
            r == self.state.peers@.len(),
    {
        self.state.peers.len()
    }

    /// Records `entry` under its shard's node id, replacing the entry that
    /// node had.
    pub fn add_peer_entry(&mut self, entry: PeerEntry)
        ensures
            final(self).pending@ == old(self).pending@,
            peer_added(old(self).state.peers@, final(self).state.peers@, entry.original_shard.node_id@),
            forall|i: int| is_slot_of(final(self).state.peers@, entry.original_shard.node_id@, i)
                ==> #[trigger] final(self).state.peers@[i] == entry,
    {
        let id = entry.original_shard.node_id.clone();
        match find_peer(&self.state.peers, id.as_str()) {
            Some(i) => {
                let mut peers: Vec<PeerEntry> = Vec::new();
                std::mem::swap(&mut peers, &mut self.state.peers);
                peers.set(i, entry);
                self.state.peers = peers;
                proof {
                    assert(is_first_peer(old(self).state.peers@, id@, i as int));
                    assert(self.state.peers@ =~= old(self).state.peers@.update(i as int, self.state.peers@[i as int]));
                    lemma_first_peer_unique(old(self).state.peers@, id@, i as int);
                }
            },
            None => {
                self.state.peers.push(entry);
                proof {
                    assert(self.state.peers@.drop_last() =~= old(self).state.peers@);
                }
            },
        }
    }

    /// Answers a node that asks for more work: the next pending shard if
    /// there is one, else the shard of the first failed peer (that peer
    /// becomes idle, so no other node gets the same shard), else no more work.
    pub fn handle_ask_for_more_work(&mut self, node_id: &str) -> (r: WorkReply)
        ensures
            old(self).pending@.len() > 0 ==> r == WorkReply::AssignNext(old(self).pending@[0])
                && final(self).pending@ == old(self).pending@.drop_first() && final(self).state
                == old(self).state,
            old(self).pending@.len() == 0 ==> final(self).pending@ == old(self).pending@,
            old(self).pending@.len() == 0 ==> (r is NoMoreWork <==> forall|j: int|
                0 <= j < old(self).state.peers@.len() ==> !((#[trigger] old(self).state.peers@[j]).status is Failed)),
            old(self).pending@.len() == 0 ==> (r is NoMoreWork ==> final(self).state.peers@ == old(self).state.peers@),
            old(self).pending@.len() == 0 ==> (r matches WorkReply::AssignNext(s) ==> exists|i: int|
                #![trigger is_first_failed(old(self).state.peers@, i)]
                is_first_failed(old(self).state.peers@, i) && s@ == old(self).state.peers@[i].original_shard@
                    && final(self).state.peers@ == old(self).state.peers@.update(
                    i,
                    PeerEntry { status: NodeStatus::Idle, ..old(self).state.peers@[i] },
                )),
            r is NoMoreWork <==> work_left(*old(self)) == 0,
            r is AssignNext ==> work_left(*final(self)) + 1 == work_left(*old(self)),
            r is NoMoreWork ==> work_left(*final(self)) == 0,
    {
        proof {
            lemma_count_failed_zero(old(self).state.peers@);
        }
        if self.pending.len() > 0 {
            match self.pop_pending_assignment() {
                Some(s) => WorkReply::AssignNext(s),
                None => WorkReply::NoMoreWork,
            }
        } else {
            match self.state.pop_failed_shard() {
                Some(shard) => {
                    proof {
                        let i = choose|i: int| #![trigger is_first_failed(old(self).state.peers@, i)]
                            is_first_failed(old(self).state.peers@, i) && shard@ == old(self).state.peers@[i].original_shard@
                                && self.state.peers@ == old(self).state.peers@.update(
                                i,
                                PeerEntry { status: NodeStatus::Idle, ..old(self).state.peers@[i] },
                            );
                        lemma_count_failed_update(
                            old(self).state.peers@,
                            i,
                            PeerEntry { status: NodeStatus::Idle, ..old(self).state.peers@[i] },
                        );
                    }
                    WorkReply::AssignNext(shard)
                },
                None => WorkReply::NoMoreWork,
            }
        }
    }

    /// Records that node `node_id` reported progress: its entry is marked
    /// active and seen now. Nothing changes for an unknown node.
    pub fn update_on_progress(&mut self, node_id: &str, step: u64)
        ensures
            final(self).pending@ == old(self).pending@,
            final(self).state.peers@.len() == old(self).state.peers@.len(),
            has_no_peer(old(self).state.peers@, node_id@) ==> final(self).state.peers@ == old(self).state.peers@,
            forall|i: int| #[trigger] is_first_peer(old(self).state.peers@, node_id@, i) ==> {
                &&& final(self).state.peers@ == old(self).state.peers@.update(i, final(self).state.peers@[i])
                &&& final(self).state.peers@[i].did_hash_address == old(self).state.peers@[i].did_hash_address
                &&& final(self).state.peers@[i].original_shard == old(self).state.peers@[i].original_shard
                &&& final(self).state.peers@[i].status is Active
                &&& final(self).state.peers@[i].last_seen is Some
            },
    {
        match find_peer(&self.state.peers, node_id) {
            Some(i) => {
                let mut peers: Vec<PeerEntry> = Vec::new();
                std::mem::swap(&mut peers, &mut self.state.peers);
                let old_entry = peers.remove(i);
                let entry = PeerEntry { status: NodeStatus::Active, last_seen: Some(now_utc()), ..old_entry };
                peers.insert(i, entry);
                self.state.peers = peers;
                proof {
                    assert(self.state.peers@ =~= old(self).state.peers@.update(i as int, self.state.peers@[i as int]));
                    lemma_first_peer_unique(old(self).state.peers@, node_id@, i as int);
                }
            },
            None => {},
        }
    }

    /// Takes the next pending shard.
    pub fn pop_pending_assignment(&mut self) -> (r: Option<ShardAssignment>)
        ensures
            final(self).state == old(self).state,
            old(self).pending@.len() == 0 ==> r is None && final(self).pending@ == old(self).pending@,
            old(self).pending@.len() > 0 ==> r == Some(old(self).pending@[0])
                && final(self).pending@ == old(self).pending@.drop_first(),
    {
        self.pending.pop_front()
    }
}

/// Two first peers with the same node id are the same peer.
proof fn lemma_first_peer_unique(peers: Seq<PeerEntry>, id: Seq<char>, i: int)
    requires
        is_first_peer(peers, id, i),
    ensures
        forall|j: int| #[trigger] is_first_peer(peers, id, j) ==> j == i,
{
    assert forall|j: int| #[trigger] is_first_peer(peers, id, j) implies j == i by {
        if j < i {
            assert(peers[j].original_shard.node_id@ != id);
        } else if i < j {
            assert(peers[i].original_shard.node_id@ != id);
        }
    }
}

/// Whether `peers[i]` is where node `id`'s entry stands after an insertion:
/// its first entry.
pub open spec fn is_slot_of(peers: Seq<PeerEntry>, id: Seq<char>, i: int) -> bool {
    is_first_peer(peers, id, i)
}

/// Whether `after` is `before` with an entry for node `id` recorded: its
/// first entry replaced, or an entry added at the end when it had none.
pub open spec fn peer_added(before: Seq<PeerEntry>, after: Seq<PeerEntry>, id: Seq<char>) -> bool {
    if has_no_peer(before, id) {
        &&& after.len() == before.len() + 1
        &&& after.drop_last() == before
        &&& after.last().original_shard.node_id@ == id
    } else {
        exists|i: int|
            #![trigger is_first_peer(before, id, i)]
            is_first_peer(before, id, i) && after == before.update(i, after[i])
                && after[i].original_shard.node_id@ == id
    }
}

/// Recording a peer keeps node ids free of repeats and adds the new id.
pub proof fn lemma_peer_added(before: Seq<PeerEntry>, after: Seq<PeerEntry>, id: Seq<char>)
    requires
        peer_added(before, after, id),
        peer_ids(before).no_duplicates(),
    ensures
        peer_ids(after).no_duplicates(),
        peer_ids(after).to_set() == peer_ids(before).to_set().insert(id),
{
    if has_no_peer(before, id) {
        assert(peer_ids(after) =~= peer_ids(before).push(id));
        peer_ids(before).lemma_push_to_set_commute(id);
        assert(!peer_ids(before).contains(id)) by {
            if peer_ids(before).contains(id) {
                let k = choose|k: int| 0 <= k < peer_ids(before).len() && peer_ids(before)[k] == id;
                assert(before[k].original_shard.node_id@ == id);
            }
        }
    } else {
        let i = choose|i: int| #![trigger is_first_peer(before, id, i)]
            is_first_peer(before, id, i) && after == before.update(i, after[i])
                && after[i].original_shard.node_id@ == id;
        assert(peer_ids(after) =~= peer_ids(before));
        assert(peer_ids(before).contains(id)) by {
            assert(peer_ids(before)[i] == id);
        }
        assert(peer_ids(before).to_set().insert(id) =~= peer_ids(before).to_set());
    }
}

/// Where the registry is saved: `<home>/.drift/nodes.toml` when a home
/// directory is known, `/tmp/drift-nodes.toml` otherwise.
pub open spec fn registry_path(home: Option<Seq<char>>) -> Seq<char> {
    match home {
        Some(h) => crate::proto::path_join(crate::proto::path_join(h, ".drift"@), "nodes.toml"@),
        None => "/tmp/drift-nodes.toml"@,
    }
}

impl RegistryState {
    /// Builds the path where the registry is saved, under `home`.
    pub fn state_path_in(home: Option<&str>) -> (r: String)
        ensures
            r@ == registry_path(
                match home {
                    Some(h) => Some(h@),
                    None => None,
                },
            ),
    {
        match home {
            Some(h) => {
                let mut p = String::from_str(h);
                crate::proto::push_component(&mut p, ".drift");
                crate::proto::push_component(&mut p, "nodes.toml");
                p
            },
            None => String::from_str("/tmp/drift-nodes.toml"),
        }
    }
}

} // verus!
