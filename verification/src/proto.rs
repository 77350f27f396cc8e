//! Messages and coordinator-side bookkeeping shared by drift nodes and the
//! coordinator: node slots, shard assignments, and the length-prefixed
//! framing of messages on the wire.
use vstd::prelude::*;
use std::collections::VecDeque;
use std::time::Instant;
use crate::text::{push_all, string_views, byte_prefix, is_byte_boundary, prefix_of_bytes, decimal_chars, push_decimal};
use crate::platform::{instant_now, instant_secs_between, instant_secs_since};

verus! {

/// Shard assignment for a specific node.
#[derive(Debug, Clone, PartialEq, Eq)]
pub struct ShardAssignment {
    pub node_id: String,
    pub shard_index: u32,
    pub shard_start: u64,
    pub shard_end: u64,
}

/// The content of a [`ShardAssignment`].
pub struct ShardAssignmentView {
    pub node_id: Seq<char>,
    pub shard_index: u32,
    pub shard_start: u64,
    pub shard_end: u64,
}

impl View for ShardAssignment {
    type V = ShardAssignmentView;

    open spec fn view(&self) -> ShardAssignmentView {
        ShardAssignmentView {
            node_id: self.node_id@,
            shard_index: self.shard_index,
            shard_start: self.shard_start,
            shard_end: self.shard_end,
        }
    }
}

impl Default for ShardAssignment {
    /// An empty node id and an empty shard at index zero.
    fn default() -> (r: Self)
        ensures
            r@ == (ShardAssignmentView {
                node_id: Seq::<char>::empty(),
                shard_index: 0,
                shard_start: 0,
                shard_end: 0,
            }),
    {
        ShardAssignment { node_id: String::new(), shard_index: 0, shard_start: 0, shard_end: 0 }
    }
}

impl ShardAssignment {
    /// The number of items in the shard; a shard whose end precedes its start
    /// is empty.
    pub fn size(&self) -> (r: u64)
        ensures
            r == (if self.shard_end >= self.shard_start {
                self.shard_end - self.shard_start
            } else {
                0
            }),
    {
        self.shard_end.saturating_sub(self.shard_start)
    }

    /// A copy of this assignment.
    pub fn duplicate(&self) -> (r: Self)
        ensures
            r@ == self@,
    {
        ShardAssignment {
            node_id: self.node_id.clone(),
            shard_index: self.shard_index,
            shard_start: self.shard_start,
            shard_end: self.shard_end,
        }
    }
}

/// The shard handed to a node that takes over a failed node's work: the first
/// thousand items at index zero.
pub open spec fn reclaim_shard(node_id: Seq<char>) -> ShardAssignmentView {
    ShardAssignmentView { node_id, shard_index: 0, shard_start: 0, shard_end: 1000 }
}

/// Builds the takeover shard for `node_id`.
fn new_reclaim_shard(node_id: &str) -> (r: ShardAssignment)
    ensures
        r@ == reclaim_shard(node_id@),
{
    ShardAssignment { node_id: String::from_str(node_id), shard_index: 0u32, shard_start: 0u64, shard_end: 1000u64 }
}

/// Where a node stands with the coordinator.
#[derive(Debug, Clone, PartialEq, Eq)]
pub enum SlotState {
    InFlight { last_heartbeat: Instant },
    Available { since: Instant },
    Failed { unclaimed_shard: Option<ShardAssignment> },
}

impl SlotState {
    /// Whether the node is idle and can take work.
    pub fn is_available(&self) -> (r: bool)
        ensures
            r == self is Available,
    {
        match self {
            SlotState::Available { .. } => true,
            _ => false,
        }
    }

    /// Whether the node is working on a shard.
    pub fn is_in_flight(&self) -> (r: bool)
        ensures
            r == self is InFlight,
    {
        match self {
            SlotState::InFlight { .. } => true,
            _ => false,
        }
    }
}

/// Whether the node is working on a shard.
fn slot_state_is_in_flight(state: &SlotState) -> (r: bool)
    ensures
        r == state is InFlight,
{
    match state {
        SlotState::InFlight { .. } => true,
        _ => false,
    }
}

/// Coordinator-side tracking of one node.
#[derive(Debug, Clone)]
pub struct NodeSlot {
    pub node_id: String,
    pub state: SlotState,
}

/// Marks an in-flight slot as failed, leaving the takeover shard for
/// `node_id` unclaimed, and returns that shard; any other slot is unchanged.
fn set_slot_to_failed(slot: &mut NodeSlot, node_id: &str) -> (r: Option<ShardAssignment>)
    ensures
        final(slot).node_id == old(slot).node_id,
        old(slot).state is InFlight ==> (r matches Some(s) && s@ == reclaim_shard(node_id@)),
        old(slot).state is InFlight ==> (final(slot).state matches SlotState::Failed {
            unclaimed_shard: Some(u),
        } && u@ == reclaim_shard(node_id@)),
        !(old(slot).state is InFlight) ==> r is None && final(slot).state == old(slot).state,
{
    if slot_state_is_in_flight(&slot.state) {
        let shard = new_reclaim_shard(node_id);
        let copy = shard.duplicate();
        slot.state = SlotState::Failed { unclaimed_shard: Some(copy) };
        Some(shard)
    } else {
        None
    }
}

/// Information about a node's GPU capabilities.
#[derive(Debug, Clone, PartialEq)]
pub struct NodeInfo {
    pub node_id: String,
    pub gpu_name: String,
    pub gpu_vram_mb: u64,
    pub gpu_compute_capability: String,
    pub available: bool,
}

/// How a [`NodeInfo`] is displayed: the first twelve bytes of the node id,
/// then the GPU's name, memory and compute capability.
pub open spec fn node_info_text(n: NodeInfo) -> Seq<char> {
    byte_prefix(n.node_id@, 12) + " | "@ + n.gpu_name@ + " ("@ + decimal_chars(n.gpu_vram_mb as nat)
        + " MB VRAM, compute "@ + n.gpu_compute_capability@ + ")"@
}

impl NodeInfo {
    /// The human-readable description of the node. The node id is cut after
    /// its first twelve bytes, which must end on a character boundary.
    pub fn message(&self) -> (r: String)
        requires
            is_byte_boundary(self.node_id@, 12),
        ensures
            r@ == node_info_text(*self),
    {
        let mut s = prefix_of_bytes(self.node_id.as_str(), 12);
        s.append(" | ");
        s.append(self.gpu_name.as_str());
        s.append(" (");
        push_decimal(&mut s, self.gpu_vram_mb);
        s.append(" MB VRAM, compute ");
        s.append(self.gpu_compute_capability.as_str());
        s.append(")");
        proof {
            assert(s@ =~= node_info_text(*self));
        }
        s
    }
}

/// Whether `slots[i]` is the first slot of node `id`.
pub open spec fn is_first_slot(slots: Seq<NodeSlot>, id: Seq<char>, i: int) -> bool {
    &&& 0 <= i < slots.len()
    &&& slots[i].node_id@ == id
    &&& forall|j: int| 0 <= j < i ==> (#[trigger] slots[j]).node_id@ != id
}

/// Whether no slot belongs to node `id`.
pub open spec fn has_no_slot(slots: Seq<NodeSlot>, id: Seq<char>) -> bool {
    forall|j: int| 0 <= j < slots.len() ==> (#[trigger] slots[j]).node_id@ != id
}

/// Coordinator state across all connected nodes: the shards waiting to be
/// handed out, and one slot per node.
pub struct CoordState {
    pub pending: VecDeque<ShardAssignment>,
    pub slots: Vec<NodeSlot>,
}

impl Default for CoordState {
    /// No pending shards and no slots.
    fn default() -> (r: Self)
        ensures
            r.pending@.len() == 0,
            r.slots@.len() == 0,
    {
        CoordState { pending: VecDeque::new(), slots: Vec::new() }
    }
}

/// The position of node `id`'s first slot.
fn find_slot(slots: &Vec<NodeSlot>, id: &str) -> (r: Option<usize>)
    ensures
        r matches Some(i) ==> is_first_slot(slots@, id@, i as int),
        r is None ==> has_no_slot(slots@, id@),
{
    let key = String::from_str(id);
    let mut i: usize = 0;
    while i < slots.len()
        invariant
            i <= slots@.len(),
            key@ == id@,
            forall|j: int| 0 <= j < i ==> (#[trigger] slots@[j]).node_id@ != id@,
        decreases slots@.len() - i,
    {
        if slots[i].node_id == key {
            return Some(i);
        }
        i = i + 1;
    }
    None
}

/// The node ids of the slots, in order.
pub open spec fn slot_ids(slots: Seq<NodeSlot>) -> Seq<Seq<char>> {
    slots.map_values(|s: NodeSlot| s.node_id@)
}

/// The node ids of a list of node descriptions, in order.
pub open spec fn info_ids(nodes: Seq<NodeInfo>) -> Seq<Seq<char>> {
    nodes.map_values(|n: NodeInfo| n.node_id@)
}

/// Whether `after` is `before` with node `id` given an available slot: its
/// first slot is replaced, or a slot is added at the end when it has none.
pub open spec fn slot_made_available(before: Seq<NodeSlot>, after: Seq<NodeSlot>, id: Seq<char>) -> bool {
    if has_no_slot(before, id) {
        &&& after.len() == before.len() + 1
        &&& after.drop_last() == before
        &&& after.last().node_id@ == id
        &&& after.last().state is Available
    } else {
        exists|i: int|
            #![trigger is_first_slot(before, id, i)]
            is_first_slot(before, id, i) && after == before.update(i, after[i]) && after[i].node_id@
                == id && after[i].state is Available
    }
}

/// Gives node `id` an available slot, replacing its first slot if it has one
/// and adding a slot otherwise.
fn put_available_slot(slots: &mut Vec<NodeSlot>, id: &String)
    ensures
        slot_made_available(old(slots)@, final(slots)@, id@),
{
    let slot = NodeSlot { node_id: id.clone(), state: SlotState::Available { since: instant_now() } };
    match find_slot(slots, id.as_str()) {
        Some(i) => {
            slots.set(i, slot);
            proof {
                assert(slots@ =~= old(slots)@.update(i as int, slots@[i as int]));
                assert(is_first_slot(old(slots)@, id@, i as int));
            }
        },
        None => {
            slots.push(slot);
            proof {
                assert(slots@.drop_last() =~= old(slots)@);
            }
        },
    }
}

/// Making a slot available keeps the node ids free of repeats, adds `id` to
/// them, and leaves every other slot as it was or available.
pub proof fn lemma_slot_made_available(before: Seq<NodeSlot>, after: Seq<NodeSlot>, id: Seq<char>)
    requires
        slot_made_available(before, after, id),
        slot_ids(before).no_duplicates(),
    ensures
        slot_ids(after).no_duplicates(),
        slot_ids(after).to_set() == slot_ids(before).to_set().insert(id),
        forall|j: int|
            0 <= j < after.len() ==> (#[trigger] after[j]).state is Available || after[j] == before[j],
{
    if has_no_slot(before, id) {
        assert(slot_ids(after) =~= slot_ids(before).push(id));
        slot_ids(before).lemma_push_to_set_commute(id);
        assert(!slot_ids(before).contains(id)) by {
            if slot_ids(before).contains(id) {
                let k = choose|k: int| 0 <= k < slot_ids(before).len() && slot_ids(before)[k] == id;
                assert(before[k].node_id@ == id);
            }
        }
        assert forall|j: int| 0 <= j < after.len() implies (#[trigger] after[j]).state is Available
            || after[j] == before[j] by {
            if j < before.len() {
                assert(after[j] == after.drop_last()[j]);
            }
        }
    } else {
        let i = choose|i: int| #![trigger is_first_slot(before, id, i)]
            is_first_slot(before, id, i) && after == before.update(i, after[i]) && after[i].node_id@
                == id && after[i].state is Available;
        assert(slot_ids(after) =~= slot_ids(before));
        assert(slot_ids(before).contains(id)) by {
            assert(slot_ids(before)[i] == id);
        }
        assert(slot_ids(before).to_set().insert(id) =~= slot_ids(before).to_set());
    }
}

/// Two first slots of the same node are the same slot.
proof fn lemma_first_slot_unique(slots: Seq<NodeSlot>, id: Seq<char>, i: int)
    requires
        is_first_slot(slots, id, i),
    ensures
        forall|j: int| #[trigger] is_first_slot(slots, id, j) ==> j == i,
{
    assert forall|j: int| #[trigger] is_first_slot(slots, id, j) implies j == i by {
        if j < i {
            assert(slots[j].node_id@ != id);
        } else if i < j {
            assert(slots[i].node_id@ != id);
        }
    }
}

/// Whether node `id` has a slot and its first slot is in flight.
pub open spec fn first_slot_in_flight(slots: Seq<NodeSlot>, id: Seq<char>) -> bool {
    exists|i: int|
        #![trigger is_first_slot(slots, id, i)]
        is_first_slot(slots, id, i) && slots[i].state is InFlight
}

/// Whether `after` differs from `before` at most in node `id`'s first slot,
/// which keeps its node id.
pub open spec fn slot_replaced(before: Seq<NodeSlot>, after: Seq<NodeSlot>, id: Seq<char>) -> bool {
    exists|i: int|
        #![trigger is_first_slot(before, id, i)]
        is_first_slot(before, id, i) && after == before.update(i, after[i]) && after[i].node_id@ == id
}

/// What marking node `id` as failed leaves behind: when `fails`, its first
/// slot is failed with the takeover shard unclaimed and that shard is
/// returned; otherwise nothing changes and nothing is returned.
pub open spec fn failed_outcome(
    before: Seq<NodeSlot>,
    after: Seq<NodeSlot>,
    id: Seq<char>,
    fails: bool,
    r: Option<ShardAssignment>,
) -> bool {
    if fails {
        &&& slot_replaced(before, after, id)
        &&& forall|i: int| #[trigger] is_first_slot(before, id, i) ==> (after[i].state matches SlotState::Failed {
            unclaimed_shard: Some(u),
        } && u@ == reclaim_shard(id))
        &&& r matches Some(s) && s@ == reclaim_shard(id)
    } else {
        r is None && after == before
    }
}

/// What marking node `id` as failed leaves behind when `elapsed_secs` have
/// passed since it was last seen: it fails when that exceeds
/// `threshold_secs` and its first slot is in flight.
pub open spec fn failed_after_elapsed(
    before: Seq<NodeSlot>,
    after: Seq<NodeSlot>,
    id: Seq<char>,
    elapsed_secs: u64,
    threshold_secs: u64,
    r: Option<ShardAssignment>,
) -> bool {
    failed_outcome(before, after, id, elapsed_secs > threshold_secs && first_slot_in_flight(before, id), r)
}

impl CoordState {
    /// The first node gets a pending assignment of shard zero (items 0 to
    /// 1000), and every node gets one available slot.
    pub fn new(initial_nodes: &[NodeInfo]) -> (r: Self)
        ensures
            initial_nodes@.len() == 0 ==> r.pending@.len() == 0,
            initial_nodes@.len() > 0 ==> r.pending@.len() == 1 && r.pending@[0]@ == reclaim_shard(
                initial_nodes@[0].node_id@,
            ),
            forall|i: int| 0 <= i < r.slots@.len() ==> (#[trigger] r.slots@[i]).state is Available,
            slot_ids(r.slots@).no_duplicates(),
            slot_ids(r.slots@).to_set() == info_ids(initial_nodes@).to_set(),
    {
        let mut pending: VecDeque<ShardAssignment> = VecDeque::new();
        let mut slots: Vec<NodeSlot> = Vec::new();
        if initial_nodes.len() > 0 {
            pending.push_back(new_reclaim_shard(initial_nodes[0].node_id.as_str()));
        }
        let mut k: usize = 0;
        while k < initial_nodes.len()
            invariant
                k <= initial_nodes@.len(),
                forall|i: int| 0 <= i < slots@.len() ==> (#[trigger] slots@[i]).state is Available,
                slot_ids(slots@).no_duplicates(),
                slot_ids(slots@).to_set() == info_ids(initial_nodes@.subrange(0, k as int)).to_set(),
            decreases initial_nodes@.len() - k,
        {
            let ghost before = slots@;
            let id = &initial_nodes[k].node_id;
            put_available_slot(&mut slots, id);
            proof {
                lemma_slot_made_available(before, slots@, id@);
                assert(info_ids(initial_nodes@.subrange(0, k + 1)) =~= info_ids(
                    initial_nodes@.subrange(0, k as int),
                ).push(id@));
                info_ids(initial_nodes@.subrange(0, k as int)).lemma_push_to_set_commute(id@);
            }
            k = k + 1;
        }
        proof {
            assert(initial_nodes@.subrange(0, initial_nodes@.len() as int) =~= initial_nodes@);
        }
        CoordState { pending, slots }
    }

    /// Registers a node: it gets an available slot, replacing the slot it had.
    pub fn register_node(&mut self, node_info: &NodeInfo)
        ensures
            slot_made_available(old(self).slots@, final(self).slots@, node_info.node_id@),
            final(self).pending@ == old(self).pending@,
    {
        put_available_slot(&mut self.slots, &node_info.node_id);
    }

    /// Whether some node is working on a shard.
    pub fn has_in_flight_nodes(&self) -> (r: bool)
        ensures
            r == exists|i: int| 0 <= i < self.slots@.len() && (#[trigger] self.slots@[i]).state is InFlight,
    {
        let mut i: usize = 0;
        while i < self.slots.len()
            invariant
                i <= self.slots@.len(),
                forall|j: int| 0 <= j < i ==> !((#[trigger] self.slots@[j]).state is InFlight),
            decreases self.slots@.len() - i,
        {
            if slot_state_is_in_flight(&self.slots[i].state) {
                return true;
            }
            i = i + 1;
        }
        false
    }

    /// The slot of node `node_id`, to be changed in place.
    pub fn get_available_slot_mut(&mut self, node_id: &str) -> (r: Option<&mut NodeSlot>)
        ensures
            final(self).pending@ == old(self).pending@,
            r is None ==> has_no_slot(old(self).slots@, node_id@) && final(self).slots@ == old(self).slots@,
            r matches Some(s) ==> exists|i: int|
                #![trigger is_first_slot(old(self).slots@, node_id@, i)]
                is_first_slot(old(self).slots@, node_id@, i) && *s == old(self).slots@[i]
                    && final(self).slots@ == old(self).slots@.update(i, *final(s)),
    {
        match find_slot(&self.slots, node_id) {
            Some(i) => Some(&mut self.slots[i]),
            None => None,
        }
    }

    /// Takes the next shard waiting to be handed out.
    pub fn pop_pending_assignment(&mut self) -> (r: Option<ShardAssignment>)
        ensures
            final(self).slots@ == old(self).slots@,
            old(self).pending@.len() == 0 ==> r is None && final(self).pending@ == old(self).pending@,
            old(self).pending@.len() > 0 ==> r == Some(old(self).pending@[0])
                && final(self).pending@ == old(self).pending@.drop_first(),
    {
        self.pending.pop_front()
    }

    /// Records that node `node_id` finished its shard: its slot goes from in
    /// flight to available. Returns whether that happened; a node without a
    /// slot, or whose slot is not in flight, is left alone.
    pub fn mark_completed(&mut self, node_id: &str) -> (r: bool)
        ensures
            r == first_slot_in_flight(old(self).slots@, node_id@),
            r ==> slot_replaced(old(self).slots@, final(self).slots@, node_id@),
            r ==> forall|i: int| is_first_slot(old(self).slots@, node_id@, i)
                ==> (#[trigger] final(self).slots@[i]).state is Available,
            !r ==> final(self).slots@ == old(self).slots@,
            final(self).pending@ == old(self).pending@,
    {
        match find_slot(&self.slots, node_id) {
            Some(i) => {
                if slot_state_is_in_flight(&self.slots[i].state) {
                    let slot = NodeSlot {
                        node_id: self.slots[i].node_id.clone(),
                        state: SlotState::Available { since: instant_now() },
                    };
                    self.slots.set(i, slot);
                    proof {
                        assert(self.slots@ =~= old(self).slots@.update(i as int, self.slots@[i as int]));
                        assert(is_first_slot(old(self).slots@, node_id@, i as int));
                        lemma_first_slot_unique(old(self).slots@, node_id@, i as int);
                    }
                    true
                } else {
                    proof {
                        lemma_first_slot_unique(old(self).slots@, node_id@, i as int);
                    }
                    false
                }
            },
            None => false,
        }
    }

    /// Marks node `node_id` as failed when `elapsed_secs` since it was last
    /// seen exceeds `timeout_threshold_secs` and its slot is in flight; the
    /// takeover shard left unclaimed is returned. Otherwise nothing changes.
    pub fn mark_failed_after(&mut self, node_id: &str, elapsed_secs: u64, timeout_threshold_secs: u64) -> (r: Option<ShardAssignment>)
        ensures
            final(self).pending@ == old(self).pending@,
            failed_outcome(
                old(self).slots@,
                final(self).slots@,
                node_id@,
                elapsed_secs > timeout_threshold_secs && first_slot_in_flight(old(self).slots@, node_id@),
                r,
            ),
    {
        if elapsed_secs <= timeout_threshold_secs {
            return None;
        }
        match find_slot(&self.slots, node_id) {
            Some(i) => {
                proof {
                    lemma_first_slot_unique(old(self).slots@, node_id@, i as int);
                }
                let r = set_slot_to_failed(&mut self.slots[i], node_id);
                proof {
                    assert(self.slots@ =~= old(self).slots@.update(i as int, self.slots@[i as int]));
                    assert(is_first_slot(old(self).slots@, node_id@, i as int));
                    if !(old(self).slots@[i as int].state is InFlight) {
                        assert(self.slots@[i as int] == old(self).slots@[i as int]);
                        assert(self.slots@ =~= old(self).slots@);
                    }
                }
                r
            },
            None => None,
        }
    }

    /// Marks node `node_id` as failed when more than `timeout_threshold_secs`
    /// whole seconds have passed since `last_seen` and its slot is in flight,
    /// returning the takeover shard left unclaimed. The clock gives the
    /// current instant; the result is what [`CoordState::mark_failed_after`]
    /// gives for the whole seconds from `last_seen` to it.
    pub fn mark_failed_if_needed(&mut self, node_id: &str, last_seen: Instant, timeout_threshold_secs: u64) -> (r: Option<ShardAssignment>)
        ensures
            final(self).pending@ == old(self).pending@,
            exists|now: Instant|
                #[trigger] failed_after_elapsed(
                    old(self).slots@,
                    final(self).slots@,
                    node_id@,
                    instant_secs_since(now, last_seen),
                    timeout_threshold_secs,
                    r,
                ),
    {
        let now = instant_now();
        let elapsed = instant_secs_between(&now, &last_seen);
        let r = self.mark_failed_after(node_id, elapsed, timeout_threshold_secs);
        proof {
            assert(failed_after_elapsed(
                old(self).slots@,
                self.slots@,
                node_id@,
                instant_secs_since(now, last_seen),
                timeout_threshold_secs,
                r,
            ));
        }
        r
    }
}

/// Where the node keeps its coordinator endpoint, for reconnecting after a
/// restart.
#[derive(Debug, Clone)]
pub struct CoordEndpointCache {
    pub did_hash_address: String,
    pub public_key_or_secret: Option<String>,
}

/// `base` with `component` appended, as `PathBuf::push` does on Unix: an
/// absolute `component` replaces `base`; otherwise a separator goes between
/// them unless `base` is empty or already ends in one.
pub open spec fn path_join(base: Seq<char>, component: Seq<char>) -> Seq<char> {
    if component.len() > 0 && component[0] == '/' {
        component
    } else if base.len() == 0 || base.last() == '/' {
        base + component
    } else {
        base + seq!['/'] + component
    }
}

/// Appends `component` to the path `path`.
pub fn push_component(path: &mut String, component: &str)
    ensures
        final(path)@ == path_join(old(path)@, component@),
{
    let m = component.unicode_len();
    if m > 0 && component.get_char(0) == '/' {
        *path = String::from_str(component);
        return;
    }
    let n = path.as_str().unicode_len();
    if n > 0 && path.as_str().get_char(n - 1) != '/' {
        path.append("/");
    }
    path.append(component);
    proof {
        reveal_strlit("/");
        assert(path@ =~= path_join(old(path)@, component@));
    }
}

/// The file in which a node keeps its shard state: `<home>/.drift/shard-<id>`
/// when a home directory is known, `/tmp/drift-shard-<id>` otherwise.
pub open spec fn shard_cache_path(home: Option<Seq<char>>, node_id: Seq<char>) -> Seq<char> {
    match home {
        Some(h) => path_join(path_join(h, ".drift"@), "shard-"@ + node_id),
        None => "/tmp/drift-shard-"@ + node_id,
    }
}

/// The file in which a node keeps its coordinator endpoint:
/// `<home>/.drift/coordinator.toml` when a home directory is known,
/// `/tmp/drift-coordinator.toml` otherwise.
pub open spec fn coordinator_cache_path(home: Option<Seq<char>>) -> Seq<char> {
    match home {
        Some(h) => path_join(path_join(h, ".drift"@), "coordinator.toml"@),
        None => "/tmp/drift-coordinator.toml"@,
    }
}

/// Builds the path of node `node_id`'s shard state file under `home`.
pub fn shard_cache_path_in(home: Option<&str>, node_id: &str) -> (r: String)
    ensures
        r@ == shard_cache_path(
            match home {
                Some(h) => Some(h@),
                None => None,
            },
            node_id@,
        ),
{
    match home {
        Some(h) => {
            let mut p = String::from_str(h);
            push_component(&mut p, ".drift");
            let name = crate::text::concat_str("shard-", node_id);
            push_component(&mut p, name.as_str());
            p
        },
        None => crate::text::concat_str("/tmp/drift-shard-", node_id),
    }
}

impl CoordEndpointCache {
    /// Builds the path of the coordinator endpoint file under `home`.
    pub fn cache_path_in(home: Option<&str>) -> (r: String)
        ensures
            r@ == coordinator_cache_path(
                match home {
                    Some(h) => Some(h@),
                    None => None,
                },
            ),
    {
        match home {
            Some(h) => {
                let mut p = String::from_str(h);
                push_component(&mut p, ".drift");
                push_component(&mut p, "coordinator.toml");
                p
            },
            None => String::from_str("/tmp/drift-coordinator.toml"),
        }
    }
}

/// Checkpoint metadata.
#[derive(Debug, Clone, PartialEq)]
pub struct CheckpointInfo {
    pub step: u64,
    pub path: String,
    pub nodes_contributed: Vec<String>,
}

/// Git commit verification message: a node reports the commit it checked out
/// and its signature over it.
#[derive(Debug, Clone, PartialEq)]
pub struct RepoCommit {
    pub commit: String,
    pub repo_url: String,
    pub signature: Vec<u8>,
}

/// Training cancellation message from coordinator.
#[derive(Debug, Clone, PartialEq)]
pub struct TrainingCancel {
    pub reason: String,
    pub time: String,
    pub repo_url: String,
}

/// How a [`TrainingCancel`] is displayed.
pub open spec fn training_cancel_text(reason: Seq<char>, time: Seq<char>, repo_url: Seq<char>) -> Seq<char> {
    "TrainingCancel(reason="@ + reason + ", time="@ + time + ", repo="@ + repo_url + ")"@
}

impl TrainingCancel {
    /// The human-readable description of the cancellation.
    pub fn message(&self) -> (r: String)
        ensures
            r@ == training_cancel_text(self.reason@, self.time@, self.repo_url@),
    {
        let mut s = String::new();
        s.append("TrainingCancel(reason=");
        s.append(self.reason.as_str());
        s.append(", time=");
        s.append(self.time.as_str());
        s.append(", repo=");
        s.append(self.repo_url.as_str());
        s.append(")");
        proof {
            assert(s@ =~= training_cancel_text(self.reason@, self.time@, self.repo_url@));
        }
        s
    }
}

} // verus!

verus! {

/// Largest message body accepted from the wire (64 MiB).
pub const MAX_MESSAGE_SIZE: usize = 67108864;

/// The four big-endian bytes of `n`.
pub open spec fn be_bytes(n: u32) -> Seq<u8> {
    seq![(n / 16777216) as u8, (n / 65536 % 256) as u8, (n / 256 % 256) as u8, (n % 256) as u8]
}

/// The number that four big-endian bytes stand for.
pub open spec fn be_value(b: Seq<u8>) -> int {
    b[0] * 16777216 + b[1] * 65536 + b[2] * 256 + b[3]
}

/// A message on the wire: the body's length as four big-endian bytes (the
/// length taken modulo 2^32), then the body.
pub open spec fn framed(body: Seq<u8>) -> Seq<u8> {
    be_bytes(body.len() as u32) + body
}

/// Prefixes `body` with its length, as it is sent on the wire.
pub fn frame_message(body: &[u8]) -> (r: Vec<u8>)
    ensures
        r@ == framed(body@),
{
    let n: u32 = body.len() as u32;
    let mut buf: Vec<u8> = Vec::new();
    buf.push((n / 16777216) as u8);
    buf.push((n / 65536 % 256) as u8);
    buf.push((n / 256 % 256) as u8);
    buf.push((n % 256) as u8);
    push_all(&mut buf, body);
    proof {
        assert(buf@ =~= framed(body@));
    }
    buf
}

/// Why a received length prefix was refused.
#[derive(Debug, Clone, PartialEq, Eq)]
pub enum FrameError {
    TooLarge { len: usize },
}

/// The text each [`FrameError`] displays.
pub open spec fn frame_error_text(e: FrameError) -> Seq<char> {
    match e {
        FrameError::TooLarge { len } => "message too large: "@ + crate::text::decimal_chars(len as nat)
            + " bytes"@,
    }
}

impl FrameError {
    /// The human-readable description of the error.
    pub fn message(&self) -> (r: String)
        ensures
            r@ == frame_error_text(*self),
    {
        let mut s = String::new();
        match self {
            FrameError::TooLarge { len } => {
                s.append("message too large: ");
                crate::text::push_decimal(&mut s, *len as u64);
                s.append(" bytes");
            },
        }
        proof {
            assert(s@ =~= frame_error_text(*self));
        }
        s
    }
}

/// Reads the body length from a received four-byte prefix; a length above
/// [`MAX_MESSAGE_SIZE`] is refused.
pub fn frame_length(prefix: [u8; 4]) -> (r: Result<usize, FrameError>)
    ensures
        be_value(prefix@) <= MAX_MESSAGE_SIZE ==> r == Ok::<usize, FrameError>(be_value(prefix@) as usize),
        be_value(prefix@) > MAX_MESSAGE_SIZE ==> r == Err::<usize, FrameError>(
            FrameError::TooLarge { len: be_value(prefix@) as usize },
        ),
{
    let len: u64 = (prefix[0] as u64) * 16777216 + (prefix[1] as u64) * 65536 + (prefix[2] as u64) * 256
        + (prefix[3] as u64);
    assert(len == be_value(prefix@));
    if len > MAX_MESSAGE_SIZE as u64 {
        Err(FrameError::TooLarge { len: len as usize })
    } else {
        Ok(len as usize)
    }
}

/// The length prefix of a framed body gives back the body's length, and the
/// body follows it unchanged.
pub proof fn lemma_frame_roundtrip(body: Seq<u8>)
    requires
        body.len() <= u32::MAX,
    ensures
        framed(body).len() == body.len() + 4,
        be_value(framed(body).subrange(0, 4)) == body.len(),
        framed(body).subrange(4, framed(body).len() as int) == body,
{
    let n = body.len() as u32;
    assert(framed(body).subrange(0, 4) =~= be_bytes(n));
    assert(framed(body).subrange(4, framed(body).len() as int) =~= body);
    let b = be_bytes(n);
    assert(b[0] * 16777216 + b[1] * 65536 + b[2] * 256 + b[3] == n) by (nonlinear_arith)
        requires
            b[0] == n / 16777216,
            b[1] == n / 65536 % 256,
            b[2] == n / 256 % 256,
            b[3] == n % 256,
            n < 4294967296,
    ;
}

} // verus!

verus! {

/// Protocol identifier of coordinator-to-node traffic: the bytes of `drift/0`.
pub const DRIFT_ALPN: [u8; 7] = [100u8, 114u8, 105u8, 102u8, 116u8, 47u8, 48u8];

/// Protocol identifier of node-to-node ring all-reduce traffic: the bytes of
/// `drift-ring/0`.
pub const DRIFT_RING_ALPN: [u8; 12] = [
    100u8,
    114u8,
    105u8,
    102u8,
    116u8,
    45u8,
    114u8,
    105u8,
    110u8,
    103u8,
    47u8,
    48u8,
];

} // verus!
