//! Node side of the authentication protocol: signing and sending the auth
//! message, checking the coordinator's aggregate, retry decisions, and
//! sequence-number checks.
use vstd::prelude::*;
use crate::auth::messages::{
    AuthMessage, SignedAuthMessage, SignedAuthMessageView, AggregateAuthMessage,
};
use crate::auth::crypto::{CryptoError, ed25519_signature, ed25519_public_key, ed25519_key_decodes, ed25519_public_key_of};
use crate::auth::aggregator::crypto_error_text;
use crate::text::{find_string, string_views, push_decimal, decimal_chars};
use crate::platform::random_secret_key;

verus! {

/// Failures on the node side of authentication.
#[derive(Debug)]
pub enum NodeError {
    SimulatedFailure,
    SignFailed(CryptoError),
    SendFailed(String),
    RepoHashMismatch,
    ThresholdNotMet,
    NodeDidNotParticipate(String),
    UnknownNode(String),
    DuplicateSequence(u64),
    SequenceWentBackwards { expected: u64, received: u64 },
    UnexpectedSequence { expected: u64, received: u64 },
}

/// The text each [`NodeError`] displays.
pub open spec fn node_error_text(e: NodeError) -> Seq<char> {
    match e {
        NodeError::SimulatedFailure => "simulated failure"@,
        NodeError::SignFailed(_) => "failed to sign auth message"@,
        NodeError::SendFailed(_) => "failed to send auth message"@,
        NodeError::RepoHashMismatch => "repo hash mismatch"@,
        NodeError::ThresholdNotMet => "threshold not met"@,
        NodeError::NodeDidNotParticipate(n) => "node "@ + n@ + " did not participate"@,
        NodeError::UnknownNode(n) => "unknown node in aggregate: "@ + n@,
        NodeError::DuplicateSequence(s) => "duplicate sequence number: "@ + decimal_chars(s as nat),
        NodeError::SequenceWentBackwards { expected, received } => "sequence went backwards from "@
            + decimal_chars(expected as nat) + " to "@ + decimal_chars(received as nat),
        NodeError::UnexpectedSequence { expected, received } => "expected sequence "@ + decimal_chars(
            expected as nat,
        ) + ", got "@ + decimal_chars(received as nat),
    }
}

impl NodeError {
    /// The human-readable description of the error.
    pub fn message(&self) -> (r: String)
        ensures
            r@ == node_error_text(*self),
    {
        let mut s = String::new();
        match self {
            NodeError::SimulatedFailure => {
                s.append("simulated failure");
            },
            NodeError::SignFailed(_) => {
                s.append("failed to sign auth message");
            },
            NodeError::SendFailed(_) => {
                s.append("failed to send auth message");
            },
            NodeError::RepoHashMismatch => {
                s.append("repo hash mismatch");
            },
            NodeError::ThresholdNotMet => {
                s.append("threshold not met");
            },
            NodeError::NodeDidNotParticipate(n) => {
                s.append("node ");
                s.append(n.as_str());
                s.append(" did not participate");
            },
            NodeError::UnknownNode(n) => {
                s.append("unknown node in aggregate: ");
                s.append(n.as_str());
            },
            NodeError::DuplicateSequence(q) => {
                s.append("duplicate sequence number: ");
                push_decimal(&mut s, *q);
            },
            NodeError::SequenceWentBackwards { expected, received } => {
                s.append("sequence went backwards from ");
                push_decimal(&mut s, *expected);
                s.append(" to ");
                push_decimal(&mut s, *received);
            },
            NodeError::UnexpectedSequence { expected, received } => {
                s.append("expected sequence ");
                push_decimal(&mut s, *expected);
                s.append(", got ");
                push_decimal(&mut s, *received);
            },
        }
        proof {
            assert(s@ =~= node_error_text(*self));
        }
        s
    }
}

/// A stand-in coordinator that records the signed messages it receives and
/// can be told to fail a number of times first.
pub struct MockCoordinator {
    pub messages: Vec<SignedAuthMessage>,
    pub should_fail: bool,
    pub fail_count: usize,
}

impl MockCoordinator {
    /// A coordinator that accepts every message.
    pub fn new() -> (r: Self)
        ensures
            r.messages@.len() == 0,
            !r.should_fail,
            r.fail_count == 0,
    {
        MockCoordinator { messages: Vec::new(), should_fail: false, fail_count: 0 }
    }

    /// A coordinator that rejects the first `failures` messages.
    pub fn with_fail_after(failures: usize) -> (r: Self)
        ensures
            r.messages@.len() == 0,
            r.should_fail,
            r.fail_count == failures,
    {
        MockCoordinator { messages: Vec::new(), should_fail: true, fail_count: failures }
    }

    /// The messages received so far.
    pub fn get_messages(&self) -> (r: &Vec<SignedAuthMessage>)
        ensures
            r == &self.messages,
    {
        &self.messages
    }

    /// Receives a signed message: while failures remain it rejects the message
    /// and counts one failure down; otherwise it records the message.
    pub fn send_signed_auth(&mut self, signed: SignedAuthMessage) -> (r: Result<(), NodeError>)
        ensures
            final(self).should_fail == old(self).should_fail,
            if old(self).should_fail && old(self).fail_count > 0 {
                &&& r == Err::<(), NodeError>(NodeError::SimulatedFailure)
                &&& final(self).fail_count == old(self).fail_count - 1
                &&& final(self).messages@ == old(self).messages@
            } else {
                &&& r is Ok
                &&& final(self).fail_count == old(self).fail_count
                &&& final(self).messages@ == old(self).messages@.push(signed)
            },
    {
        if self.should_fail && self.fail_count > 0 {
            self.fail_count = self.fail_count - 1;
            return Err(NodeError::SimulatedFailure);
        }
        self.messages.push(signed);
        Ok(())
    }
}

impl Default for MockCoordinator {
    fn default() -> (r: Self)
        ensures
            r.messages@.len() == 0,
            !r.should_fail,
            r.fail_count == 0,
    {
        Self::new()
    }
}

/// A verifier that knows the valid public keys, node ids and repository hash.
pub struct MockVerifier {
    pub valid_pubkeys: Vec<[u8; 32]>,
    pub valid_node_ids: Vec<String>,
    pub valid_repo_hash: String,
}

impl MockVerifier {
    /// A verifier with the given valid keys, node ids and repository hash.
    pub fn new(valid_pubkeys: Vec<[u8; 32]>, valid_node_ids: Vec<String>, valid_repo_hash: String) -> (r:
        Self)
        ensures
            r.valid_pubkeys == valid_pubkeys,
            r.valid_node_ids == valid_node_ids,
            r.valid_repo_hash == valid_repo_hash,
    {
        MockVerifier { valid_pubkeys, valid_node_ids, valid_repo_hash }
    }
}

impl Default for MockVerifier {
    fn default() -> (r: Self)
        ensures
            r.valid_pubkeys@.len() == 0,
            r.valid_node_ids@.len() == 0,
            r.valid_repo_hash@.len() == 0,
    {
        MockVerifier { valid_pubkeys: Vec::new(), valid_node_ids: Vec::new(), valid_repo_hash: String::new() }
    }
}

/// Signs a fresh auth message (current time, random nonce) for `node_id` and
/// sends it to the coordinator.
pub fn sign_and_send_auth(
    node_id: &str,
    repo_hash: &str,
    sequence: u64,
    keypair: &[u8; 32],
    coordinator: &mut MockCoordinator,
) -> (r: Result<(), NodeError>)
    ensures
        final(coordinator).should_fail == old(coordinator).should_fail,
        if old(coordinator).should_fail && old(coordinator).fail_count > 0 {
            &&& r matches Err(NodeError::SendFailed(m)) && m@ == "simulated failure"@
            &&& final(coordinator).fail_count == old(coordinator).fail_count - 1
            &&& final(coordinator).messages@ == old(coordinator).messages@
        } else {
            &&& r is Ok
            &&& final(coordinator).fail_count == old(coordinator).fail_count
            &&& final(coordinator).messages@.len() == old(coordinator).messages@.len() + 1
            &&& final(coordinator).messages@.drop_last() == old(coordinator).messages@
            &&& sent_by(final(coordinator).messages@.last()@, node_id@, repo_hash@, sequence, keypair@)
        },
{
    let message = AuthMessage::new(node_id, repo_hash, sequence);
    let signed = match SignedAuthMessage::sign(&message, keypair) {
        Ok(s) => s,
        Err(e) => return Err(NodeError::SignFailed(e)),
    };
    match coordinator.send_signed_auth(signed) {
        Ok(()) => {
            proof {
                assert(coordinator.messages@.drop_last() =~= old(coordinator).messages@);
            }
            Ok(())
        },
        Err(e) => Err(NodeError::SendFailed(e.message())),
    }
}

/// Whether `m` is an auth message from `node_id` about `repo_hash` with the
/// given sequence number, signed with `secret`.
pub open spec fn sent_by(
    m: SignedAuthMessageView,
    node_id: Seq<char>,
    repo_hash: Seq<char>,
    sequence: u64,
    secret: Seq<u8>,
) -> bool {
    &&& m.node_id == node_id
    &&& m.message.node_id == node_id
    &&& m.message.repo_hash == repo_hash
    &&& m.message.sequence == sequence
    &&& m.signature == ed25519_signature(secret, m.message.payload())
}

/// Whether every item is in `pool`.
pub open spec fn all_present(items: Seq<Seq<char>>, pool: Seq<Seq<char>>) -> bool {
    forall|j: int| 0 <= j < items.len() ==> pool.contains(#[trigger] items[j])
}

/// Whether `items[i]` is the first item missing from `pool`.
pub open spec fn is_first_absent(items: Seq<Seq<char>>, pool: Seq<Seq<char>>, i: int) -> bool {
    &&& 0 <= i < items.len()
    &&& !pool.contains(items[i])
    &&& forall|j: int| 0 <= j < i ==> pool.contains(#[trigger] items[j])
}

/// The position of the first string of `items` that is not in `pool`.
pub fn first_absent(items: &[String], pool: &Vec<String>) -> (r: Option<usize>)
    ensures
        r matches Some(i) ==> is_first_absent(string_views(items@), string_views(pool@), i as int),
        r is None ==> all_present(string_views(items@), string_views(pool@)),
{
    let mut i: usize = 0;
    while i < items.len()
        invariant
            i <= items@.len(),
            forall|j: int| 0 <= j < i ==> string_views(pool@).contains(#[trigger] string_views(items@)[j]),
        decreases items@.len() - i,
    {
        if find_string(pool, &items[i]).is_none() {
            return Some(i);
        }
        i = i + 1;
    }
    None
}

/// Whether `r` is what checking the aggregate `agg` yields: the repository
/// hash must match, at least `threshold` nodes must have signed, every
/// `required` node must be among the signers (else the first missing one is
/// reported), and every signer must be `known` (else the first unknown one is
/// reported).
pub open spec fn is_aggregate_check_outcome(
    r: Result<(), NodeError>,
    agg: crate::auth::messages::AggregateAuthMessageView,
    expected_repo_hash: Seq<char>,
    required: Seq<Seq<char>>,
    known: Seq<Seq<char>>,
) -> bool {
    if agg.message.repo_hash != expected_repo_hash {
        r == Err::<(), NodeError>(NodeError::RepoHashMismatch)
    } else if agg.node_ids.len() < agg.threshold {
        r == Err::<(), NodeError>(NodeError::ThresholdNotMet)
    } else if !all_present(required, agg.node_ids) {
        r matches Err(NodeError::NodeDidNotParticipate(n)) && exists|i: int|
            is_first_absent(required, agg.node_ids, i) && n@ == #[trigger] required[i]
    } else if !all_present(agg.node_ids, known) {
        r matches Err(NodeError::UnknownNode(n)) && exists|i: int|
            is_first_absent(agg.node_ids, known, i) && n@ == #[trigger] agg.node_ids[i]
    } else {
        r is Ok
    }
}

/// Checks the aggregate broadcast by the coordinator: same repository hash,
/// threshold met, every expected node participated, and every participant is
/// known to the verifier.
pub fn verify_aggregate(
    agg_msg: &AggregateAuthMessage,
    expected_repo_hash: &str,
    expected_node_ids: &[String],
    verifier: &MockVerifier,
) -> (r: Result<(), NodeError>)
    ensures
        is_aggregate_check_outcome(
            r,
            agg_msg@,
            expected_repo_hash@,
            string_views(expected_node_ids@),
            string_views(verifier.valid_node_ids@),
        ),
{
    check_aggregate(agg_msg, expected_repo_hash, expected_node_ids, &verifier.valid_node_ids)
}

/// Checks an aggregate against the expected repository hash, the nodes that
/// must have signed and the nodes that are known.
fn check_aggregate(
    agg_msg: &AggregateAuthMessage,
    expected_repo_hash: &str,
    required: &[String],
    known: &Vec<String>,
) -> (r: Result<(), NodeError>)
    ensures
        is_aggregate_check_outcome(
            r,
            agg_msg@,
            expected_repo_hash@,
            string_views(required@),
            string_views(known@),
        ),
{
    let expected = String::from_str(expected_repo_hash);
    if agg_msg.message.repo_hash != expected {
        return Err(NodeError::RepoHashMismatch);
    }
    if agg_msg.node_ids.len() < agg_msg.threshold {
        return Err(NodeError::ThresholdNotMet);
    }
    proof {
        assert(string_views(agg_msg.node_ids@) =~= agg_msg@.node_ids);
    }
    match first_absent(required, &agg_msg.node_ids) {
        Some(i) => {
            return Err(NodeError::NodeDidNotParticipate(required[i].clone()));
        },
        None => {},
    }
    match first_absent(agg_msg.node_ids.as_slice(), known) {
        Some(i) => {
            return Err(NodeError::UnknownNode(agg_msg.node_ids[i].clone()));
        },
        None => {},
    }
    Ok(())
}

/// What the retry loop does after an attempt.
#[derive(Debug, Clone, Copy, PartialEq, Eq)]
pub enum RetryStep {
    /// The attempt succeeded; stop with success.
    Done,
    /// The last allowed attempt failed; stop with its error.
    GiveUp,
    /// Wait for the retry delay and try again.
    RetryAfterDelay,
}

/// Decides what follows attempt number `attempt` (counting from 1) out of
/// `max_retries`: success ends the loop, a failure on the last attempt gives
/// up, any other failure is retried after the delay.
pub fn retry_step(attempt: u32, max_retries: u32, succeeded: bool) -> (r: RetryStep)
    requires
        1 <= attempt <= max_retries,
    ensures
        succeeded ==> r == RetryStep::Done,
        !succeeded && attempt == max_retries ==> r == RetryStep::GiveUp,
        !succeeded && attempt < max_retries ==> r == RetryStep::RetryAfterDelay,
{
    if succeeded {
        RetryStep::Done
    } else if attempt == max_retries {
        RetryStep::GiveUp
    } else {
        RetryStep::RetryAfterDelay
    }
}

/// The sequence numbers accepted so far and the least one still acceptable.
#[derive(Debug, Clone)]
pub struct SequenceState {
    pub expected: u64,
    pub seen: Vec<u64>,
}

impl Default for SequenceState {
    /// Nothing seen yet; any sequence number from zero on is acceptable.
    fn default() -> (r: Self)
        ensures
            r.expected == 0,
            r.seen@ == Seq::<u64>::empty(),
            sequence_history_ok(r.expected, r.seen@),
    {
        SequenceState { expected: 0, seen: Vec::new() }
    }
}

/// Accepted sequence numbers are strictly increasing, all lie below the next
/// acceptable one, and that one is the last accepted number plus one (zero
/// before any was accepted).
pub open spec fn sequence_history_ok(expected: u64, seen: Seq<u64>) -> bool {
    &&& forall|i: int, j: int| 0 <= i < j < seen.len() ==> seen[i] < seen[j]
    &&& forall|i: int| 0 <= i < seen.len() ==> #[trigger] seen[i] < expected
    &&& seen.len() == 0 ==> expected == 0
    &&& seen.len() > 0 ==> expected == seen.last() + 1
}

/// Whether `received` would overflow the next-expected counter were it
/// accepted: it is the largest `u64`, not seen, and not behind.
pub open spec fn sequence_overflows(received: u64, expected: u64, seen: Seq<u64>) -> bool {
    received == u64::MAX && !seen.contains(received) && received >= expected
}

/// The position of `x` in `v`, if it occurs.
fn contains_u64(v: &Vec<u64>, x: u64) -> (r: bool)
    ensures
        r == v@.contains(x),
{
    let mut i: usize = 0;
    while i < v.len()
        invariant
            i <= v@.len(),
            forall|j: int| 0 <= j < i ==> v@[j] != x,
        decreases v@.len() - i,
    {
        if v[i] == x {
            return true;
        }
        i = i + 1;
    }
    false
}

/// Accepts `received` when it has not been seen and is not behind the next
/// expected number (gaps are allowed); it then becomes seen and the next
/// expected number is one past it. The state is left unchanged on refusal.
pub fn validate_sequence(received: u64, state: &mut SequenceState) -> (r: Result<(), NodeError>)
    requires
        !sequence_overflows(received, old(state).expected, old(state).seen@),
    ensures
        if old(state).seen@.contains(received) {
            &&& r == Err::<(), NodeError>(NodeError::DuplicateSequence(received))
            &&& *final(state) == *old(state)
        } else if received < old(state).expected {
            &&& r == Err::<(), NodeError>(
                NodeError::SequenceWentBackwards { expected: old(state).expected, received },
            )
            &&& *final(state) == *old(state)
        } else {
            &&& r is Ok
            &&& final(state).expected == received + 1
            &&& final(state).seen@ == old(state).seen@.push(received)
        },
        sequence_history_ok(old(state).expected, old(state).seen@) ==> sequence_history_ok(
            final(state).expected,
            final(state).seen@,
        ),
{
    if contains_u64(&state.seen, received) {
        return Err(NodeError::DuplicateSequence(received));
    }
    if received < state.expected {
        return Err(NodeError::SequenceWentBackwards { expected: state.expected, received });
    }
    state.expected = received + 1;
    state.seen.push(received);
    Ok(())
}

/// Accepts exactly the next expected number; it then becomes seen and the
/// next expected number is one past it. The state is left unchanged on
/// refusal.
pub fn validate_sequence_strict(received: u64, state: &mut SequenceState) -> (r: Result<(), NodeError>)
    requires
        !(received == u64::MAX && received == old(state).expected),
    ensures
        if received != old(state).expected {
            &&& r == Err::<(), NodeError>(
                NodeError::UnexpectedSequence { expected: old(state).expected, received },
            )
            &&& *final(state) == *old(state)
        } else {
            &&& r is Ok
            &&& final(state).expected == received + 1
            &&& final(state).seen@ == old(state).seen@.push(received)
        },
        sequence_history_ok(old(state).expected, old(state).seen@) ==> sequence_history_ok(
            final(state).expected,
            final(state).seen@,
        ),
{
    if received != state.expected {
        return Err(NodeError::UnexpectedSequence { expected: state.expected, received });
    }
    state.expected = received + 1;
    state.seen.push(received);
    Ok(())
}

/// A node's identity: its Ed25519 secret key and its node id.
pub struct NodeIdentity {
    pub keypair: [u8; 32],
    pub node_id: String,
}

impl NodeIdentity {
    /// A new identity for `node_id` with a freshly generated key.
    pub fn new(node_id: &str) -> (r: Result<Self, NodeError>)
        ensures
            r is Ok,
            r->Ok_0.node_id@ == node_id@,
    {
        let keypair = random_secret_key();
        Ok(NodeIdentity { node_id: String::from_str(node_id), keypair })
    }

    /// The public key of this identity, which always decodes.
    pub fn public_key(&self) -> (r: [u8; 32])
        ensures
            r@ == ed25519_public_key(self.keypair@),
            ed25519_key_decodes(r@),
    {
        ed25519_public_key_of(&self.keypair)
    }

    /// This identity's public key as an iroh endpoint key. An identity's own
    /// public key always decodes, so this always succeeds.
    pub fn iroh_pubkey(&self) -> (r: Result<iroh::PublicKey, CryptoError>)
        ensures
            r matches Ok(k) && iroh_key_bytes(k) == ed25519_public_key(self.keypair@),
    {
        let pk = self.public_key();
        match iroh_public_key_from_bytes(&pk) {
            Some(key) => Ok(key),
            None => Err(CryptoError::InvalidKey),
        }
    }
}

/// An iroh endpoint's public key.
#[verifier::external_type_specification]
#[verifier::external_body]
pub struct ExIrohPublicKey(iroh::PublicKey);

/// The 32 bytes of an iroh endpoint key (`PublicKey::as_bytes`).
pub uninterp spec fn iroh_key_bytes(k: iroh::PublicKey) -> Seq<u8>;

/// `iroh::PublicKey::from_bytes`, which defers to `VerifyingKey::from_bytes`:
/// it succeeds exactly when the bytes decode as an Ed25519 point, and the key
/// it builds holds the bytes it was given.
#[verifier::external_body]
fn iroh_public_key_from_bytes(bytes: &[u8; 32]) -> (r: Option<iroh::PublicKey>)
    ensures
        r is Some <==> ed25519_key_decodes(bytes@),
        r matches Some(k) ==> iroh_key_bytes(k) == bytes@,
{
    iroh::PublicKey::from_bytes(bytes).ok()
}

/// Something a node can send its signed auth message to.
pub trait AuthSender {
    /// Whether this sender, as it now stands, takes `signed`.
    spec fn accepts(&self, signed: SignedAuthMessageView) -> bool;

    /// Hands `signed` over; succeeds exactly when the sender takes it.
    fn send_auth(&mut self, signed: SignedAuthMessage) -> (r: Result<(), NodeError>)
        ensures
            r is Ok <==> old(self).accepts(signed@),
    ;
}

/// A stand-in coordinator implementing [`AuthSender`] that records what it
/// receives and can be told to fail a number of times first.
pub struct MockAuthSender {
    pub messages: Vec<SignedAuthMessage>,
    pub should_fail: bool,
    pub fail_count: usize,
}

impl MockAuthSender {
    /// A sender that accepts every message.
    pub fn new() -> (r: Self)
        ensures
            r.messages@.len() == 0,
            !r.should_fail,
            r.fail_count == 0,
    {
        MockAuthSender { messages: Vec::new(), should_fail: false, fail_count: 0 }
    }

    /// A sender that rejects the first `failures` messages.
    pub fn with_fail_after(failures: usize) -> (r: Self)
        ensures
            r.messages@.len() == 0,
            r.should_fail,
            r.fail_count == failures,
    {
        MockAuthSender { messages: Vec::new(), should_fail: true, fail_count: failures }
    }

    /// The messages received so far.
    pub fn get_messages(&self) -> (r: &[SignedAuthMessage])
        ensures
            r@ == self.messages@,
    {
        self.messages.as_slice()
    }
}

impl Default for MockAuthSender {
    fn default() -> (r: Self)
        ensures
            r.messages@.len() == 0,
            !r.should_fail,
            r.fail_count == 0,
    {
        Self::new()
    }
}

impl AuthSender for MockAuthSender {
    /// Takes every message once no failures remain.
    open spec fn accepts(&self, signed: SignedAuthMessageView) -> bool {
        !(self.should_fail && self.fail_count > 0)
    }

    /// While failures remain, rejects the message and counts one failure
    /// down; otherwise records the message.
    fn send_auth(&mut self, signed: SignedAuthMessage) -> (r: Result<(), NodeError>)
        ensures
            final(self).should_fail == old(self).should_fail,
            if old(self).should_fail && old(self).fail_count > 0 {
                &&& r == Err::<(), NodeError>(NodeError::SimulatedFailure)
                &&& final(self).fail_count == old(self).fail_count - 1
                &&& final(self).messages@ == old(self).messages@
            } else {
                &&& r is Ok
                &&& final(self).fail_count == old(self).fail_count
                &&& final(self).messages@ == old(self).messages@.push(signed)
            },
    {
        if self.should_fail && self.fail_count > 0 {
            self.fail_count = self.fail_count - 1;
            return Err(NodeError::SimulatedFailure);
        }
        self.messages.push(signed);
        Ok(())
    }
}

/// Signs a fresh auth message (current time, random nonce) with the node's
/// identity and hands it to `coordinator`. The result is the sender's verdict,
/// with a refusal reported as a failed send.
pub fn sign_and_send_auth_v2<S: AuthSender>(
    node_identity: &NodeIdentity,
    repo_hash: &str,
    sequence: u64,
    coordinator: &mut S,
) -> (r: Result<(), NodeError>)
    ensures
        exists|m: SignedAuthMessageView|
            #[trigger] sent_by(m, node_identity.node_id@, repo_hash@, sequence, node_identity.keypair@)
                && (r is Ok <==> old(coordinator).accepts(m)),
        r is Err ==> r matches Err(NodeError::SendFailed(_)),
{
    let message = AuthMessage::new(node_identity.node_id.as_str(), repo_hash, sequence);
    let signed = match SignedAuthMessage::sign(&message, &node_identity.keypair) {
        Ok(s) => s,
        Err(e) => return Err(NodeError::SignFailed(e)),
    };
    let ghost sent = signed@;
    proof {
        assert(sent_by(sent, node_identity.node_id@, repo_hash@, sequence, node_identity.keypair@));
    }
    match coordinator.send_auth(signed) {
        Ok(()) => Ok(()),
        Err(e) => Err(NodeError::SendFailed(e.message())),
    }
}

/// Checks an aggregate: same repository hash, threshold met, and every
/// participant among `valid_node_ids`.
pub fn verify_aggregate_v2(
    agg_msg: &AggregateAuthMessage,
    expected_repo_hash: &str,
    valid_node_ids: &[String],
) -> (r: Result<(), NodeError>)
    ensures
        is_aggregate_check_outcome(
            r,
            agg_msg@,
            expected_repo_hash@,
            Seq::<Seq<char>>::empty(),
            string_views(valid_node_ids@),
        ),
{
    let mut known: Vec<String> = Vec::new();
    let mut i: usize = 0;
    while i < valid_node_ids.len()
        invariant
            i <= valid_node_ids@.len(),
            known@.len() == i,
            forall|j: int| 0 <= j < i ==> (#[trigger] known@[j])@ == valid_node_ids@[j]@,
        decreases valid_node_ids@.len() - i,
    {
        known.push(valid_node_ids[i].clone());
        i = i + 1;
    }
    let none: Vec<String> = Vec::new();
    proof {
        assert(string_views(known@) =~= string_views(valid_node_ids@));
        assert(string_views(none@) =~= Seq::<Seq<char>>::empty());
    }
    check_aggregate(agg_msg, expected_repo_hash, none.as_slice(), &known)
}

/// The sequence numbers accepted so far and the least one still acceptable.
#[derive(Debug, Clone)]
pub struct SequenceTracker {
    pub expected: u64,
    pub seen: Vec<u64>,
}

impl Default for SequenceTracker {
    /// Nothing seen yet; any sequence number from zero on is acceptable.
    fn default() -> (r: Self)
        ensures
            r.expected == 0,
            r.seen@ == Seq::<u64>::empty(),
            sequence_history_ok(r.expected, r.seen@),
    {
        SequenceTracker { expected: 0, seen: Vec::new() }
    }
}

/// Accepts `received` when it has not been seen and is not behind the next
/// expected number (gaps are allowed), as [`validate_sequence`] does.
pub fn validate_sequence_v2(received: u64, tracker: &mut SequenceTracker) -> (r: Result<(), NodeError>)
    requires
        !sequence_overflows(received, old(tracker).expected, old(tracker).seen@),
    ensures
        if old(tracker).seen@.contains(received) {
            &&& r == Err::<(), NodeError>(NodeError::DuplicateSequence(received))
            &&& *final(tracker) == *old(tracker)
        } else if received < old(tracker).expected {
            &&& r == Err::<(), NodeError>(
                NodeError::SequenceWentBackwards { expected: old(tracker).expected, received },
            )
            &&& *final(tracker) == *old(tracker)
        } else {
            &&& r is Ok
            &&& final(tracker).expected == received + 1
            &&& final(tracker).seen@ == old(tracker).seen@.push(received)
        },
        sequence_history_ok(old(tracker).expected, old(tracker).seen@) ==> sequence_history_ok(
            final(tracker).expected,
            final(tracker).seen@,
        ),
{
    if contains_u64(&tracker.seen, received) {
        return Err(NodeError::DuplicateSequence(received));
    }
    if received < tracker.expected {
        return Err(NodeError::SequenceWentBackwards { expected: tracker.expected, received });
    }
    tracker.expected = received + 1;
    tracker.seen.push(received);
    Ok(())
}

/// Accepts exactly the next expected number, as [`validate_sequence_strict`]
/// does.
pub fn validate_sequence_strict_v2(received: u64, tracker: &mut SequenceTracker) -> (r: Result<
    (),
    NodeError,
>)
    requires
        !(received == u64::MAX && received == old(tracker).expected),
    ensures
        if received != old(tracker).expected {
            &&& r == Err::<(), NodeError>(
                NodeError::UnexpectedSequence { expected: old(tracker).expected, received },
            )
            &&& *final(tracker) == *old(tracker)
        } else {
            &&& r is Ok
            &&& final(tracker).expected == received + 1
            &&& final(tracker).seen@ == old(tracker).seen@.push(received)
        },
        sequence_history_ok(old(tracker).expected, old(tracker).seen@) ==> sequence_history_ok(
            final(tracker).expected,
            final(tracker).seen@,
        ),
{
    if received != tracker.expected {
        return Err(NodeError::UnexpectedSequence { expected: tracker.expected, received });
    }
    tracker.expected = received + 1;
    tracker.seen.push(received);
    Ok(())
}

/// In a state whose history is consistent, an accepted number was never
/// accepted before and is larger than every number accepted before.
pub proof fn lemma_accepted_sequence_is_fresh(expected: u64, seen: Seq<u64>, received: u64)
    requires
        sequence_history_ok(expected, seen),
        received >= expected,
    ensures
        !seen.contains(received),
        forall|i: int| 0 <= i < seen.len() ==> #[trigger] seen[i] < received,
{
}

} // verus!
