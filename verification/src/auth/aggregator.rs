//! Collects the signatures of one authentication round and builds the
//! aggregate once an m-of-n threshold is reached.
use vstd::prelude::*;
use std::time::{Duration, Instant};
use uuid::Uuid;
use crate::auth::messages::{
    SignedAuthMessage, SignedAuthMessageView, AggregateAuthMessage, is_create_outcome,
};
use crate::auth::crypto::CryptoError;
use crate::text::{find_string, string_views, push_decimal, decimal_chars};
use crate::platform::{instant_now, instant_elapsed, duration_as_nanos, duration_nanos, new_uuid_v4};

verus! {

/// Errors of signature collection.
#[derive(Debug)]
pub enum AggregationError {
    Timeout,
    ThresholdNotReached(usize, usize),
    DuplicateSignature(String),
    MessageMismatch(String),
}

/// The text each [`AggregationError`] displays.
pub open spec fn aggregation_error_text(e: AggregationError) -> Seq<char> {
    match e {
        AggregationError::Timeout => "timeout waiting for signatures"@,
        AggregationError::ThresholdNotReached(a, b) => "threshold not reached: "@ + decimal_chars(
            a as nat,
        ) + "/"@ + decimal_chars(b as nat),
        AggregationError::DuplicateSignature(n) => "duplicate signature from node "@ + n@,
        AggregationError::MessageMismatch(m) => "message mismatch: "@ + m@,
    }
}

impl AggregationError {
    /// The human-readable description of the error.
    pub fn message(&self) -> (r: String)
        ensures
            r@ == aggregation_error_text(*self),
    {
        let mut s = String::new();
        match self {
            AggregationError::Timeout => {
                s.append("timeout waiting for signatures");
            },
            AggregationError::ThresholdNotReached(a, b) => {
                s.append("threshold not reached: ");
                push_decimal(&mut s, *a as u64);
                s.append("/");
                push_decimal(&mut s, *b as u64);
            },
            AggregationError::DuplicateSignature(n) => {
                s.append("duplicate signature from node ");
                s.append(n.as_str());
            },
            AggregationError::MessageMismatch(m) => {
                s.append("message mismatch: ");
                s.append(m.as_str());
            },
        }
        proof {
            assert(s@ =~= aggregation_error_text(*self));
        }
        s
    }
}

/// The text each [`CryptoError`] displays.
pub open spec fn crypto_error_text(e: CryptoError) -> Seq<char> {
    match e {
        CryptoError::VerificationFailed => "signature verification failed"@,
        CryptoError::InvalidKey => "invalid key format"@,
        CryptoError::AggregationFailed(m) => "aggregation failed: "@ + m@,
    }
}

impl CryptoError {
    /// The human-readable description of the error.
    pub fn message(&self) -> (r: String)
        ensures
            r@ == crypto_error_text(*self),
    {
        let mut s = String::new();
        match self {
            CryptoError::VerificationFailed => {
                s.append("signature verification failed");
            },
            CryptoError::InvalidKey => {
                s.append("invalid key format");
            },
            CryptoError::AggregationFailed(m) => {
                s.append("aggregation failed: ");
                s.append(m.as_str());
            },
        }
        proof {
            assert(s@ =~= crypto_error_text(*self));
        }
        s
    }
}

/// Whether `elapsed` is longer than `timeout`, compared in whole nanoseconds.
pub open spec fn duration_exceeds(elapsed: Duration, timeout: Duration) -> bool {
    duration_nanos(elapsed) > duration_nanos(timeout)
}

/// Whether a round that has run for `elapsed` is past its `timeout`.
pub fn exceeds_timeout(elapsed: &Duration, timeout: &Duration) -> (r: bool)
    ensures
        r == duration_exceeds(*elapsed, *timeout),
{
    duration_as_nanos(elapsed) > duration_as_nanos(timeout)
}

/// Tracks the signatures collected in one round from an expected set of nodes.
#[derive(Debug)]
pub struct Aggregator {
    signatures: Vec<(String, SignedAuthMessage)>,
    expected_nodes: Vec<String>,
    threshold: usize,
    total_nodes: usize,
    timeout: Duration,
    start_time: Instant,
    round_id: Uuid,
}

impl Aggregator {
    /// The nodes that have signed, in the order their signatures arrived.
    pub closed spec fn signers(self) -> Seq<Seq<char>> {
        self.signatures@.map_values(|p: (String, SignedAuthMessage)| p.0@)
    }

    /// The signed messages collected, in the order they arrived.
    pub closed spec fn collected(self) -> Seq<SignedAuthMessageView> {
        self.signatures@.map_values(|p: (String, SignedAuthMessage)| p.1@)
    }

    /// The expected nodes, each once, in the order first given.
    pub closed spec fn expected(self) -> Seq<Seq<char>> {
        string_views(self.expected_nodes@)
    }

    /// The number of signatures needed.
    pub closed spec fn spec_threshold(self) -> usize {
        self.threshold
    }

    /// The number of node ids the aggregator was created with.
    pub closed spec fn spec_total_nodes(self) -> usize {
        self.total_nodes
    }

    /// The identifier of the current round.
    pub closed spec fn spec_round_id(self) -> Uuid {
        self.round_id
    }

    /// The time limit for the round.
    pub closed spec fn spec_timeout(self) -> Duration {
        self.timeout
    }

    /// Expected nodes are listed once, signers are expected nodes that signed
    /// once each, and all collected messages carry the same content.
    #[verifier::type_invariant]
    pub closed spec fn well_formed(self) -> bool {
        &&& self.expected().no_duplicates()
        &&& self.signers().no_duplicates()
        &&& forall|i: int|
            0 <= i < self.signers().len() ==> self.expected().contains(#[trigger] self.signers()[i])
        &&& forall|i: int|
            0 <= i < self.collected().len() ==> #[trigger] self.collected()[i].message
                == self.collected()[0].message
    }

    /// Creates an aggregator for the given nodes; repeated ids count once in
    /// the expected set but every given id counts towards `total_nodes`.
    pub fn new(expected_nodes: Vec<String>, threshold: usize, timeout: Duration) -> (r: Self)
        ensures
            r.signers() == Seq::<Seq<char>>::empty(),
            r.expected().to_set() == string_views(expected_nodes@).to_set(),
            r.spec_threshold() == threshold,
            r.spec_total_nodes() == expected_nodes@.len(),
            r.spec_timeout() == timeout,
    {
        let total_nodes = expected_nodes.len();
        let mut distinct: Vec<String> = Vec::new();
        let mut i: usize = 0;
        while i < expected_nodes.len()
            invariant
                i <= expected_nodes@.len(),
                string_views(distinct@).no_duplicates(),
                string_views(distinct@).to_set() == string_views(
                    expected_nodes@.subrange(0, i as int),
                ).to_set(),
            decreases expected_nodes@.len() - i,
        {
            let ghost before = string_views(distinct@);
            let id = &expected_nodes[i];
            proof {
                assert(string_views(expected_nodes@.subrange(0, i + 1)) =~= string_views(
                    expected_nodes@.subrange(0, i as int),
                ).push(id@));
            }
            match find_string(&distinct, id) {
                Some(_) => {},
                None => {
                    distinct.push(id.clone());
                    proof {
                        assert(string_views(distinct@) =~= before.push(id@));
                        before.lemma_push_to_set_commute(id@);
                    }
                },
            }
            proof {
                string_views(expected_nodes@.subrange(0, i as int)).lemma_push_to_set_commute(id@);
                if before.contains(id@) {
                    assert(before.to_set().insert(id@) =~= before.to_set());
                }
            }
            i = i + 1;
        }
        proof {
            assert(expected_nodes@.subrange(0, expected_nodes@.len() as int) =~= expected_nodes@);
        }
        let r = Aggregator {
            signatures: Vec::new(),
            expected_nodes: distinct,
            threshold,
            total_nodes,
            timeout,
            start_time: instant_now(),
            round_id: new_uuid_v4(),
        };
        proof {
            assert(r.signers() =~= Seq::<Seq<char>>::empty());
        }
        r
    }

    /// The identifier of the current round.
    pub fn round_id(&self) -> (r: Uuid)
        ensures
            r == self.spec_round_id(),
    {
        self.round_id
    }

    /// Drops the collected signatures and starts a new round with a fresh id
    /// and a restarted clock.
    pub fn reset(&mut self)
        ensures
            final(self).signers() == Seq::<Seq<char>>::empty(),
            final(self).expected() == old(self).expected(),
            final(self).spec_threshold() == old(self).spec_threshold(),
            final(self).spec_total_nodes() == old(self).spec_total_nodes(),
            final(self).spec_timeout() == old(self).spec_timeout(),
    {
        proof {
            use_type_invariant(&*self);
        }
        self.signatures = Vec::new();
        self.start_time = instant_now();
        self.round_id = new_uuid_v4();
        proof {
            assert(self.signers() =~= Seq::<Seq<char>>::empty());
        }
    }

    /// The position of `node_id` among the signers, if it has signed.
    fn signer_position(&self, node_id: &String) -> (r: Option<usize>)
        ensures
            r matches Some(i) ==> i < self.signers().len() && self.signers()[i as int] == node_id@,
            r is None <==> !self.signers().contains(node_id@),
    {
        let mut i: usize = 0;
        while i < self.signatures.len()
            invariant
                i <= self.signatures@.len(),
                forall|j: int| 0 <= j < i ==> #[trigger] self.signers()[j] != node_id@,
            decreases self.signatures@.len() - i,
        {
            if self.signatures[i].0 == *node_id {
                proof {
                    assert(self.signers()[i as int] == node_id@);
                }
                return Some(i);
            }
            i = i + 1;
        }
        proof {
            if self.signers().contains(node_id@) {
                let k = choose|k: int| 0 <= k < self.signers().len() && self.signers()[k] == node_id@;
                assert(self.signers()[k] != node_id@);
            }
        }
        None
    }

    /// Records `signed` as the signature of `node_id`. It is refused when the
    /// node is not expected, has already signed, or signed content different
    /// from the signatures collected so far.
    pub fn add_signature(&mut self, node_id: &str, signed: SignedAuthMessage) -> (r: Result<
        (),
        AggregationError,
    >)
        ensures
            final(self).expected() == old(self).expected(),
            final(self).spec_threshold() == old(self).spec_threshold(),
            final(self).spec_total_nodes() == old(self).spec_total_nodes(),
            final(self).spec_round_id() == old(self).spec_round_id(),
            final(self).spec_timeout() == old(self).spec_timeout(),
            r is Err ==> *final(self) == *old(self),
            if !old(self).expected().contains(node_id@) {
                &&& r matches Err(AggregationError::MessageMismatch(m)) && m@ == "node "@ + node_id@
                    + " not in expected set"@
                &&& final(self).signers() == old(self).signers()
                &&& final(self).collected() == old(self).collected()
            } else if old(self).signers().contains(node_id@) {
                &&& r matches Err(AggregationError::DuplicateSignature(n)) && n@ == node_id@
                &&& final(self).signers() == old(self).signers()
                &&& final(self).collected() == old(self).collected()
            } else if old(self).collected().len() > 0 && signed@.message != old(
                self,
            ).collected()[0].message {
                &&& r matches Err(AggregationError::MessageMismatch(m)) && m@
                    == "inconsistent message content across signatures"@
                &&& final(self).signers() == old(self).signers()
                &&& final(self).collected() == old(self).collected()
            } else {
                &&& r is Ok
                &&& final(self).signers() == old(self).signers().push(node_id@)
                &&& final(self).collected() == old(self).collected().push(signed@)
            },
    {
        proof {
            use_type_invariant(&*self);
        }
        let id = String::from_str(node_id);
        if find_string(&self.expected_nodes, &id).is_none() {
            let mut m = String::new();
            m.append("node ");
            m.append(node_id);
            m.append(" not in expected set");
            proof {
                assert(m@ =~= "node "@ + node_id@ + " not in expected set"@);
            }
            return Err(AggregationError::MessageMismatch(m));
        }
        if self.signer_position(&id).is_some() {
            return Err(AggregationError::DuplicateSignature(id));
        }
        if self.signatures.len() > 0 {
            if !signed.message.same_content(&self.signatures[0].1.message) {
                return Err(
                    AggregationError::MessageMismatch(
                        String::from_str("inconsistent message content across signatures"),
                    ),
                );
            }
        }
        let ghost old_signers = self.signers();
        let ghost old_collected = self.collected();
        let ghost new_view = signed@;
        let ghost expected = self.expected();
        proof {
            assert(expected.contains(node_id@));
            assert(!old_signers.contains(node_id@));
            assert(old_collected.len() > 0 ==> new_view.message == old_collected[0].message);
        }
        let mut sigs: Vec<(String, SignedAuthMessage)> = Vec::new();
        std::mem::swap(&mut sigs, &mut self.signatures);
        sigs.push((id, signed));
        proof {
            let ns = sigs@.map_values(|p: (String, SignedAuthMessage)| p.0@);
            let nc = sigs@.map_values(|p: (String, SignedAuthMessage)| p.1@);
            assert(ns =~= old_signers.push(node_id@));
            assert(nc =~= old_collected.push(new_view));
            assert forall|a: int, b: int| 0 <= a < ns.len() && 0 <= b < ns.len() && a != b implies ns[a]
                != ns[b] by {
                if a == ns.len() - 1 {
                    assert(old_signers[b] == ns[b]);
                } else if b == ns.len() - 1 {
                    assert(old_signers[a] == ns[a]);
                } else {
                    assert(old_signers[a] == ns[a] && old_signers[b] == ns[b]);
                }
            }
            assert forall|a: int| 0 <= a < ns.len() implies expected.contains(#[trigger] ns[a]) by {
                if a < ns.len() - 1 {
                    assert(old_signers[a] == ns[a]);
                }
            }
            assert forall|a: int| 0 <= a < nc.len() implies #[trigger] nc[a].message == nc[0].message by {
                if old_collected.len() > 0 {
                    assert(nc[0] == old_collected[0]);
                    if a < nc.len() - 1 {
                        assert(nc[a] == old_collected[a]);
                    }
                }
            }
        }
        self.signatures = sigs;
        proof {
            assert(self.signers() =~= old_signers.push(node_id@));
            assert(self.collected() =~= old_collected.push(new_view));
        }
        Ok(())
    }

    /// Whether at least `threshold` signatures have been collected.
    pub fn has_threshold(&self) -> (r: bool)
        ensures
            r == (self.signers().len() >= self.spec_threshold()),
    {
        self.signatures.len() >= self.threshold
    }

    /// Builds the aggregate of the collected signatures, in the order they
    /// arrived, once the threshold is reached.
    pub fn create_aggregate(&self) -> (r: Result<AggregateAuthMessage, AggregationError>)
        ensures
            self.signers().len() < self.spec_threshold() ==> (r matches Err(
                AggregationError::ThresholdNotReached(have, need),
            ) && have == self.signers().len() && need == self.spec_threshold()),
            self.signers().len() >= self.spec_threshold() ==> exists|c: Result<AggregateAuthMessage, CryptoError>|
                {
                    &&& is_create_outcome(
                        c,
                        self.collected(),
                        self.spec_threshold(),
                        self.spec_total_nodes(),
                    )
                    &&& match c {
                        Ok(a) => r == Ok::<AggregateAuthMessage, AggregationError>(a),
                        Err(e) => r matches Err(AggregationError::MessageMismatch(m)) && m@
                            == crypto_error_text(e),
                    }
                },
    {
        if !self.has_threshold() {
            return Err(AggregationError::ThresholdNotReached(self.signatures.len(), self.threshold));
        }
        let mut signed_messages: Vec<SignedAuthMessage> = Vec::new();
        let mut i: usize = 0;
        while i < self.signatures.len()
            invariant
                i <= self.signatures@.len(),
                signed_messages@.len() == i,
                forall|j: int| 0 <= j < i ==> #[trigger] signed_messages@[j]@ == self.collected()[j],
            decreases self.signatures@.len() - i,
        {
            signed_messages.push(self.signatures[i].1.duplicate());
            i = i + 1;
        }
        proof {
            assert(signed_messages@.map_values(|m: SignedAuthMessage| m@) =~= self.collected());
        }
        let c = AggregateAuthMessage::create(signed_messages, self.threshold, self.total_nodes);
        let ghost gc = c;
        let r = match c {
            Ok(a) => Ok(a),
            Err(e) => {
                let m = e.message();
                Err(AggregationError::MessageMismatch(m))
            },
        };
        proof {
            assert(is_create_outcome(gc, self.collected(), self.spec_threshold(), self.spec_total_nodes()));
        }
        r
    }

    /// Whether the round has run longer than its timeout: the time elapsed
    /// since it started, read from the clock, exceeds the timeout.
    pub fn is_timed_out(&self) -> (r: bool)
        ensures
            exists|elapsed: Duration| r == #[trigger] duration_exceeds(elapsed, self.spec_timeout()),
    {
        let e = instant_elapsed(&self.start_time);
        let r = exceeds_timeout(&e, &self.timeout);
        proof {
            assert(r == duration_exceeds(e, self.spec_timeout()));
        }
        r
    }

    /// The time since the round started.
    pub fn elapsed(&self) -> Duration {
        instant_elapsed(&self.start_time)
    }

    /// The number of signatures collected.
    pub fn collected_count(&self) -> (r: usize)
        ensures
            r == self.signers().len(),
    {
        self.signatures.len()
    }

    /// The number of node ids the aggregator was created with.
    pub fn total_nodes(&self) -> (r: usize)
        ensures
            r == self.spec_total_nodes(),
    {
        self.total_nodes
    }

    /// The number of signatures needed.
    pub fn threshold(&self) -> (r: usize)
        ensures
            r == self.spec_threshold(),
    {
        self.threshold
    }

    /// The expected nodes that have not signed yet.
    pub fn missing_nodes(&self) -> (r: Vec<String>)
        ensures
            string_views(r@) == self.expected().filter(|n: Seq<char>| !self.signers().contains(n)),
            r@.len() + self.signers().len() == self.expected().len(),
    {
        proof {
            use_type_invariant(self);
            lemma_missing_count(self.expected(), self.signers());
            assert(self.expected().to_set().intersect(self.signers().to_set()) =~= self.signers().to_set())
                by {
                assert forall|x: Seq<char>| self.signers().to_set().contains(x) implies self.expected().to_set().contains(x) by {
                    let k = choose|k: int| 0 <= k < self.signers().len() && self.signers()[k] == x;
                    assert(self.expected().contains(self.signers()[k]));
                }
            }
            self.signers().unique_seq_to_set();
        }
        let ghost pred = |n: Seq<char>| !self.signers().contains(n);
        let mut out: Vec<String> = Vec::new();
        let mut i: usize = 0;
        while i < self.expected_nodes.len()
            invariant
                i <= self.expected_nodes@.len(),
                pred == (|n: Seq<char>| !self.signers().contains(n)),
                string_views(out@) == self.expected().subrange(0, i as int).filter(pred),
            decreases self.expected_nodes@.len() - i,
        {
            let ghost before = self.expected().subrange(0, i as int);
            proof {
                let next = self.expected().subrange(0, i + 1);
                assert(next.drop_last() =~= before);
                assert(next.last() == self.expected()[i as int]);
                reveal_with_fuel(Seq::filter, 1);
            }
            if self.signer_position(&self.expected_nodes[i]).is_none() {
                let ghost prev = string_views(out@);
                out.push(self.expected_nodes[i].clone());
                proof {
                    assert(string_views(out@) =~= prev.push(self.expected()[i as int]));
                }
            }
            i = i + 1;
        }
        proof {
            assert(self.expected().subrange(0, self.expected_nodes@.len() as int) =~= self.expected());
        }
        out
    }
}

impl Clone for Aggregator {
    /// A copy with the same signers, messages, expected nodes, limits, clock
    /// and round identifier.
    fn clone(&self) -> (r: Self)
        ensures
            r.signers() == self.signers(),
            r.collected() == self.collected(),
            r.expected() == self.expected(),
            r.spec_threshold() == self.spec_threshold(),
            r.spec_total_nodes() == self.spec_total_nodes(),
            r.spec_round_id() == self.spec_round_id(),
            r.spec_timeout() == self.spec_timeout(),
    {
        proof {
            use_type_invariant(self);
        }
        let mut signatures: Vec<(String, SignedAuthMessage)> = Vec::new();
        let mut i: usize = 0;
        while i < self.signatures.len()
            invariant
                i <= self.signatures@.len(),
                signatures@.len() == i,
                forall|j: int| 0 <= j < i ==> (#[trigger] signatures@[j]).0@ == self.signatures@[j].0@
                    && signatures@[j].1@ == self.signatures@[j].1@,
            decreases self.signatures@.len() - i,
        {
            signatures.push((self.signatures[i].0.clone(), self.signatures[i].1.duplicate()));
            i = i + 1;
        }
        let mut expected_nodes: Vec<String> = Vec::new();
        let mut k: usize = 0;
        while k < self.expected_nodes.len()
            invariant
                k <= self.expected_nodes@.len(),
                expected_nodes@.len() == k,
                forall|j: int| 0 <= j < k ==> (#[trigger] expected_nodes@[j])@ == self.expected_nodes@[j]@,
            decreases self.expected_nodes@.len() - k,
        {
            expected_nodes.push(self.expected_nodes[k].clone());
            k = k + 1;
        }
        proof {
            assert(signatures@.map_values(|p: (String, SignedAuthMessage)| p.0@) =~= self.signers());
            assert(signatures@.map_values(|p: (String, SignedAuthMessage)| p.1@) =~= self.collected());
            assert(string_views(expected_nodes@) =~= self.expected());
        }
        Aggregator {
            signatures,
            expected_nodes,
            threshold: self.threshold,
            total_nodes: self.total_nodes,
            timeout: self.timeout,
            start_time: self.start_time,
            round_id: self.round_id,
        }
    }
}

/// The elements of `e` that are not in `s`, together with those that are,
/// number the elements of `e` when neither list repeats an element.
proof fn lemma_missing_count<A>(e: Seq<A>, s: Seq<A>)
    requires
        e.no_duplicates(),
    ensures
        e.filter(|n: A| !s.contains(n)).len() + e.to_set().intersect(s.to_set()).len() == e.len(),
    decreases e.len(),
{
    broadcast use vstd::seq_lib::seq_to_set_is_finite;
    if e.len() == 0 {
        assert(e.to_set() =~= Set::<A>::empty());
        assert(e.to_set().intersect(s.to_set()) =~= Set::<A>::empty());
        reveal_with_fuel(Seq::filter, 1);
    } else {
        let x = e.last();
        let rest = e.drop_last();
        assert(rest.no_duplicates()) by {
            assert forall|i: int, j: int| 0 <= i < rest.len() && 0 <= j < rest.len() && i != j implies rest[i] != rest[j] by {
                assert(rest[i] == e[i] && rest[j] == e[j]);
            }
        }
        lemma_missing_count(rest, s);
        assert(e =~= rest.push(x));
        rest.lemma_push_to_set_commute(x);
        assert(!rest.contains(x)) by {
            if rest.contains(x) {
                let k = choose|k: int| 0 <= k < rest.len() && rest[k] == x;
                assert(e[k] == e[e.len() - 1]);
            }
        }
        assert(!rest.to_set().contains(x));
        reveal_with_fuel(Seq::filter, 1);
        let inter = rest.to_set().intersect(s.to_set());
        if s.contains(x) {
            assert(e.to_set().intersect(s.to_set()) =~= inter.insert(x));
            assert(!inter.contains(x));
        } else {
            assert(e.to_set().intersect(s.to_set()) =~= inter);
        }
    }
}

} // verus!
