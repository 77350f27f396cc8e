//! The coordinator's side of multi-signature consensus: which nodes are
//! registered, when a signature collection may start, when it is done, and to
//! whom the aggregate goes. Sending, receiving and waiting are the caller's.
use vstd::prelude::*;
use std::time::Duration;
use crate::auth::aggregator::{Aggregator, AggregationError, aggregation_error_text, crypto_error_text, duration_exceeds};
use crate::auth::crypto::CryptoError;
use crate::auth::messages::{AggregateAuthMessage, is_create_outcome};
use crate::text::{decimal_chars, push_decimal, string_views, find_string};

verus! {

/// Failures of the coordinator's authentication protocol.
#[derive(Debug)]
pub enum CoordinatorAuthError {
    Timeout,
    AuthDisabled,
    NoNodesRegistered,
    BroadcastFailed(String),
    AggregationFailed(AggregationError),
}

/// The text each [`CoordinatorAuthError`] displays.
pub open spec fn coordinator_auth_error_text(e: CoordinatorAuthError) -> Seq<char> {
    match e {
        CoordinatorAuthError::Timeout => "timeout waiting for signatures"@,
        CoordinatorAuthError::AuthDisabled => "auth disabled in train config"@,
        CoordinatorAuthError::NoNodesRegistered => "no nodes registered"@,
        CoordinatorAuthError::BroadcastFailed(m) => "broadcast failed: "@ + m@,
        CoordinatorAuthError::AggregationFailed(a) => "aggregation failed: "@ + aggregation_error_text(a),
    }
}

impl CoordinatorAuthError {
    /// The human-readable description of the error.
    pub fn message(&self) -> (r: String)
        ensures
            r@ == coordinator_auth_error_text(*self),
    {
        let mut s = String::new();
        match self {
            CoordinatorAuthError::Timeout => {
                s.append("timeout waiting for signatures");
            },
            CoordinatorAuthError::AuthDisabled => {
                s.append("auth disabled in train config");
            },
            CoordinatorAuthError::NoNodesRegistered => {
                s.append("no nodes registered");
            },
            CoordinatorAuthError::BroadcastFailed(m) => {
                s.append("broadcast failed: ");
                s.append(m.as_str());
            },
            CoordinatorAuthError::AggregationFailed(a) => {
                s.append("aggregation failed: ");
                let inner = a.message();
                s.append(inner.as_str());
            },
        }
        proof {
            assert(s@ =~= coordinator_auth_error_text(*self));
        }
        s
    }
}

impl From<AggregationError> for CoordinatorAuthError {
    fn from(e: AggregationError) -> (r: CoordinatorAuthError) {
        CoordinatorAuthError::AggregationFailed(e)
    }
}

impl vstd::std_specs::convert::FromSpecImpl<AggregationError> for CoordinatorAuthError {
    open spec fn obeys_from_spec() -> bool {
        true
    }

    open spec fn from_spec(e: AggregationError) -> CoordinatorAuthError {
        CoordinatorAuthError::AggregationFailed(e)
    }
}

/// The error for a failed send to node `node_id`.
pub fn broadcast_failure(node_id: &str) -> (r: CoordinatorAuthError)
    ensures
        r matches CoordinatorAuthError::BroadcastFailed(m) && m@ == "failed to send to node "@ + node_id@,
{
    let mut m = String::from_str("failed to send to node ");
    m.append(node_id);
    CoordinatorAuthError::BroadcastFailed(m)
}

/// How a list of strings is printed for debugging (`{:?}` on a `Vec<String>`):
/// the strings quoted and escaped, separated by commas, in square brackets.
pub uninterp spec fn debug_strings_text(v: Seq<Seq<char>>) -> Seq<char>;

/// Renders `v` as `{:?}` does.
#[verifier::external_body]
fn debug_strings(v: &Vec<String>) -> (r: String)
    ensures
        r@ == debug_strings_text(string_views(v@)),
{
    format!("{:?}", v)
}

/// Where a signature collection stands.
#[derive(Debug, Clone, Copy, PartialEq, Eq)]
pub enum CollectionStatus {
    NotStarted,
    TimedOut,
    Ready,
    Waiting,
}

/// Where a collection round stands: not started, or else out of time (checked
/// first), with enough signatures, or still waiting.
pub open spec fn round_status(started: bool, timed_out: bool, has_threshold: bool) -> CollectionStatus {
    if !started {
        CollectionStatus::NotStarted
    } else if timed_out {
        CollectionStatus::TimedOut
    } else if has_threshold {
        CollectionStatus::Ready
    } else {
        CollectionStatus::Waiting
    }
}

/// Decides where a collection round stands from whether it was started,
/// whether its time is up, and whether it has enough signatures.
pub fn status_of(started: bool, timed_out: bool, has_threshold: bool) -> (r: CollectionStatus)
    ensures
        r == round_status(started, timed_out, has_threshold),
{
    if !started {
        CollectionStatus::NotStarted
    } else if timed_out {
        CollectionStatus::TimedOut
    } else if has_threshold {
        CollectionStatus::Ready
    } else {
        CollectionStatus::Waiting
    }
}

/// Coordinator-side state of the authentication protocol: the registered
/// nodes, each once, in the order they registered, and the current round.
pub struct CoordinatorAuth {
    node_ids: Vec<String>,
    aggregator: Option<Aggregator>,
    enable_auth: bool,
    auth_threshold: usize,
}

/// The status report: the collection progress and who is missing while a
/// round runs, the registered nodes when none runs, or that authentication is
/// off.
pub open spec fn status_text(
    round: Option<(usize, usize, usize, Seq<Seq<char>>)>,
    enable_auth: bool,
    registered: nat,
    threshold: usize,
) -> Seq<char> {
    match round {
        Some(r) => {
            let head = "Auth status: "@ + decimal_chars(r.0 as nat) + "/"@ + decimal_chars(r.1 as nat)
                + " signatures collected, need "@ + decimal_chars(r.2 as nat);
            if r.3.len() == 0 {
                head
            } else {
                head + "\n"@ + "  Missing from: "@ + debug_strings_text(r.3)
            }
        },
        None => if enable_auth {
            "Auth status: "@ + decimal_chars(registered) + " nodes registered, threshold "@
                + decimal_chars(threshold as nat)
        } else {
            "Auth status: disabled"@
        },
    }
}

impl CoordinatorAuth {
    /// The registered node ids.
    pub closed spec fn registered(self) -> Seq<Seq<char>> {
        string_views(self.node_ids@)
    }

    /// Whether authentication is on.
    pub closed spec fn spec_enabled(self) -> bool {
        self.enable_auth
    }

    /// The number of signatures a round needs.
    pub closed spec fn spec_threshold(self) -> usize {
        self.auth_threshold
    }

    /// The current round's aggregator, if a round was started.
    pub closed spec fn spec_aggregator(self) -> Option<Aggregator> {
        self.aggregator
    }

    /// No node registered and no round started yet.
    pub fn new(enable_auth: bool, auth_threshold: usize) -> (r: Self)
        ensures
            r.registered() == Seq::<Seq<char>>::empty(),
            r.registered().no_duplicates(),
            r.spec_enabled() == enable_auth,
            r.spec_threshold() == auth_threshold,
            r.spec_aggregator() is None,
    {
        let r = CoordinatorAuth { node_ids: Vec::new(), aggregator: None, enable_auth, auth_threshold };
        proof {
            assert(string_views(r.node_ids@) =~= Seq::<Seq<char>>::empty());
        }
        r
    }

    /// Registers node `node_id`; a node registered twice counts once.
    pub fn register_node(&mut self, node_id: String)
        ensures
            old(self).registered().contains(node_id@) ==> final(self).registered() == old(self).registered(),
            !old(self).registered().contains(node_id@) ==> final(self).registered() == old(self).registered().push(node_id@),
            final(self).spec_enabled() == old(self).spec_enabled(),
            final(self).spec_threshold() == old(self).spec_threshold(),
            final(self).spec_aggregator() == old(self).spec_aggregator(),
            old(self).registered().no_duplicates() ==> final(self).registered().no_duplicates(),
    {
        if find_string(&self.node_ids, &node_id).is_none() {
            let ghost before = self.node_ids@;
            let mut ids: Vec<String> = Vec::new();
            std::mem::swap(&mut ids, &mut self.node_ids);
            ids.push(node_id);
            proof {
                assert(string_views(ids@) =~= string_views(before).push(ids@.last()@));
                if string_views(before).no_duplicates() {
                    assert forall|a: int, b: int| 0 <= a < b < string_views(ids@).len() implies
                        string_views(ids@)[a] != string_views(ids@)[b] by {
                        assert(string_views(before)[a] == string_views(ids@)[a]);
                        if b == string_views(before).len() {
                            assert(string_views(ids@)[b] == node_id@);
                            assert(!string_views(before).contains(node_id@));
                        } else {
                            assert(string_views(before)[b] == string_views(ids@)[b]);
                        }
                    }
                }
            }
            self.node_ids = ids;
        }
    }

    /// The number of registered nodes.
    pub fn registered_node_count(&self) -> (r: usize)
        ensures
            r == self.registered().len(),
    {
        self.node_ids.len()
    }

    /// Whether authentication is on.
    pub fn is_auth_enabled(&self) -> (r: bool)
        ensures
            r == self.spec_enabled(),
    {
        self.enable_auth
    }

    /// The number of signatures a round needs.
    pub fn get_threshold(&self) -> (r: usize)
        ensures
            r == self.spec_threshold(),
    {
        self.auth_threshold
    }

    /// The registered node ids, in the order they registered.
    pub fn expected_nodes(&self) -> (r: Vec<String>)
        ensures
            string_views(r@) == self.registered(),
    {
        let mut out: Vec<String> = Vec::new();
        let mut i: usize = 0;
        while i < self.node_ids.len()
            invariant
                i <= self.node_ids@.len(),
                string_views(out@) == self.registered().take(i as int),
            decreases self.node_ids@.len() - i,
        {
            let ghost prev = string_views(out@);
            out.push(self.node_ids[i].clone());
            proof {
                assert(string_views(out@) =~= prev.push(self.registered()[i as int]));
            }
            i = i + 1;
            proof {
                assert(string_views(out@) =~= self.registered().take(i as int));
            }
        }
        proof {
            assert(self.registered().take(i as int) =~= self.registered());
        }
        out
    }

    /// The current round's aggregator, if a round was started.
    pub fn get_aggregator(&self) -> (r: Option<&Aggregator>)
        ensures
            match r {
                Some(a) => self.spec_aggregator() == Some(*a),
                None => self.spec_aggregator() is None,
            },
    {
        match &self.aggregator {
            Some(a) => Some(a),
            None => None,
        }
    }

    /// The current round's aggregator, to add signatures to.
    pub fn get_aggregator_mut(&mut self) -> (r: Option<&mut Aggregator>)
        ensures
            final(self).registered() == old(self).registered(),
            final(self).spec_enabled() == old(self).spec_enabled(),
            final(self).spec_threshold() == old(self).spec_threshold(),
            match r {
                Some(a) => old(self).spec_aggregator() == Some(*a) && final(self).spec_aggregator() == Some(
                    *final(a),
                ),
                None => old(self).spec_aggregator() is None && final(self).spec_aggregator() is None,
            },
    {
        match &mut self.aggregator {
            Some(a) => Some(a),
            None => None,
        }
    }

    /// Whether a round was started.
    pub fn has_aggregator(&self) -> (r: bool)
        ensures
            r == self.spec_aggregator() is Some,
    {
        self.aggregator.is_some()
    }

    /// Starts a signature round over `expected_nodes`, or over the registered
    /// nodes when that list is empty. Refused when authentication is off, or
    /// when there is no node to ask at all.
    pub fn begin_collection(&mut self, expected_nodes: Vec<String>, timeout: Duration) -> (r: Result<(), CoordinatorAuthError>)
        ensures
            final(self).registered() == old(self).registered(),
            final(self).spec_enabled() == old(self).spec_enabled(),
            final(self).spec_threshold() == old(self).spec_threshold(),
            !old(self).spec_enabled() ==> (r matches Err(CoordinatorAuthError::AuthDisabled)
                && final(self).spec_aggregator() == old(self).spec_aggregator()),
            old(self).spec_enabled() && expected_nodes@.len() == 0 && old(self).registered().len() == 0
                ==> (r matches Err(CoordinatorAuthError::NoNodesRegistered)
                && final(self).spec_aggregator() == old(self).spec_aggregator()),
            old(self).spec_enabled() && (expected_nodes@.len() > 0 || old(self).registered().len() > 0)
                ==> (r is Ok && (final(self).spec_aggregator() matches Some(a) && a.signers().len() == 0
                && a.spec_threshold() == old(self).spec_threshold() && a.spec_timeout() == timeout
                && a.expected().to_set() == (if expected_nodes@.len() > 0 {
                string_views(expected_nodes@)
            } else {
                old(self).registered()
            }).to_set() && a.spec_total_nodes() == (if expected_nodes@.len() > 0 {
                expected_nodes@.len()
            } else {
                old(self).registered().len()
            }))),
    {
        if !self.enable_auth {
            return Err(CoordinatorAuthError::AuthDisabled);
        }
        if expected_nodes.len() == 0 && self.node_ids.len() == 0 {
            return Err(CoordinatorAuthError::NoNodesRegistered);
        }
        let nodes = if expected_nodes.len() == 0 {
            self.expected_nodes()
        } else {
            expected_nodes
        };
        let agg = Aggregator::new(nodes, self.auth_threshold, timeout);
        self.aggregator = Some(agg);
        Ok(())
    }

    /// Where the current round stands: not started, out of time, with
    /// enough signatures, or still waiting. The time limit is checked first;
    /// the time elapsed comes from the clock.
    pub fn collection_status(&self) -> (r: CollectionStatus)
        ensures
            self.spec_aggregator() is None ==> r is NotStarted,
            self.spec_aggregator() matches Some(a) ==> exists|elapsed: Duration|
                r == round_status(
                    true,
                    #[trigger] duration_exceeds(elapsed, a.spec_timeout()),
                    a.signers().len() >= a.spec_threshold(),
                ),
            r is TimedOut ==> self.spec_aggregator() is Some,
            self.spec_aggregator() matches Some(a) ==> (r is TimedOut || (r is Ready <==> a.signers().len()
                >= a.spec_threshold())),
            r is Ready ==> (self.spec_aggregator() matches Some(a) && a.signers().len() >= a.spec_threshold()),
            r is Waiting ==> (self.spec_aggregator() matches Some(a) && a.signers().len() < a.spec_threshold()),
    {
        match &self.aggregator {
            None => status_of(false, false, false),
            Some(a) => {
                let timed_out = a.is_timed_out();
                let ready = a.has_threshold();
                let r = status_of(true, timed_out, ready);
                proof {
                    let e = choose|e: Duration| timed_out == #[trigger] duration_exceeds(e, a.spec_timeout());
                    assert(r == round_status(true, duration_exceeds(e, a.spec_timeout()), ready));
                }
                r
            },
        }
    }

    /// The aggregate of the current round's signatures, as the round's
    /// aggregator builds it; refused when no round was started.
    pub fn finish_collection(&self) -> (r: Result<AggregateAuthMessage, CoordinatorAuthError>)
        ensures
            self.spec_aggregator() is None ==> r matches Err(CoordinatorAuthError::NoNodesRegistered),
            self.spec_aggregator() matches Some(a) ==> (a.signers().len() < a.spec_threshold() ==> (r matches Err(
                CoordinatorAuthError::AggregationFailed(AggregationError::ThresholdNotReached(have, need)),
            ) && have == a.signers().len() && need == a.spec_threshold())),
            self.spec_aggregator() matches Some(a) ==> (a.signers().len() >= a.spec_threshold() ==> exists|
                c: Result<AggregateAuthMessage, CryptoError>,
            |
                {
                    &&& is_create_outcome(c, a.collected(), a.spec_threshold(), a.spec_total_nodes())
                    &&& match c {
                        Ok(m) => r == Ok::<AggregateAuthMessage, CoordinatorAuthError>(m),
                        Err(e) => r matches Err(
                            CoordinatorAuthError::AggregationFailed(AggregationError::MessageMismatch(t)),
                        ) && t@ == crypto_error_text(e),
                    }
                }),
    {
        match &self.aggregator {
            Some(a) => match a.create_aggregate() {
                Ok(m) => Ok(m),
                Err(e) => Err(CoordinatorAuthError::AggregationFailed(e)),
            },
            None => Err(CoordinatorAuthError::NoNodesRegistered),
        }
    }

    /// The nodes an aggregate goes to: every registered node. Refused when
    /// authentication is off or no node is registered.
    pub fn broadcast_targets(&self) -> (r: Result<Vec<String>, CoordinatorAuthError>)
        ensures
            !self.spec_enabled() ==> r matches Err(CoordinatorAuthError::AuthDisabled),
            self.spec_enabled() && self.registered().len() == 0 ==> r matches Err(
                CoordinatorAuthError::NoNodesRegistered,
            ),
            self.spec_enabled() && self.registered().len() > 0 ==> (r matches Ok(v) && string_views(v@)
                == self.registered()),
    {
        if !self.enable_auth {
            return Err(CoordinatorAuthError::AuthDisabled);
        }
        if self.node_ids.len() == 0 {
            return Err(CoordinatorAuthError::NoNodesRegistered);
        }
        Ok(self.expected_nodes())
    }

    /// A report of the authentication state.
    pub fn log_status_string(&self) -> (r: String)
        ensures
            r@ == status_text(
                match self.spec_aggregator() {
                    Some(a) => Some(
                        (
                            a.signers().len() as usize,
                            a.spec_total_nodes(),
                            a.spec_threshold(),
                            a.expected().filter(|n: Seq<char>| !a.signers().contains(n)),
                        ),
                    ),
                    None => None,
                },
                self.spec_enabled(),
                self.registered().len(),
                self.spec_threshold(),
            ),
    {
        let mut s = String::new();
        match &self.aggregator {
            Some(a) => {
                s.append("Auth status: ");
                push_decimal(&mut s, a.collected_count() as u64);
                s.append("/");
                push_decimal(&mut s, a.total_nodes() as u64);
                s.append(" signatures collected, need ");
                push_decimal(&mut s, a.threshold() as u64);
                let missing = a.missing_nodes();
                if missing.len() > 0 {
                    s.append("\n");
                    s.append("  Missing from: ");
                    let d = debug_strings(&missing);
                    s.append(d.as_str());
                }
            },
            None => {
                if self.enable_auth {
                    s.append("Auth status: ");
                    push_decimal(&mut s, self.node_ids.len() as u64);
                    s.append(" nodes registered, threshold ");
                    push_decimal(&mut s, self.auth_threshold as u64);
                } else {
                    s.append("Auth status: disabled");
                }
            },
        }
        proof {
            assert(s@ =~= status_text(
                match self.spec_aggregator() {
                    Some(a) => Some(
                        (
                            a.signers().len() as usize,
                            a.spec_total_nodes(),
                            a.spec_threshold(),
                            a.expected().filter(|n: Seq<char>| !a.signers().contains(n)),
                        ),
                    ),
                    None => None,
                },
                self.spec_enabled(),
                self.registered().len(),
                self.spec_threshold(),
            ));
        }
        s
    }

    /// Key rotation of the coordinator; not supported, so always refused.
    pub fn rotate_coordinator_keys(&mut self) -> (r: Result<(), String>)
        ensures
            r matches Err(m) && m@ == "coordinator key rotation not yet implemented"@,
            final(self).registered() == old(self).registered(),
            final(self).spec_aggregator() == old(self).spec_aggregator(),
    {
        Err(String::from_str("coordinator key rotation not yet implemented"))
    }
}

/// How long to wait before looking at a running collection again: 10 ms in
/// its first 10 ms, 100 ms after that.
pub fn poll_interval_ms(elapsed_ms: u128) -> (r: u64)
    ensures
        r == (if elapsed_ms < 10 {
            10u64
        } else {
            100u64
        }),
{
    if elapsed_ms < 10 {
        10
    } else {
        100
    }
}

} // verus!
