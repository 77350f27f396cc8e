//! Coordinator side of the authentication protocol: starting a collection
//! round, reporting its status, broadcasting and rotating rounds.
use vstd::prelude::*;
use std::time::Duration;
use uuid::Uuid;
use crate::auth::aggregator::{Aggregator, AggregationError};
use crate::auth::messages::AggregateAuthMessage;
use crate::text::{push_decimal, decimal_chars, string_views};

verus! {

/// Failures broadcasting the aggregate.
#[derive(Debug)]
pub enum BroadcastError {
    NoNodesRegistered,
    SendFailed(String, String),
}

/// The text each [`BroadcastError`] displays.
pub open spec fn broadcast_error_text(e: BroadcastError) -> Seq<char> {
    match e {
        BroadcastError::NoNodesRegistered => "no nodes registered for broadcast"@,
        BroadcastError::SendFailed(n, m) => "failed to send to node "@ + n@ + ": "@ + m@,
    }
}

impl BroadcastError {
    /// The human-readable description of the error.
    pub fn message(&self) -> (r: String)
        ensures
            r@ == broadcast_error_text(*self),
    {
        let mut s = String::new();
        match self {
            BroadcastError::NoNodesRegistered => {
                s.append("no nodes registered for broadcast");
            },
            BroadcastError::SendFailed(n, m) => {
                s.append("failed to send to node ");
                s.append(n.as_str());
                s.append(": ");
                s.append(m.as_str());
            },
        }
        proof {
            assert(s@ =~= broadcast_error_text(*self));
        }
        s
    }
}

/// Failures rotating the coordinator's keys.
#[derive(Debug)]
pub enum KeyRotationError {
    RotationFailed(String),
}

impl KeyRotationError {
    /// The human-readable description of the error.
    pub fn message(&self) -> (r: String)
        ensures
            r@ == "key rotation failed: "@ + self->RotationFailed_0@,
    {
        let mut s = String::new();
        match self {
            KeyRotationError::RotationFailed(m) => {
                s.append("key rotation failed: ");
                s.append(m.as_str());
            },
        }
        s
    }
}

/// The coordinator's authentication state: the participating nodes, whether
/// authentication is on, the threshold, and the current collection round.
#[derive(Debug)]
pub struct CoordinatorAuth {
    pub node_ids: Vec<String>,
    pub aggregator: Option<Aggregator>,
    pub enable_auth: bool,
    pub threshold: usize,
}

/// A summary of the coordinator's authentication state.
#[derive(Debug)]
pub enum CoordinatorStatus {
    NotStarted,
    Collecting {
        collected: usize,
        total: usize,
        threshold: usize,
        missing_count: usize,
        is_complete: bool,
        is_timed_out: bool,
    },
}

/// The text each [`CoordinatorStatus`] displays.
pub open spec fn coordinator_status_text(s: CoordinatorStatus) -> Seq<char> {
    match s {
        CoordinatorStatus::NotStarted => "not_started"@,
        CoordinatorStatus::Collecting {
            collected,
            total,
            threshold,
            missing_count,
            is_complete,
            is_timed_out,
        } => if is_complete {
            "complete:"@ + decimal_chars(collected as nat) + "/"@ + decimal_chars(threshold as nat)
        } else if is_timed_out {
            "timeout:"@ + decimal_chars(collected as nat) + "/"@ + decimal_chars(threshold as nat)
        } else {
            "collecting:"@ + decimal_chars(collected as nat) + "/"@ + decimal_chars(total as nat)
                + " (missing: "@ + decimal_chars(missing_count as nat) + ", threshold: "@
                + decimal_chars(threshold as nat) + ")"@
        },
    }
}

impl CoordinatorStatus {
    /// The compact textual form of the status.
    pub fn message(&self) -> (r: String)
        ensures
            r@ == coordinator_status_text(*self),
    {
        let mut s = String::new();
        match self {
            CoordinatorStatus::NotStarted => {
                s.append("not_started");
            },
            CoordinatorStatus::Collecting {
                collected,
                total,
                threshold,
                missing_count,
                is_complete,
                is_timed_out,
            } => {
                if *is_complete {
                    s.append("complete:");
                    push_decimal(&mut s, *collected as u64);
                    s.append("/");
                    push_decimal(&mut s, *threshold as u64);
                } else if *is_timed_out {
                    s.append("timeout:");
                    push_decimal(&mut s, *collected as u64);
                    s.append("/");
                    push_decimal(&mut s, *threshold as u64);
                } else {
                    s.append("collecting:");
                    push_decimal(&mut s, *collected as u64);
                    s.append("/");
                    push_decimal(&mut s, *total as u64);
                    s.append(" (missing: ");
                    push_decimal(&mut s, *missing_count as u64);
                    s.append(", threshold: ");
                    push_decimal(&mut s, *threshold as u64);
                    s.append(")");
                }
            },
        }
        proof {
            assert(s@ =~= coordinator_status_text(*self));
        }
        s
    }
}

impl CoordinatorAuth {
    /// Authentication state for the given nodes, with no round started.
    pub fn new(node_ids: Vec<String>, enable_auth: bool, threshold: usize) -> (r: Self)
        ensures
            r.node_ids == node_ids,
            r.aggregator is None,
            r.enable_auth == enable_auth,
            r.threshold == threshold,
    {
        CoordinatorAuth { node_ids, aggregator: None, enable_auth, threshold }
    }

    /// Starts a collection round over all nodes with the configured threshold;
    /// does nothing when authentication is off.
    pub fn start_collection(&mut self, timeout: Duration) -> (r: Result<(), AggregationError>)
        ensures
            r is Ok,
            final(self).node_ids == old(self).node_ids,
            final(self).enable_auth == old(self).enable_auth,
            final(self).threshold == old(self).threshold,
            !old(self).enable_auth ==> final(self).aggregator == old(self).aggregator,
            old(self).enable_auth ==> (final(self).aggregator matches Some(a) && a.signers().len() == 0
                && a.expected().to_set() == string_views(old(self).node_ids@).to_set()
                && a.spec_threshold() == old(self).threshold && a.spec_total_nodes()
                == old(self).node_ids@.len() && a.spec_timeout() == timeout),
    {
        if !self.enable_auth {
            return Ok(());
        }
        let ids = self.node_ids.clone();
        proof {
            assert(ids@ =~= self.node_ids@) by {
                assert forall|i: int| 0 <= i < ids@.len() implies ids@[i] == self.node_ids@[i] by {
                    assert(vstd::pervasive::cloned::<String>(self.node_ids@[i], ids@[i]));
                }
            }
        }
        self.aggregator = Some(Aggregator::new(ids, self.threshold, timeout));
        Ok(())
    }

    /// Whether authentication is on.
    pub fn is_auth_enabled(&self) -> (r: bool)
        ensures
            r == self.enable_auth,
    {
        self.enable_auth
    }

    /// The current round, if one was started.
    pub fn get_aggregator(&self) -> (r: Option<&Aggregator>)
        ensures
            (match self.aggregator {
                Some(a) => r matches Some(x) && *x == a,
                None => r is None,
            }),
    {
        self.aggregator.as_ref()
    }

    /// The current round for updating, if one was started.
    pub fn get_aggregator_mut(&mut self) -> (r: Option<&mut Aggregator>)
        ensures
            (match old(self).aggregator {
                None => final(self).aggregator is None && r is None,
                Some(a) => final(self).aggregator is Some && r is Some && *r->Some_0 == a
                    && *final(r->Some_0) == final(self).aggregator->Some_0,
            }),
            final(self).node_ids == old(self).node_ids,
            final(self).enable_auth == old(self).enable_auth,
            final(self).threshold == old(self).threshold,
    {
        self.aggregator.as_mut()
    }

    /// The configured threshold.
    pub fn get_threshold(&self) -> (r: usize)
        ensures
            r == self.threshold,
    {
        self.threshold
    }

    /// The participating nodes.
    pub fn get_node_ids(&self) -> (r: &[String])
        ensures
            r@ == self.node_ids@,
    {
        self.node_ids.as_slice()
    }

    /// The identifier of the current round, if one was started.
    pub fn get_current_round_id(&self) -> (r: Option<Uuid>)
        ensures
            r == (match self.aggregator {
                Some(a) => Some(a.spec_round_id()),
                None => None,
            }),
    {
        match &self.aggregator {
            Some(a) => Some(a.round_id()),
            None => None,
        }
    }

    /// Announces the aggregate to the nodes; fails when there are none.
    pub fn broadcast_aggregate_to_all_nodes(&self, agg_msg: &AggregateAuthMessage) -> (r: Result<
        (),
        BroadcastError,
    >)
        ensures
            r is Ok <==> self.node_ids@.len() > 0,
            r is Err ==> r matches Err(BroadcastError::NoNodesRegistered),
    {
        if self.node_ids.len() == 0 {
            return Err(BroadcastError::NoNodesRegistered);
        }
        Ok(())
    }

    /// Rotates the coordinator's keys by starting a new round: collected
    /// signatures are dropped and the round gets a fresh id.
    pub fn rotate_coordinator_keys(&mut self) -> (r: Result<(), KeyRotationError>)
        ensures
            r is Ok,
            final(self).node_ids == old(self).node_ids,
            final(self).enable_auth == old(self).enable_auth,
            final(self).threshold == old(self).threshold,
            round_restarted(old(self).aggregator, final(self).aggregator),
    {
        self.reset_with_new_round();
        Ok(())
    }

    /// A summary of the current round: not started, or how many signatures
    /// are collected and missing, whether the threshold is met and whether
    /// the round has timed out.
    pub fn status_summary(&self) -> (r: CoordinatorStatus)
        ensures
            self.aggregator is None ==> r is NotStarted,
            self.aggregator matches Some(a) ==> (r matches CoordinatorStatus::Collecting {
                collected,
                total,
                threshold,
                missing_count,
                is_complete,
                ..
            } && collected == a.signers().len() && total == a.spec_total_nodes() && threshold
                == a.spec_threshold() && missing_count == a.expected().filter(
                |n: Seq<char>| !a.signers().contains(n),
            ).len() && is_complete == (a.signers().len() >= a.spec_threshold())),
    {
        match &self.aggregator {
            Some(agg) => {
                let collected = agg.collected_count();
                let total = agg.total_nodes();
                let threshold = agg.threshold();
                let missing = agg.missing_nodes();
                let missing_count = missing.len();
                CoordinatorStatus::Collecting {
                    collected,
                    total,
                    threshold,
                    missing_count,
                    is_complete: agg.has_threshold(),
                    is_timed_out: agg.is_timed_out(),
                }
            },
            None => CoordinatorStatus::NotStarted,
        }
    }

    /// Drops the current round.
    pub fn reset(&mut self)
        ensures
            final(self).aggregator is None,
            final(self).node_ids == old(self).node_ids,
            final(self).enable_auth == old(self).enable_auth,
            final(self).threshold == old(self).threshold,
    {
        self.aggregator = None;
    }

    /// Restarts the current round, if any, with no signatures and a fresh id.
    pub fn reset_with_new_round(&mut self)
        ensures
            final(self).node_ids == old(self).node_ids,
            final(self).enable_auth == old(self).enable_auth,
            final(self).threshold == old(self).threshold,
            round_restarted(old(self).aggregator, final(self).aggregator),
    {
        match &mut self.aggregator {
            Some(agg) => {
                agg.reset();
            },
            None => {},
        }
    }

    /// The same state with `aggregator` as the current round.
    pub fn with_aggregator(self, aggregator: Aggregator) -> (r: Self)
        ensures
            r.aggregator == Some(aggregator),
            r.node_ids == self.node_ids,
            r.enable_auth == self.enable_auth,
            r.threshold == self.threshold,
    {
        let mut s = self;
        s.aggregator = Some(aggregator);
        s
    }
}

/// Whether `after` is `before` restarted: no round stays no round, and a
/// round keeps its expected nodes, threshold, size and timeout but has no
/// signatures.
pub open spec fn round_restarted(before: Option<Aggregator>, after: Option<Aggregator>) -> bool {
    match before {
        None => after is None,
        Some(b) => after matches Some(a) && a.signers().len() == 0 && a.expected() == b.expected()
            && a.spec_threshold() == b.spec_threshold() && a.spec_total_nodes()
            == b.spec_total_nodes() && a.spec_timeout() == b.spec_timeout(),
    }
}

} // verus!
