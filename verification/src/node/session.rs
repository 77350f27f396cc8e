//! Decisions a node takes while it works with the coordinator: whether to
//! resume cached work, how it names itself, what it does with each message
//! while it waits for training to start, and how it asks for more work.
//! Sending, receiving and waiting are the caller's; these functions say what
//! to do next.
use vstd::prelude::*;

verus! {

/// What to do with shard state cached from an earlier run.
#[derive(Debug, Clone, Copy, PartialEq, Eq)]
pub enum ResumeDecision {
    Resume,
    RequestAssignment,
}

/// Resume when the cached run had reached a checkpoint, otherwise ask the
/// coordinator for a fresh assignment.
pub fn decide_resume_or_reassign(last_checkpoint_step: u64) -> (r: ResumeDecision)
    ensures
        r == (if last_checkpoint_step > 0 {
            ResumeDecision::Resume
        } else {
            ResumeDecision::RequestAssignment
        }),
{
    if last_checkpoint_step > 0 {
        ResumeDecision::Resume
    } else {
        ResumeDecision::RequestAssignment
    }
}

/// The name a node shows: the one it was given, or else the first twelve
/// characters of its id.
pub open spec fn display_name_of(name: Option<Seq<char>>, node_id: Seq<char>) -> Seq<char> {
    match name {
        Some(n) => n,
        None => if node_id.len() > 12 {
            node_id.take(12)
        } else {
            node_id
        },
    }
}

/// The name a node shows.
pub fn display_name(name: Option<String>, node_id: &str) -> (r: String)
    ensures
        r@ == display_name_of(
            match name {
                Some(n) => Some(n@),
                None => None,
            },
            node_id@,
        ),
{
    match name {
        Some(n) => n,
        None => {
            let n = node_id.unicode_len();
            if n > 12 {
                let s = node_id.substring_char(0, 12);
                String::from_str(s)
            } else {
                String::from_str(node_id)
            }
        },
    }
}

/// How long a node waits for the go-ahead to train, in nanoseconds (30 s).
pub const STANDBY_TIMEOUT_NANOS: u128 = 30000000000;

/// What a node waiting to train has received so far.
#[derive(Debug, Clone, Copy, PartialEq, Eq)]
pub struct StandbyState {
    /// A training configuration was accepted and its commit reported.
    pub has_config: bool,
    /// A shard was assigned.
    pub has_shard: bool,
    /// The coordinator said training may start.
    pub ready: bool,
}

/// Where a waiting node stands before it listens again.
#[derive(Debug, Clone, Copy, PartialEq, Eq)]
pub enum StandbyPhase {
    Train,
    TimedOut,
    Listen,
}

/// What a waiting node received, or that nothing came or the link closed.
#[derive(Debug, Clone, Copy, PartialEq, Eq)]
pub enum StandbyEvent {
    Ping,
    TrainConfig,
    TrainingReady,
    TrainingCancel,
    ShardAssignment,
    Heartbeat,
    TrainComplete,
    Other,
    Closed,
    Silence,
}

/// What a waiting node does about an event.
#[derive(Debug, Clone, Copy, PartialEq, Eq)]
pub enum StandbyAction {
    SendPong,
    SendHeartbeat,
    DiscoverEntrypoint,
    Cancelled,
    Finish,
    Continue,
}

impl StandbyState {
    /// Nothing received yet.
    pub fn new() -> (r: Self)
        ensures
            !r.has_config && !r.has_shard && !r.ready,
    {
        StandbyState { has_config: false, has_shard: false, ready: false }
    }

    /// Whether everything needed to train has arrived.
    pub open spec fn complete(self) -> bool {
        self.ready && self.has_config && self.has_shard
    }

    /// Before listening again: train once configuration, shard and go-ahead
    /// are all there; otherwise give up after more than 30 s of waiting.
    pub fn phase(&self, elapsed_nanos: u128) -> (r: StandbyPhase)
        ensures
            self.complete() ==> r == StandbyPhase::Train,
            !self.complete() && elapsed_nanos > STANDBY_TIMEOUT_NANOS ==> r == StandbyPhase::TimedOut,
            !self.complete() && elapsed_nanos <= STANDBY_TIMEOUT_NANOS ==> r == StandbyPhase::Listen,
    {
        if self.ready && self.has_config && self.has_shard {
            StandbyPhase::Train
        } else if elapsed_nanos > STANDBY_TIMEOUT_NANOS {
            StandbyPhase::TimedOut
        } else {
            StandbyPhase::Listen
        }
    }

    /// Records `event` and says what to do: answer pings and heartbeats, look
    /// for the entry point once training may start, stop on cancellation,
    /// completion or a closed link, and otherwise keep listening.
    pub fn on_event(&mut self, event: StandbyEvent) -> (r: StandbyAction)
        ensures
            final(self).has_config == (old(self).has_config || event == StandbyEvent::TrainConfig),
            final(self).has_shard == (old(self).has_shard || event == StandbyEvent::ShardAssignment),
            final(self).ready == (old(self).ready || event == StandbyEvent::TrainingReady),
            r == match event {
                StandbyEvent::Ping => StandbyAction::SendPong,
                StandbyEvent::Heartbeat => StandbyAction::SendHeartbeat,
                StandbyEvent::TrainingReady => StandbyAction::DiscoverEntrypoint,
                StandbyEvent::TrainingCancel => StandbyAction::Cancelled,
                StandbyEvent::TrainComplete => StandbyAction::Finish,
                StandbyEvent::Closed => StandbyAction::Finish,
                _ => StandbyAction::Continue,
            },
    {
        match event {
            StandbyEvent::Ping => StandbyAction::SendPong,
            StandbyEvent::TrainConfig => {
                self.has_config = true;
                StandbyAction::Continue
            },
            StandbyEvent::TrainingReady => {
                self.ready = true;
                StandbyAction::DiscoverEntrypoint
            },
            StandbyEvent::TrainingCancel => StandbyAction::Cancelled,
            StandbyEvent::ShardAssignment => {
                self.has_shard = true;
                StandbyAction::Continue
            },
            StandbyEvent::Heartbeat => StandbyAction::SendHeartbeat,
            StandbyEvent::TrainComplete => StandbyAction::Finish,
            StandbyEvent::Closed => StandbyAction::Finish,
            StandbyEvent::Other => StandbyAction::Continue,
            StandbyEvent::Silence => StandbyAction::Continue,
        }
    }

    /// Whether to train once waiting is over: only with configuration, shard
    /// and go-ahead all received.
    pub fn should_train(&self) -> (r: bool)
        ensures
            r == self.complete(),
    {
        self.ready && self.has_config && self.has_shard
    }
}

/// The error text for a node that waited too long for the go-ahead.
pub fn standby_timeout_message() -> (r: String)
    ensures
        r@ == "Standby timeout: no TrainingReady after 30s"@,
{
    String::from_str("Standby timeout: no TrainingReady after 30s")
}

/// The error text for a cancelled training run.
pub open spec fn cancelled_text(reason: Seq<char>) -> Seq<char> {
    "Training cancelled: "@ + reason
}

/// The error text for a cancelled training run.
pub fn cancelled_message(reason: &str) -> (r: String)
    ensures
        r@ == cancelled_text(reason@),
{
    let mut s = String::from_str("Training cancelled: ");
    s.append(reason);
    s
}

/// What a node waiting for its shard has seen: whether it holds a training
/// configuration, whether training may start, and whether the wait for the
/// go-ahead is running.
#[derive(Debug, Clone, Copy, PartialEq, Eq)]
pub struct ShardWait {
    pub has_config: bool,
    pub ready: bool,
    pub waiting: bool,
}

/// What a node waiting for its shard received.
#[derive(Debug, Clone, Copy, PartialEq, Eq)]
pub enum ShardWaitEvent {
    Ping,
    /// A training configuration; `commit_sent` tells whether its commit could
    /// be reported to the coordinator.
    TrainConfig { commit_sent: bool },
    ShardAssignment,
    Heartbeat,
    TrainingReady,
    TrainingCancel,
    TrainComplete,
    Other,
    Closed,
}

/// What a node waiting for its shard does about an event.
#[derive(Debug, Clone, Copy, PartialEq, Eq)]
pub enum ShardWaitAction {
    SendPong,
    SendHeartbeat,
    /// Restart the go-ahead timer.
    StartTimer,
    /// Save the shard, with the configuration held (which is used up).
    SaveShard,
    Stop,
    Continue,
}

impl ShardWait {
    /// Nothing seen yet.
    pub fn new() -> (r: Self)
        ensures
            !r.has_config && !r.ready && !r.waiting,
    {
        ShardWait { has_config: false, ready: false, waiting: false }
    }

    /// Whether the go-ahead has been awaited for more than 30 s.
    pub fn timed_out(&self, elapsed_nanos: u128) -> (r: bool)
        ensures
            r == (self.waiting && elapsed_nanos > STANDBY_TIMEOUT_NANOS),
    {
        self.waiting && elapsed_nanos > STANDBY_TIMEOUT_NANOS
    }

    /// Records `event` and says what to do. A shard that comes before the
    /// go-ahead ends the session; one that comes after is saved with the
    /// configuration held. Reporting a configuration's commit starts the wait
    /// for the go-ahead, which the go-ahead ends.
    pub fn on_event(&mut self, event: ShardWaitEvent) -> (r: ShardWaitAction)
        ensures
            r == match event {
                ShardWaitEvent::Ping => ShardWaitAction::SendPong,
                ShardWaitEvent::Heartbeat => ShardWaitAction::SendHeartbeat,
                ShardWaitEvent::TrainConfig { commit_sent } => if commit_sent {
                    ShardWaitAction::StartTimer
                } else {
                    ShardWaitAction::Continue
                },
                ShardWaitEvent::ShardAssignment => if old(self).ready {
                    ShardWaitAction::SaveShard
                } else {
                    ShardWaitAction::Stop
                },
                ShardWaitEvent::TrainingCancel => ShardWaitAction::Stop,
                ShardWaitEvent::TrainComplete => ShardWaitAction::Stop,
                ShardWaitEvent::Closed => ShardWaitAction::Stop,
                _ => ShardWaitAction::Continue,
            },
            final(self).has_config == match event {
                ShardWaitEvent::TrainConfig { .. } => true,
                ShardWaitEvent::ShardAssignment => old(self).has_config && !old(self).ready,
                _ => old(self).has_config,
            },
            final(self).ready == (old(self).ready || event == ShardWaitEvent::TrainingReady),
            final(self).waiting == match event {
                ShardWaitEvent::TrainConfig { commit_sent } => old(self).waiting || commit_sent,
                ShardWaitEvent::TrainingReady => false,
                _ => old(self).waiting,
            },
    {
        match event {
            ShardWaitEvent::Ping => ShardWaitAction::SendPong,
            ShardWaitEvent::TrainConfig { commit_sent } => {
                self.has_config = true;
                if commit_sent {
                    self.waiting = true;
                    ShardWaitAction::StartTimer
                } else {
                    ShardWaitAction::Continue
                }
            },
            ShardWaitEvent::ShardAssignment => {
                if self.ready {
                    self.has_config = false;
                    ShardWaitAction::SaveShard
                } else {
                    ShardWaitAction::Stop
                }
            },
            ShardWaitEvent::Heartbeat => ShardWaitAction::SendHeartbeat,
            ShardWaitEvent::TrainingReady => {
                self.ready = true;
                self.waiting = false;
                ShardWaitAction::Continue
            },
            ShardWaitEvent::TrainingCancel => ShardWaitAction::Stop,
            ShardWaitEvent::TrainComplete => ShardWaitAction::Stop,
            ShardWaitEvent::Other => ShardWaitAction::Continue,
            ShardWaitEvent::Closed => ShardWaitAction::Stop,
        }
    }
}

/// How many times a node asks for more work before it gives up.
pub const MAX_RETRIES: u32 = 3;

/// How long a node waits for an answer to a request for more work, in
/// seconds.
pub const RETRY_DELAY_SECS: u64 = 5;

/// The coordinator's answer to a request for more work.
#[derive(Debug, Clone, Copy, PartialEq, Eq)]
pub enum WorkAnswer {
    NoMoreWork,
    AssignNext,
    Unexpected,
    ReadFailed,
    TimedOut,
}

/// What a node does after asking for more work.
#[derive(Debug, Clone, Copy, PartialEq, Eq)]
pub enum WorkAction {
    /// No work is left: keep the cached state and stop.
    Shutdown,
    /// Save the new shard and train on it.
    Train,
    /// Ask again.
    Retry,
    /// Assume the coordinator is gone and stop.
    GiveUp,
    /// The answer did not come in time: stop with an error.
    Abort,
}

/// The step after the `attempt`-th request for more work (counting from 1)
/// got `answer`: a wrong or unreadable answer is retried until
/// [`MAX_RETRIES`] requests have been made.
pub open spec fn work_step(attempt: u32, answer: WorkAnswer) -> WorkAction {
    match answer {
        WorkAnswer::NoMoreWork => WorkAction::Shutdown,
        WorkAnswer::AssignNext => WorkAction::Train,
        WorkAnswer::TimedOut => WorkAction::Abort,
        _ => if attempt >= MAX_RETRIES {
            WorkAction::GiveUp
        } else {
            WorkAction::Retry
        },
    }
}

/// The step after the `attempt`-th request for more work got `answer`.
pub fn work_request_step(attempt: u32, answer: WorkAnswer) -> (r: WorkAction)
    ensures
        r == work_step(attempt, answer),
{
    match answer {
        WorkAnswer::NoMoreWork => WorkAction::Shutdown,
        WorkAnswer::AssignNext => WorkAction::Train,
        WorkAnswer::TimedOut => WorkAction::Abort,
        _ => if attempt >= MAX_RETRIES {
            WorkAction::GiveUp
        } else {
            WorkAction::Retry
        },
    }
}

/// Asking for work ends after at most [`MAX_RETRIES`] requests: from the
/// last one on, no answer leads to another request.
pub proof fn lemma_requests_bounded(attempt: u32, answer: WorkAnswer)
    requires
        attempt >= MAX_RETRIES,
    ensures
        work_step(attempt, answer) != WorkAction::Retry,
{
}

} // verus!
