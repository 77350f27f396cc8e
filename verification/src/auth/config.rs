//! Configuration of multi-signature authentication, its error types and the
//! counters kept about authentication rounds.
use vstd::prelude::*;
use std::path::PathBuf;
use std::time::Duration;
use crate::text::{push_decimal, decimal_chars};
use crate::platform::{duration_millis, duration_ms};

verus! {

#[verifier::external_type_specification]
#[verifier::external_body]
pub struct ExPathBuf(std::path::PathBuf);

/// Configuration for multi-signature authentication.
#[derive(Debug, Clone)]
pub struct AuthConfig {
    /// Enable multi-signature authentication.
    pub enabled: bool,
    /// Threshold for signature aggregation (m-of-n).
    pub threshold: usize,
    /// Maximum age for auth messages (seconds).
    pub max_message_age_secs: u64,
    /// Path to store node identity.
    pub identity_path: Option<PathBuf>,
    /// Key rotation interval (seconds, 0 = disabled).
    pub key_rotation_interval_secs: u64,
}

impl Default for AuthConfig {
    /// Authentication disabled, threshold 3, messages valid for 300 seconds,
    /// no identity path and no key rotation.
    fn default() -> (r: Self)
        ensures
            !r.enabled,
            r.threshold == 3,
            r.max_message_age_secs == 300,
            r.identity_path is None,
            r.key_rotation_interval_secs == 0,
    {
        AuthConfig {
            enabled: false,
            threshold: 3,
            max_message_age_secs: 300,
            identity_path: None,
            key_rotation_interval_secs: 0,
        }
    }
}

/// Errors loading or validating a configuration.
#[derive(Debug, Clone)]
pub enum ConfigError {
    Io(String),
    Parse(String),
    Validation(String),
}

/// The text each [`ConfigError`] displays.
pub open spec fn config_error_text(e: ConfigError) -> Seq<char> {
    match e {
        ConfigError::Io(m) => "configuration file error: "@ + m@,
        ConfigError::Parse(m) => "configuration parse error: "@ + m@,
        ConfigError::Validation(m) => "configuration validation error: "@ + m@,
    }
}

impl ConfigError {
    /// The human-readable description of the error.
    pub fn message(&self) -> (r: String)
        ensures
            r@ == config_error_text(*self),
    {
        let mut s = String::new();
        match self {
            ConfigError::Io(m) => {
                s.append("configuration file error: ");
                s.append(m.as_str());
            },
            ConfigError::Parse(m) => {
                s.append("configuration parse error: ");
                s.append(m.as_str());
            },
            ConfigError::Validation(m) => {
                s.append("configuration validation error: ");
                s.append(m.as_str());
            },
        }
        proof {
            assert(s@ =~= config_error_text(*self));
        }
        s
    }
}

impl AuthConfig {
    /// Checks the configuration: the threshold must be at least one.
    pub fn validate(&self) -> (r: Result<(), ConfigError>)
        ensures
            r is Ok <==> self.threshold >= 1,
            r is Err ==> (r matches Err(ConfigError::Validation(m)) && m@ == "threshold must be >= 1"@),
    {
        if self.threshold == 0 {
            return Err(ConfigError::Validation(String::from_str("threshold must be >= 1")));
        }
        Ok(())
    }
}

/// Failures of signature handling.
#[derive(Debug, Clone)]
pub enum SignatureError {
    VerificationFailed,
    InvalidFormat,
    AggregationFailed(String),
}

/// The text each [`SignatureError`] displays.
pub open spec fn signature_error_text(e: SignatureError) -> Seq<char> {
    match e {
        SignatureError::VerificationFailed => "signature verification failed"@,
        SignatureError::InvalidFormat => "invalid signature format"@,
        SignatureError::AggregationFailed(m) => "signature aggregation failed: "@ + m@,
    }
}

impl SignatureError {
    /// The human-readable description of the error.
    pub fn message(&self) -> (r: String)
        ensures
            r@ == signature_error_text(*self),
    {
        let mut s = String::new();
        match self {
            SignatureError::VerificationFailed => {
                s.append("signature verification failed");
            },
            SignatureError::InvalidFormat => {
                s.append("invalid signature format");
            },
            SignatureError::AggregationFailed(m) => {
                s.append("signature aggregation failed: ");
                s.append(m.as_str());
            },
        }
        proof {
            assert(s@ =~= signature_error_text(*self));
        }
        s
    }
}

/// Operations that ran out of time.
#[derive(Debug, Clone)]
pub enum TimeoutError {
    TimedOut(u64),
    MissingSignatures(usize),
}

/// The text each [`TimeoutError`] displays.
pub open spec fn timeout_error_text(e: TimeoutError) -> Seq<char> {
    match e {
        TimeoutError::TimedOut(s) => "operation timed out after "@ + decimal_chars(s as nat)
            + " seconds"@,
        TimeoutError::MissingSignatures(n) => "coordinator timeout: missing "@ + decimal_chars(
            n as nat,
        ) + " signatures"@,
    }
}

impl TimeoutError {
    /// The human-readable description of the error.
    pub fn message(&self) -> (r: String)
        ensures
            r@ == timeout_error_text(*self),
    {
        let mut s = String::new();
        match self {
            TimeoutError::TimedOut(secs) => {
                s.append("operation timed out after ");
                push_decimal(&mut s, *secs);
                s.append(" seconds");
            },
            TimeoutError::MissingSignatures(n) => {
                s.append("coordinator timeout: missing ");
                push_decimal(&mut s, *n as u64);
                s.append(" signatures");
            },
        }
        proof {
            assert(s@ =~= timeout_error_text(*self));
        }
        s
    }
}

/// Failures of node authentication.
#[derive(Debug, Clone)]
pub enum AuthError {
    AuthFailed(String),
    Signature(SignatureError),
    Timeout(TimeoutError),
}

/// The text each [`AuthError`] displays.
pub open spec fn auth_error_text(e: AuthError) -> Seq<char> {
    match e {
        AuthError::AuthFailed(m) => "authentication failed: "@ + m@,
        AuthError::Signature(s) => "signature error: "@ + signature_error_text(s),
        AuthError::Timeout(t) => "timeout: "@ + timeout_error_text(t),
    }
}

impl AuthError {
    /// The human-readable description of the error.
    pub fn message(&self) -> (r: String)
        ensures
            r@ == auth_error_text(*self),
    {
        let mut s = String::new();
        match self {
            AuthError::AuthFailed(m) => {
                s.append("authentication failed: ");
                s.append(m.as_str());
            },
            AuthError::Signature(e) => {
                s.append("signature error: ");
                let inner = e.message();
                s.append(inner.as_str());
            },
            AuthError::Timeout(e) => {
                s.append("timeout: ");
                let inner = e.message();
                s.append(inner.as_str());
            },
        }
        proof {
            assert(s@ =~= auth_error_text(*self));
        }
        s
    }
}

impl From<SignatureError> for AuthError {
    fn from(e: SignatureError) -> (r: AuthError) {
        AuthError::Signature(e)
    }
}

impl vstd::std_specs::convert::FromSpecImpl<SignatureError> for AuthError {
    open spec fn obeys_from_spec() -> bool {
        true
    }

    open spec fn from_spec(e: SignatureError) -> AuthError {
        AuthError::Signature(e)
    }
}

impl From<TimeoutError> for AuthError {
    fn from(e: TimeoutError) -> (r: AuthError) {
        AuthError::Timeout(e)
    }
}

impl vstd::std_specs::convert::FromSpecImpl<TimeoutError> for AuthError {
    open spec fn obeys_from_spec() -> bool {
        true
    }

    open spec fn from_spec(e: TimeoutError) -> AuthError {
        AuthError::Timeout(e)
    }
}

/// Counters about authentication: how many nodes have authenticated and how
/// long the last consensus took.
#[derive(Debug)]
pub struct AuthMetrics {
    pub nodes_authenticated: usize,
    pub consensus_time_ms: u64,
}

impl AuthMetrics {
    /// Both counters at zero.
    pub fn new() -> (r: Self)
        ensures
            r.nodes_authenticated == 0,
            r.consensus_time_ms == 0,
    {
        AuthMetrics { nodes_authenticated: 0, consensus_time_ms: 0 }
    }

    /// Counts one more authenticated node; the counter wraps around at its
    /// maximum, as an atomic `fetch_add` does.
    pub fn increment_authenticated(&mut self)
        ensures
            final(self).nodes_authenticated == (if old(self).nodes_authenticated == usize::MAX {
                0
            } else {
                old(self).nodes_authenticated + 1
            }),
            final(self).consensus_time_ms == old(self).consensus_time_ms,
    {
        self.nodes_authenticated = self.nodes_authenticated.wrapping_add(1);
    }

    /// Records a consensus time given in whole milliseconds, keeping its low
    /// 64 bits.
    pub fn record_consensus_time_ms(&mut self, millis: u128)
        ensures
            final(self).consensus_time_ms == millis as u64,
            final(self).nodes_authenticated == old(self).nodes_authenticated,
    {
        self.consensus_time_ms = millis as u64;
    }

    /// Records the duration of the last consensus, in whole milliseconds
    /// (the low 64 bits of them).
    pub fn record_consensus_time(&mut self, duration: Duration)
        ensures
            final(self).consensus_time_ms == duration_ms(duration) as u64,
            final(self).nodes_authenticated == old(self).nodes_authenticated,
    {
        let millis = duration_millis(&duration);
        self.record_consensus_time_ms(millis);
    }

    /// The number of authenticated nodes.
    pub fn nodes_authenticated(&self) -> (r: usize)
        ensures
            r == self.nodes_authenticated,
    {
        self.nodes_authenticated
    }

    /// The last recorded consensus time in milliseconds.
    pub fn consensus_time_ms(&self) -> (r: u64)
        ensures
            r == self.consensus_time_ms,
    {
        self.consensus_time_ms
    }
}

} // verus!
