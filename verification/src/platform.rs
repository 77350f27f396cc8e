//! Clock and randomness sources, and the arithmetic of the durations the clock
//! gives. Readings of the clock and random values depend on the machine and
//! the moment of the call, so nothing is promised about them; what a duration
//! or a pair of instants yields depends on them alone and is named.
use vstd::prelude::*;

verus! {

#[verifier::external_type_specification]
#[verifier::external_body]
pub struct ExSystemTime(std::time::SystemTime);

/// The system clock's current reading (`SystemTime::now`).
#[verifier::external_body]
fn system_time_now() -> std::time::SystemTime {
    std::time::SystemTime::now()
}

/// Whole seconds from the Unix epoch to `t`, or `None` when `t` lies before the
/// epoch (`SystemTime::duration_since`).
#[verifier::external_body]
fn secs_since_unix_epoch(t: &std::time::SystemTime) -> Option<u64> {
    match t.duration_since(std::time::UNIX_EPOCH) {
        Ok(d) => Some(d.as_secs()),
        Err(_) => None,
    }
}

/// A uniformly random `u64` from the thread-local generator (`rand::random`).
#[verifier::external_body]
pub(crate) fn random_u64() -> u64 {
    rand::random::<u64>()
}

/// Thirty-two uniformly random bytes from the thread-local generator
/// (`rand::random`), used as an Ed25519 secret key.
#[verifier::external_body]
pub(crate) fn random_secret_key() -> [u8; 32] {
    rand::random::<[u8; 32]>()
}

/// The current time in whole seconds since the Unix epoch; a clock that reads
/// before the epoch counts as zero.
pub(crate) fn now_unix_secs() -> u64 {
    let t = system_time_now();
    match secs_since_unix_epoch(&t) {
        Some(s) => s,
        None => 0,
    }
}

} // verus!

verus! {

#[verifier::external_type_specification]
#[verifier::external_body]
pub struct ExInstant(std::time::Instant);

#[verifier::external_type_specification]
#[verifier::external_body]
pub struct ExUuid(uuid::Uuid);

/// A reading of the monotonic clock (`Instant::now`).
#[verifier::external_body]
pub(crate) fn instant_now() -> std::time::Instant {
    std::time::Instant::now()
}

/// The time that has passed since `start` (`Instant::elapsed`).
#[verifier::external_body]
pub(crate) fn instant_elapsed(start: &std::time::Instant) -> std::time::Duration {
    start.elapsed()
}

/// Whole seconds from `earlier` to `later`, zero when `later` is not after
/// `earlier`, as `Instant::duration_since` followed by `Duration::as_secs`
/// gives them.
pub uninterp spec fn instant_secs_since(later: std::time::Instant, earlier: std::time::Instant) -> u64;

/// The whole nanoseconds in `d` (`Duration::as_nanos`).
pub uninterp spec fn duration_nanos(d: std::time::Duration) -> u128;

/// The whole milliseconds in `d` (`Duration::as_millis`).
pub uninterp spec fn duration_ms(d: std::time::Duration) -> u128;

/// Whole seconds from `earlier` to `later`, zero when `later` is not after
/// `earlier` (`Instant::duration_since`, `Duration::as_secs`).
#[verifier::external_body]
pub(crate) fn instant_secs_between(later: &std::time::Instant, earlier: &std::time::Instant) -> (r: u64)
    ensures
        r == instant_secs_since(*later, *earlier),
{
    later.duration_since(*earlier).as_secs()
}

/// The whole nanoseconds in `d` (`Duration::as_nanos`).
#[verifier::external_body]
pub(crate) fn duration_as_nanos(d: &std::time::Duration) -> (r: u128)
    ensures
        r == duration_nanos(*d),
{
    d.as_nanos()
}

/// The whole milliseconds in `d` (`Duration::as_millis`).
#[verifier::external_body]
pub(crate) fn duration_millis(d: &std::time::Duration) -> (r: u128)
    ensures
        r == duration_ms(*d),
{
    d.as_millis()
}

/// A fresh random version-4 identifier (`Uuid::new_v4`).
#[verifier::external_body]
pub(crate) fn new_uuid_v4() -> uuid::Uuid {
    uuid::Uuid::new_v4()
}

} // verus!

verus! {

/// `Instant::clone`: `Instant` is `Copy`, so a clone equals the original.
pub assume_specification[ <std::time::Instant as std::clone::Clone>::clone ](
    i: &std::time::Instant,
) -> (r: std::time::Instant)
    ensures
        r == *i,
;

/// `Duration::clone`: `Duration` is `Copy`, so a clone equals the original.
pub assume_specification[ <std::time::Duration as std::clone::Clone>::clone ](
    d: &std::time::Duration,
) -> (r: std::time::Duration)
    ensures
        r == *d,
;

/// `Uuid::clone`: `Uuid` is `Copy`, so a clone equals the original.
pub assume_specification[ <uuid::Uuid as std::clone::Clone>::clone ](u: &uuid::Uuid) -> (r:
    uuid::Uuid)
    ensures
        r == *u,
;

} // verus!

verus! {

/// Whether something exists at path `p` (`Path::exists`). The answer depends
/// on the file system at the moment of the call, so nothing is promised.
#[verifier::external_body]
pub(crate) fn path_exists(p: &str) -> bool {
    std::path::Path::new(p).exists()
}

} // verus!
