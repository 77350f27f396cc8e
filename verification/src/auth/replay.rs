//! Replay protection: timestamps must be recent and nonces must not repeat.
//! Seen nonces are kept in a bounded least-recently-used cache.
use vstd::prelude::*;
use std::time::Duration;
use lru::LruCache;
use crate::auth::messages::timestamp_fresh;
use crate::text::{push_decimal, decimal_chars};
use crate::platform::now_unix_secs;

verus! {

#[verifier::external_type_specification]
#[verifier::external_body]
#[verifier::reject_recursive_types(K)]
#[verifier::reject_recursive_types(V)]
#[verifier::reject_recursive_types(S)]
pub struct ExLruCache<K, V, S>(lru::LruCache<K, V, S>);

#[verifier::external_type_specification]
#[verifier::external_body]
pub struct ExLruDefaultHasher(lru::DefaultHasher);

/// The keys held by `cache`, least recently used first.
pub uninterp spec fn lru_keys(cache: LruCache<u64, ()>) -> Seq<u64>;

/// The number of entries `cache` was created to hold.
pub uninterp spec fn lru_capacity(cache: LruCache<u64, ()>) -> nat;

/// Holds of every key other than `key`.
pub open spec fn other_than(key: u64) -> spec_fn(u64) -> bool {
    |k: u64| k != key
}

/// `keys` after `key` has been used: it moves to the most recent end.
pub open spec fn lru_promote(keys: Seq<u64>, key: u64) -> Seq<u64> {
    keys.filter(other_than(key)).push(key)
}

/// `keys` after `key` is put into a cache of capacity `cap`: a present key is
/// promoted; otherwise, unless the capacity is zero, the key is added as most
/// recent, evicting the least recent key when the cache is full.
pub open spec fn lru_after_put(keys: Seq<u64>, cap: nat, key: u64) -> Seq<u64> {
    if keys.contains(key) {
        lru_promote(keys, key)
    } else if cap == 0 {
        keys
    } else if keys.len() == cap {
        keys.drop_first().push(key)
    } else {
        keys.push(key)
    }
}

/// An empty cache holding at most `cap` entries (`LruCache::new`). The
/// underlying map is allocated with room for `cap` entries at once; a
/// capacity beyond what memory can hold makes that allocation fail, which no
/// clause here rules out.
#[verifier::external_body]
fn lru_new(cap: usize) -> (cache: LruCache<u64, ()>)
    ensures
        lru_keys(cache) == Seq::<u64>::empty(),
        lru_capacity(cache) == cap,
{
    LruCache::new(cap)
}

/// Looks `key` up (`LruCache::get`); a present key becomes the most recently
/// used.
#[verifier::external_body]
fn lru_get(cache: &mut LruCache<u64, ()>, key: u64) -> (found: bool)
    ensures
        found == lru_keys(*old(cache)).contains(key),
        lru_keys(*final(cache)) == (if found {
            lru_promote(lru_keys(*old(cache)), key)
        } else {
            lru_keys(*old(cache))
        }),
        lru_capacity(*final(cache)) == lru_capacity(*old(cache)),
{
    cache.get(&key).is_some()
}

/// Inserts `key` (`LruCache::put`), as [`lru_after_put`] describes.
#[verifier::external_body]
fn lru_put(cache: &mut LruCache<u64, ()>, key: u64)
    ensures
        lru_keys(*final(cache)) == lru_after_put(lru_keys(*old(cache)), lru_capacity(*old(cache)), key),
        lru_capacity(*final(cache)) == lru_capacity(*old(cache)),
{
    cache.put(key, ());
}

/// The number of entries (`LruCache::len`).
#[verifier::external_body]
fn lru_len(cache: &LruCache<u64, ()>) -> (n: usize)
    ensures
        n == lru_keys(*cache).len(),
{
    cache.len()
}

/// Whether the cache holds no entry (`LruCache::is_empty`).
#[verifier::external_body]
fn lru_is_empty(cache: &LruCache<u64, ()>) -> (b: bool)
    ensures
        b == (lru_keys(*cache).len() == 0),
{
    cache.is_empty()
}

/// Records the nonces seen recently, up to a fixed number of them.
pub struct NonceStore {
    seen_nonces: LruCache<u64, ()>,
    ttl: Duration,
}

/// `keys` after a nonce check of `nonce` in a cache of capacity `cap`: a seen
/// nonce is promoted, a new one is put.
pub open spec fn keys_after_check(keys: Seq<u64>, cap: nat, nonce: u64) -> Seq<u64> {
    if keys.contains(nonce) {
        lru_promote(keys, nonce)
    } else {
        lru_after_put(keys, cap, nonce)
    }
}

impl NonceStore {
    /// The nonces remembered, least recently used first.
    pub closed spec fn seen(self) -> Seq<u64> {
        lru_keys(self.seen_nonces)
    }

    /// How many nonces the store can remember.
    pub closed spec fn capacity(self) -> nat {
        lru_capacity(self.seen_nonces)
    }

    /// The time-to-live the store was created with.
    pub closed spec fn spec_ttl(self) -> Duration {
        self.ttl
    }

    /// Each nonce is remembered once, and no more than the capacity are kept.
    #[verifier::type_invariant]
    pub closed spec fn well_formed(self) -> bool {
        &&& self.seen().no_duplicates()
        &&& self.seen().len() <= self.capacity()
    }

    /// An empty store remembering at most `capacity` nonces.
    pub fn new(capacity: usize, ttl: Duration) -> (r: Self)
        ensures
            r.seen() == Seq::<u64>::empty(),
            r.capacity() == capacity,
            r.spec_ttl() == ttl,
    {
        NonceStore { seen_nonces: lru_new(capacity), ttl }
    }

    /// Returns true, and remembers the nonce, when it has not been seen;
    /// returns false for a replayed nonce. Either way the nonce becomes the
    /// most recently used.
    pub fn check_and_record(&mut self, nonce: u64) -> (r: bool)
        ensures
            r == !old(self).seen().contains(nonce),
            final(self).seen() == keys_after_check(old(self).seen(), old(self).capacity(), nonce),
            final(self).capacity() == old(self).capacity(),
            final(self).spec_ttl() == old(self).spec_ttl(),
            final(self).capacity() > 0 ==> final(self).seen().contains(nonce),
    {
        proof {
            use_type_invariant(&*self);
            lemma_keys_after_check_wf(self.seen(), self.capacity(), nonce);
        }
        let mut cache = lru_new(0);
        std::mem::swap(&mut cache, &mut self.seen_nonces);
        if lru_get(&mut cache, nonce) {
            self.seen_nonces = cache;
            return false;
        }
        lru_put(&mut cache, nonce);
        self.seen_nonces = cache;
        true
    }

    /// Whether the nonce has been seen; a seen nonce becomes the most recently
    /// used.
    pub fn is_replay(&mut self, nonce: u64) -> (r: bool)
        ensures
            r == old(self).seen().contains(nonce),
            final(self).seen() == (if r {
                lru_promote(old(self).seen(), nonce)
            } else {
                old(self).seen()
            }),
            final(self).capacity() == old(self).capacity(),
            final(self).spec_ttl() == old(self).spec_ttl(),
    {
        proof {
            use_type_invariant(&*self);
            if self.seen().contains(nonce) {
                lemma_promote_wf(self.seen(), nonce);
            }
        }
        let mut cache = lru_new(0);
        std::mem::swap(&mut cache, &mut self.seen_nonces);
        let r = lru_get(&mut cache, nonce);
        self.seen_nonces = cache;
        r
    }

    /// The number of nonces remembered.
    pub fn len(&self) -> (r: usize)
        ensures
            r == self.seen().len(),
    {
        lru_len(&self.seen_nonces)
    }

    /// Whether no nonce is remembered.
    pub fn is_empty(&self) -> (r: bool)
        ensures
            r == (self.seen().len() == 0),
    {
        lru_is_empty(&self.seen_nonces)
    }
}

impl Clone for NonceStore {
    /// A store with the same time-to-live that remembers no nonce and holds at
    /// most 100 of them.
    fn clone(&self) -> (r: Self)
        ensures
            r.seen() == Seq::<u64>::empty(),
            r.capacity() == 100,
            r.spec_ttl() == self.spec_ttl(),
    {
        NonceStore { seen_nonces: lru_new(100), ttl: self.ttl }
    }
}

/// Promoting a key keeps the keys distinct and their number unchanged.
proof fn lemma_promote_wf(keys: Seq<u64>, key: u64)
    requires
        keys.no_duplicates(),
        keys.contains(key),
    ensures
        lru_promote(keys, key).no_duplicates(),
        lru_promote(keys, key).len() == keys.len(),
{
    let pred = other_than(key);
    let f = keys.filter(pred);
    broadcast use vstd::seq_lib::group_filter_ensures;
    lemma_filter_no_dup(keys, pred);
    lemma_filter_drops_one(keys, key);
    assert(!f.contains(key)) by {
        if f.contains(key) {
            let i = choose|i: int| 0 <= i < f.len() && f[i] == key;
            assert(pred(f[i]));
        }
    }
}

/// Filtering keeps a sequence free of duplicates.
proof fn lemma_filter_no_dup(keys: Seq<u64>, pred: spec_fn(u64) -> bool)
    requires
        keys.no_duplicates(),
    ensures
        keys.filter(pred).no_duplicates(),
    decreases keys.len(),
{
    reveal_with_fuel(Seq::filter, 1);
    if keys.len() > 0 {
        let init = keys.drop_last();
        assert(init.no_duplicates());
        lemma_filter_no_dup(init, pred);
        broadcast use vstd::seq_lib::group_filter_ensures;
        if pred(keys.last()) {
            assert(!init.filter(pred).contains(keys.last())) by {
                if init.filter(pred).contains(keys.last()) {
                    init.lemma_filter_contains_rev(pred, keys.last());
                    let i = choose|i: int| 0 <= i < init.len() && init[i] == keys.last();
                    assert(keys[i] == keys[keys.len() - 1]);
                }
            }
        }
    }
}

/// Removing a key that occurs once shortens the sequence by one.
proof fn lemma_filter_drops_one(keys: Seq<u64>, key: u64)
    requires
        keys.no_duplicates(),
        keys.contains(key),
    ensures
        keys.filter(other_than(key)).len() == keys.len() - 1,
    decreases keys.len(),
{
    reveal_with_fuel(Seq::filter, 1);
    let init = keys.drop_last();
    assert(init.no_duplicates());
    if keys.last() == key {
        assert(!init.contains(key)) by {
            if init.contains(key) {
                let i = choose|i: int| 0 <= i < init.len() && init[i] == key;
                assert(keys[i] == keys[keys.len() - 1]);
            }
        }
        assert(init.filter(other_than(key)) =~= init) by {
            lemma_filter_keeps_all(init, key);
        }
    } else {
        assert(init.contains(key)) by {
            let i = choose|i: int| 0 <= i < keys.len() && keys[i] == key;
            assert(i < keys.len() - 1);
            assert(init[i] == key);
        }
        lemma_filter_drops_one(init, key);
    }
}

/// Removing a key that does not occur changes nothing.
proof fn lemma_filter_keeps_all(keys: Seq<u64>, key: u64)
    requires
        !keys.contains(key),
    ensures
        keys.filter(other_than(key)) == keys,
    decreases keys.len(),
{
    reveal_with_fuel(Seq::filter, 1);
    if keys.len() > 0 {
        let init = keys.drop_last();
        assert(!init.contains(key)) by {
            if init.contains(key) {
                let i = choose|i: int| 0 <= i < init.len() && init[i] == key;
                assert(keys[i] == key);
            }
        }
        lemma_filter_keeps_all(init, key);
        assert(keys.last() != key) by {
            assert(keys[keys.len() - 1] == keys.last());
        }
        assert(init.push(keys.last()) =~= keys);
    }
}

/// A nonce check keeps the store well formed, and with room for at least one
/// nonce the checked nonce is remembered afterwards.
proof fn lemma_keys_after_check_wf(keys: Seq<u64>, cap: nat, nonce: u64)
    requires
        keys.no_duplicates(),
        keys.len() <= cap,
    ensures
        keys_after_check(keys, cap, nonce).no_duplicates(),
        keys_after_check(keys, cap, nonce).len() <= cap,
        cap > 0 ==> keys_after_check(keys, cap, nonce).contains(nonce),
{
    let after = keys_after_check(keys, cap, nonce);
    if keys.contains(nonce) {
        lemma_promote_wf(keys, nonce);
        assert(after[after.len() - 1] == nonce);
    } else if cap == 0 {
    } else if keys.len() == cap {
        let d = keys.drop_first();
        assert(after =~= d.push(nonce));
        assert(!d.contains(nonce)) by {
            if d.contains(nonce) {
                let i = choose|i: int| 0 <= i < d.len() && d[i] == nonce;
                assert(keys[i + 1] == nonce);
            }
        }
        assert(after[after.len() - 1] == nonce);
    } else {
        assert(after[after.len() - 1] == nonce);
    }
}

/// Whether `timestamp` is at most `max_age_secs` old at time `now`.
pub fn validate_timestamp_at(timestamp: u64, max_age_secs: u64, now: u64) -> (r: bool)
    ensures
        r == timestamp_fresh(timestamp, now, max_age_secs),
{
    let age = if now >= timestamp {
        now - timestamp
    } else {
        0
    };
    age <= max_age_secs
}

/// Whether `timestamp` is at most `max_age_secs` old now. A window that reaches
/// past the largest representable time always holds.
pub fn validate_timestamp(timestamp: u64, max_age_secs: u64) -> (r: bool)
    ensures
        exists|now: u64| r == #[trigger] timestamp_fresh(timestamp, now, max_age_secs),
        timestamp as int + max_age_secs as int >= u64::MAX ==> r,
{
    let now = now_unix_secs();
    let r = validate_timestamp_at(timestamp, max_age_secs, now);
    proof {
        assert(r == timestamp_fresh(timestamp, now, max_age_secs));
    }
    r
}

/// Whether `timestamp` lies more than `max_future_secs` after `now`.
pub open spec fn timestamp_ahead(timestamp: u64, max_future_secs: u64, now: u64) -> bool {
    timestamp as int > now as int + max_future_secs as int
}

/// Whether `timestamp` lies more than `max_future_secs` after `now`.
pub fn is_timestamp_in_future_at(timestamp: u64, max_future_secs: u64, now: u64) -> (r: bool)
    ensures
        r == timestamp_ahead(timestamp, max_future_secs, now),
{
    if now > u64::MAX - max_future_secs {
        false
    } else {
        timestamp > now + max_future_secs
    }
}

/// Whether `timestamp` lies more than `max_future_secs` in the future (clock
/// skew detection). A timestamp no later than `max_future_secs` is never in
/// the future.
pub fn is_timestamp_in_future(timestamp: u64, max_future_secs: u64) -> (r: bool)
    ensures
        exists|now: u64| r == #[trigger] timestamp_ahead(timestamp, max_future_secs, now),
        timestamp <= max_future_secs ==> !r,
{
    let now = now_unix_secs();
    let r = is_timestamp_in_future_at(timestamp, max_future_secs, now);
    proof {
        assert(r == timestamp_ahead(timestamp, max_future_secs, now));
    }
    r
}

/// Why a message was rejected as a possible replay.
#[derive(Debug, Clone, PartialEq)]
pub enum ReplayError {
    NonceReused(u64),
    TimestampExpired { age_secs: u64, max_age_secs: u64 },
    TimestampInFuture { future_secs: u64, max_future_secs: u64 },
}

/// The text each [`ReplayError`] displays.
pub open spec fn replay_error_text(e: ReplayError) -> Seq<char> {
    match e {
        ReplayError::NonceReused(n) => "nonce "@ + decimal_chars(n as nat) + " was reused (replay attack)"@,
        ReplayError::TimestampExpired { age_secs, max_age_secs } => "timestamp expired (age "@
            + decimal_chars(age_secs as nat) + "s > "@ + decimal_chars(max_age_secs as nat) + "s)"@,
        ReplayError::TimestampInFuture { future_secs, max_future_secs } => "timestamp in future ("@
            + decimal_chars(future_secs as nat) + "s > "@ + decimal_chars(max_future_secs as nat)
            + "s)"@,
    }
}

impl ReplayError {
    /// The human-readable description of the error.
    pub fn message(&self) -> (r: String)
        ensures
            r@ == replay_error_text(*self),
    {
        let mut s = String::new();
        match self {
            ReplayError::NonceReused(n) => {
                s.append("nonce ");
                push_decimal(&mut s, *n);
                s.append(" was reused (replay attack)");
            },
            ReplayError::TimestampExpired { age_secs, max_age_secs } => {
                s.append("timestamp expired (age ");
                push_decimal(&mut s, *age_secs);
                s.append("s > ");
                push_decimal(&mut s, *max_age_secs);
                s.append("s)");
            },
            ReplayError::TimestampInFuture { future_secs, max_future_secs } => {
                s.append("timestamp in future (");
                push_decimal(&mut s, *future_secs);
                s.append("s > ");
                push_decimal(&mut s, *max_future_secs);
                s.append("s)");
            },
        }
        proof {
            assert(s@ =~= replay_error_text(*self));
        }
        s
    }
}

/// How far a message may be stamped ahead of the receiver's clock.
pub const MAX_FUTURE_SECS: u64 = 60;

/// The verdict on a message stamped `timestamp` with `nonce`, checked at time
/// `now` against the nonces `seen`: a timestamp more than a minute ahead is in
/// the future, one older than `max_age_secs` has expired, and otherwise the
/// nonce must not have been seen.
pub open spec fn replay_verdict(timestamp: u64, nonce: u64, max_age_secs: u64, seen: Seq<u64>, now: u64) -> Result<
    (),
    ReplayError,
> {
    if timestamp as int > now as int + MAX_FUTURE_SECS {
        Err(
            ReplayError::TimestampInFuture {
                future_secs: (timestamp - now) as u64,
                max_future_secs: MAX_FUTURE_SECS,
            },
        )
    } else if !timestamp_fresh(timestamp, now, max_age_secs) {
        Err(ReplayError::TimestampExpired { age_secs: (now - timestamp) as u64, max_age_secs })
    } else if seen.contains(nonce) {
        Err(ReplayError::NonceReused(nonce))
    } else {
        Ok(())
    }
}

/// The nonces remembered after that check: the store is consulted, and
/// changed, only when the timestamp passes.
pub open spec fn replay_seen_after(
    timestamp: u64,
    nonce: u64,
    max_age_secs: u64,
    seen: Seq<u64>,
    cap: nat,
    now: u64,
) -> Seq<u64> {
    if timestamp as int > now as int + MAX_FUTURE_SECS || !timestamp_fresh(timestamp, now, max_age_secs) {
        seen
    } else {
        keys_after_check(seen, cap, nonce)
    }
}

/// Checks a message's timestamp and nonce at time `now`: a timestamp more than
/// a minute ahead is in the future, one older than `max_age_secs` has expired,
/// and otherwise the nonce must not have been seen. The nonce store is
/// consulted, and changed, only when the timestamp passes.
pub fn validate_replay_protection_at(
    timestamp: u64,
    nonce: u64,
    max_age_secs: u64,
    nonce_store: &mut NonceStore,
    now: u64,
) -> (r: Result<(), ReplayError>)
    ensures
        if timestamp as int > now as int + MAX_FUTURE_SECS {
            &&& r == Err::<(), ReplayError>(
                ReplayError::TimestampInFuture {
                    future_secs: (timestamp - now) as u64,
                    max_future_secs: MAX_FUTURE_SECS,
                },
            )
            &&& final(nonce_store).seen() == old(nonce_store).seen()
        } else if !timestamp_fresh(timestamp, now, max_age_secs) {
            &&& r == Err::<(), ReplayError>(
                ReplayError::TimestampExpired { age_secs: (now - timestamp) as u64, max_age_secs },
            )
            &&& final(nonce_store).seen() == old(nonce_store).seen()
        } else {
            &&& final(nonce_store).seen() == keys_after_check(
                old(nonce_store).seen(),
                old(nonce_store).capacity(),
                nonce,
            )
            &&& r == (if old(nonce_store).seen().contains(nonce) {
                Err(ReplayError::NonceReused(nonce))
            } else {
                Ok(())
            })
            &&& final(nonce_store).capacity() > 0 ==> final(nonce_store).seen().contains(nonce)
        },
        final(nonce_store).capacity() == old(nonce_store).capacity(),
        final(nonce_store).spec_ttl() == old(nonce_store).spec_ttl(),
{
    if is_timestamp_in_future_at(timestamp, MAX_FUTURE_SECS, now) {
        return Err(
            ReplayError::TimestampInFuture { future_secs: timestamp - now, max_future_secs: MAX_FUTURE_SECS },
        );
    }
    let age = if now >= timestamp {
        now - timestamp
    } else {
        0
    };
    if age > max_age_secs {
        return Err(ReplayError::TimestampExpired { age_secs: age, max_age_secs });
    }
    if !nonce_store.check_and_record(nonce) {
        return Err(ReplayError::NonceReused(nonce));
    }
    Ok(())
}

/// Checks a message's timestamp and nonce against the current time, as
/// [`validate_replay_protection_at`] does. A nonce that the store already holds
/// is never accepted.
pub fn validate_replay_protection(
    timestamp: u64,
    nonce: u64,
    max_age_secs: u64,
    nonce_store: &mut NonceStore,
) -> (r: Result<(), ReplayError>)
    ensures
        exists|now: u64|
            r == #[trigger] replay_verdict(timestamp, nonce, max_age_secs, old(nonce_store).seen(), now)
                && final(nonce_store).seen() == replay_seen_after(
                timestamp,
                nonce,
                max_age_secs,
                old(nonce_store).seen(),
                old(nonce_store).capacity(),
                now,
            ),
        old(nonce_store).seen().contains(nonce) ==> r is Err,
        r is Ok ==> final(nonce_store).capacity() > 0 ==> final(nonce_store).seen().contains(nonce),
        final(nonce_store).capacity() == old(nonce_store).capacity(),
        final(nonce_store).spec_ttl() == old(nonce_store).spec_ttl(),
{
    let now = now_unix_secs();
    let r = validate_replay_protection_at(timestamp, nonce, max_age_secs, nonce_store, now);
    proof {
        assert(r == replay_verdict(timestamp, nonce, max_age_secs, old(nonce_store).seen(), now));
    }
    r
}

} // verus!
