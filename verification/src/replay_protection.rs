//! Replay attack protection.
//!
//! Prevents attackers from capturing and replaying encrypted messages.
//! Uses a time-based nonce window to track seen nonces.

use std::collections::HashMap;
use std::time::Duration;
use vstd::prelude::*;
use crate::clock::{duration_as_nanos, since, span_nanos, Clock, Nanos};

verus! {

broadcast use vstd::std_specs::hash::group_hash_axioms;

/// Maximum age for nonces (5 minutes).
pub const MAX_NONCE_AGE: Nanos = 300_000_000_000;

/// Cleanup interval (1 minute).
pub const CLEANUP_INTERVAL: Nanos = 60_000_000_000;

/// The number that the bytes of a nonce spell in big-endian order: the key
/// under which the nonce is kept.
pub open spec fn nonce_key(nonce: Seq<u8>) -> nat
    decreases nonce.len(),
{
    if nonce.len() == 0 {
        0
    } else {
        nonce_key(nonce.drop_last()) * 256 + nonce.last() as nat
    }
}

/// Nonces of one length that have the same key are the same nonce.
pub proof fn lemma_nonce_key_injective(a: Seq<u8>, b: Seq<u8>)
    requires
        a.len() == b.len(),
        nonce_key(a) == nonce_key(b),
    ensures
        a == b,
    decreases a.len(),
{
    if a.len() > 0 {
        lemma_nonce_key_injective(a.drop_last(), b.drop_last());
        assert(a =~= a.drop_last().push(a.last()));
        assert(b =~= b.drop_last().push(b.last()));
    } else {
        assert(a =~= b);
    }
}

/// The number of keys that nonces of `n` bytes have: 256 to the `n`.
spec fn key_count(n: nat) -> nat
    decreases n,
{
    if n == 0 {
        1
    } else {
        256 * key_count((n - 1) as nat)
    }
}

/// The key of a nonce of at most eleven bytes takes at most eleven bytes.
proof fn lemma_nonce_key_bound(nonce: Seq<u8>)
    requires
        nonce.len() <= 11,
    ensures
        nonce_key(nonce) < key_count(nonce.len()),
        key_count(nonce.len()) <= 0x100_0000_0000_0000_0000_0000,
    decreases nonce.len(),
{
    reveal_with_fuel(key_count, 12);
    if nonce.len() > 0 {
        lemma_nonce_key_bound(nonce.drop_last());
    }
}

/// What replay protection knows, as a mathematical value: when each nonce
/// was first seen, how old a nonce may get, and when the old ones were last
/// dropped.
pub struct ReplayState {
    pub seen: Map<u128, Nanos>,
    pub max_age: Nanos,
    pub last_cleanup: Nanos,
}

/// The nonces that at `now` are not yet as old as `max_age`.
pub open spec fn young(seen: Map<u128, Nanos>, max_age: Nanos, now: Nanos) -> Map<u128, Nanos> {
    Map::new(|k: u128| seen.contains_key(k) && since(now, seen[k]) < max_age, |k: u128| seen[k])
}

/// Old nonces are dropped when more than half of the smaller of `max_age`
/// and the cleanup interval has passed since they were last dropped.
pub open spec fn cleanup_due(s: ReplayState, now: Nanos) -> bool {
    since(now, s.last_cleanup) > (if s.max_age < CLEANUP_INTERVAL {
        s.max_age
    } else {
        CLEANUP_INTERVAL
    }) / 2
}

/// The state at `now`, before a nonce is looked at.
pub open spec fn tidied(s: ReplayState, now: Nanos) -> ReplayState {
    if cleanup_due(s, now) {
        ReplayState { seen: young(s.seen, s.max_age, now), max_age: s.max_age, last_cleanup: now }
    } else {
        s
    }
}

/// Whether the nonce under `key` is fresh at `now`: not among those kept.
pub open spec fn fresh(s: ReplayState, key: u128, now: Nanos) -> bool {
    !tidied(s, now).seen.contains_key(key)
}

/// The state after the nonce under `key` was checked at `now`: a fresh one
/// is kept with its time, a replayed one keeps the time it has.
pub open spec fn recorded(s: ReplayState, key: u128, now: Nanos) -> ReplayState {
    let t = tidied(s, now);
    if t.seen.contains_key(key) {
        t
    } else {
        ReplayState { seen: t.seen.insert(key, now), ..t }
    }
}

/// A check at `now` of the nonce under `key`: whether it is fresh, and the
/// state after it.
pub open spec fn checked(s: ReplayState, key: u128, now: Nanos) -> (bool, ReplayState) {
    (fresh(s, key, now), recorded(s, key, now))
}

/// Replay protection using nonce tracking.
pub struct ReplayProtection {
    /// Map of seen nonces to the time they were seen at.
    seen_nonces: HashMap<u128, Nanos>,
    /// The keys of `seen_nonces`.
    keys: Vec<u128>,
    /// Maximum age for nonces.
    max_age: Nanos,
    /// Last cleanup time.
    last_cleanup: Nanos,
    /// Where the time comes from.
    clock: Clock,
}

impl View for ReplayProtection {
    type V = ReplayState;

    closed spec fn view(&self) -> ReplayState {
        ReplayState {
            seen: self.seen_nonces@,
            max_age: self.max_age,
            last_cleanup: self.last_cleanup,
        }
    }
}

impl ReplayProtection {
    /// The keys that are listed are the keys that are kept.
    pub closed spec fn wf(&self) -> bool {
        self.keys@.to_set() =~= self.seen_nonces@.dom()
    }

    /// Create new replay protection.
    pub fn new() -> (rp: Self)
        ensures
            rp.wf(),
            rp@ == (ReplayState { seen: Map::empty(), max_age: MAX_NONCE_AGE, last_cleanup: 0 }),
    {
        Self::with_max_age_nanos(MAX_NONCE_AGE)
    }

    /// Create with custom max age: the nanoseconds that `max_age` holds.
    pub fn with_max_age(max_age: Duration) -> (rp: Self)
        ensures
            rp.wf(),
            rp@ == (ReplayState {
                seen: Map::empty(),
                max_age: span_nanos(max_age),
                last_cleanup: 0,
            }),
    {
        Self::with_max_age_nanos(duration_as_nanos(max_age))
    }

    /// Create with custom max age, in nanoseconds.
    pub fn with_max_age_nanos(max_age: Nanos) -> (rp: Self)
        ensures
            rp.wf(),
            rp@ == (ReplayState { seen: Map::empty(), max_age, last_cleanup: 0 }),
    {
        let rp = ReplayProtection {
            seen_nonces: HashMap::new(),
            keys: Vec::new(),
            max_age,
            last_cleanup: 0,
            clock: Clock::new(),
        };
        assert(rp.keys@.to_set() =~= rp.seen_nonces@.dom());
        rp
    }

    /// The key of a nonce.
    pub fn key_of(nonce: &[u8; 12]) -> (key: u128)
        ensures
            key == nonce_key(nonce@),
    {
        let mut key: u128 = 0;
        let mut i: usize = 0;
        while i < 12
            invariant
                i <= 12,
                nonce@.len() == 12,
                key == nonce_key(nonce@.subrange(0, i as int)),
            decreases 12 - i,
        {
            proof {
                lemma_nonce_key_bound(nonce@.subrange(0, i as int));
                assert(nonce@.subrange(0, i + 1).drop_last() =~= nonce@.subrange(0, i as int));
            }
            key = key * 256 + nonce[i] as u128;
            i += 1;
        }
        assert(nonce@.subrange(0, 12) =~= nonce@);
        key
    }

    /// Check if nonce is fresh and record it, by the clock.
    /// Returns true if nonce is fresh (not seen before).
    /// Returns false if nonce is a replay.
    pub fn check_and_record(&mut self, nonce: &[u8; 12]) -> (is_fresh: bool)
        requires
            old(self).wf(),
        ensures
            final(self).wf(),
            exists|now: Nanos|
                (is_fresh, final(self)@) == #[trigger] checked(
                    old(self)@,
                    nonce_key(nonce@) as u128,
                    now,
                ),
    {
        let now = self.clock.now();
        self.check_and_record_at(nonce, now)
    }

    /// Check if nonce is fresh at `now` and record it.
    pub fn check_and_record_at(&mut self, nonce: &[u8; 12], now: Nanos) -> (is_fresh: bool)
        requires
            old(self).wf(),
        ensures
            final(self).wf(),
            (is_fresh, final(self)@) == checked(old(self)@, nonce_key(nonce@) as u128, now),
    {
        let smaller = if self.max_age < CLEANUP_INTERVAL {
            self.max_age
        } else {
            CLEANUP_INTERVAL
        };
        let passed = if now >= self.last_cleanup {
            now - self.last_cleanup
        } else {
            0
        };
        if passed > smaller / 2 {
            self.cleanup_old_nonces_at(now);
            self.last_cleanup = now;
        }
        let key = Self::key_of(nonce);
        if self.seen_nonces.contains_key(&key) {
            return false;
        }
        let ghost listed = self.keys@;
        self.seen_nonces.insert(key, now);
        self.keys.push(key);
        proof {
            listed.lemma_push_to_set_commute(key);
        }
        true
    }

    /// Remove nonces older than max_age, by the clock.
    pub fn cleanup_old_nonces(&mut self)
        requires
            old(self).wf(),
        ensures
            final(self).wf(),
            exists|now: Nanos|
                final(self)@.seen == #[trigger] young(old(self)@.seen, old(self)@.max_age, now),
            final(self)@.max_age == old(self)@.max_age,
            final(self)@.last_cleanup == old(self)@.last_cleanup,
    {
        let now = self.clock.now();
        self.cleanup_old_nonces_at(now);
    }

    /// Remove the nonces that at `now` are as old as max_age or older.
    pub fn cleanup_old_nonces_at(&mut self, now: Nanos)
        requires
            old(self).wf(),
        ensures
            final(self).wf(),
            final(self)@ == (ReplayState {
                seen: young(old(self)@.seen, old(self)@.max_age, now),
                ..old(self)@
            }),
    {
        let mut kept: HashMap<u128, Nanos> = HashMap::new();
        let mut kept_keys: Vec<u128> = Vec::new();
        let mut i: usize = 0;
        while i < self.keys.len()
            invariant
                *self == *old(self),
                self.wf(),
                i <= self.keys@.len(),
                kept_keys@.to_set() =~= kept@.dom(),
                forall|k: u128| #[trigger]
                    kept@.contains_key(k) ==> young(
                        self.seen_nonces@,
                        self.max_age,
                        now,
                    ).contains_key(k) && kept@[k] == self.seen_nonces@[k],
                forall|j: int|
                    0 <= j < i && young(self.seen_nonces@, self.max_age, now).contains_key(
                        #[trigger] self.keys@[j],
                    ) ==> kept@.contains_key(self.keys@[j]),
            decreases self.keys@.len() - i,
        {
            let key = self.keys[i];
            assert(self.keys@.to_set().contains(key));
            match self.seen_nonces.get(&key) {
                Some(seen_at) => {
                    let age = if now >= *seen_at {
                        now - *seen_at
                    } else {
                        0
                    };
                    if age < self.max_age {
                        let ghost listed = kept_keys@;
                        kept.insert(key, *seen_at);
                        kept_keys.push(key);
                        proof {
                            listed.lemma_push_to_set_commute(key);
                        }
                    }
                },
                None => {},
            }
            i += 1;
        }
        assert(kept@ =~= young(self.seen_nonces@, self.max_age, now)) by {
            assert forall|k: u128|
                young(self.seen_nonces@, self.max_age, now).contains_key(
                    k,
                ) implies kept@.contains_key(k) by {
                assert(self.keys@.to_set().contains(k));
                let j = choose|j: int| 0 <= j < self.keys@.len() && self.keys@[j] == k;
                assert(self.keys@[j] == k);
            }
        }
        self.seen_nonces = kept;
        self.keys = kept_keys;
    }

    /// Get number of tracked nonces.
    pub fn len(&self) -> (n: usize)
        ensures
            n == self@.seen.dom().len(),
    {
        self.seen_nonces.len()
    }

    /// Check if empty.
    pub fn is_empty(&self) -> (b: bool)
        ensures
            b == (self@.seen.dom().len() == 0),
    {
        self.seen_nonces.len() == 0
    }
}

impl Default for ReplayProtection {
    fn default() -> (rp: Self)
        ensures
            rp.wf(),
            rp@ == (ReplayState { seen: Map::empty(), max_age: MAX_NONCE_AGE, last_cleanup: 0 }),
    {
        Self::new()
    }
}

} // verus!
