//! Time as the library reads it: nanoseconds on a clock of its own.

use std::time::{Duration, Instant};
use vstd::prelude::*;

verus! {

/// A moment or a span of time, in nanoseconds.
pub type Nanos = u128;

/// What `std::time::Instant` is to the verifier: an opaque value.
#[verifier::external_type_specification]
#[verifier::external_body]
pub struct ExInstant(std::time::Instant);

/// `Instant::now`: the present moment, of which nothing is known before.
#[verifier::external_body]
fn instant_now() -> Instant {
    Instant::now()
}

/// `Instant::elapsed`: the time since `origin`; nothing is known of it before.
#[verifier::external_body]
fn instant_elapsed(origin: &Instant) -> Duration {
    origin.elapsed()
}

/// `Duration::as_nanos`: the nanoseconds that the span holds. Believed, not proved.
#[verifier::external_body]
pub(crate) fn duration_as_nanos(span: Duration) -> (nanos: Nanos)
    ensures
        nanos == span_nanos(span),
{
    span.as_nanos()
}

/// The time from `then` to `now`, and none where `then` is not before `now`.
pub open spec fn since(now: Nanos, then: Nanos) -> nat {
    if now >= then {
        (now - then) as nat
    } else {
        0
    }
}

/// The time from `then` to `now`, and none where `then` is not before `now`.
pub fn elapsed_since(now: Nanos, then: Nanos) -> (span: Nanos)
    ensures
        span == since(now, then),
{
    if now >= then {
        now - then
    } else {
        0
    }
}

/// A clock that counts from the moment it was made.
pub struct Clock {
    origin: Instant,
}

impl Clock {
    /// A clock that starts now.
    pub fn new() -> Self {
        Clock { origin: instant_now() }
    }

    /// The time on the clock. Nothing is known of it beforehand: whoever
    /// reads it is proved right whatever it shows.
    pub fn now(&self) -> Nanos {
        duration_as_nanos(instant_elapsed(&self.origin))
    }
}

/// The total number of nanoseconds that a span of time holds, which depends
/// on the span alone.
pub uninterp spec fn span_nanos(span: Duration) -> Nanos;

} // verus!
