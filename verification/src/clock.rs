//! The clock that times the envelopes: milliseconds since the engine was
//! made, read from the machine's monotonic clock.

use std::time::{Duration, Instant};
use vstd::prelude::*;

verus! {

/// An instant of std's monotonic clock, carried through as it is.
#[verifier::external_type_specification]
#[verifier::external_body]
pub struct ExInstant(Instant);

/// A clock that counts from the instant at which it was started.
pub struct Clock {
    pub origin: Instant,
}

/// Reads std's monotonic clock with `Instant::now`. Nothing is claimed of
/// the instant that comes back.
#[verifier::external_body]
fn instant_now() -> (r: Instant) {
    Instant::now()
}

/// The time from `origin` to now, from `Instant::elapsed`. Nothing is
/// claimed of the span that comes back.
#[verifier::external_body]
fn elapsed_since(origin: &Instant) -> (r: Duration) {
    origin.elapsed()
}

/// The whole milliseconds of a span, from `Duration::as_millis`. The span
/// is opaque here, so nothing is claimed of the number.
#[verifier::external_body]
fn whole_millis(span: &Duration) -> (r: u128) {
    span.as_millis()
}

impl Clock {
    /// A clock that starts to count now.
    pub fn start() -> (r: Clock) {
        Clock { origin: instant_now() }
    }

    /// The milliseconds since the clock was started, as the machine's clock
    /// gives them and [`Clock::hold_millis`] holds them to 64 bits.
    pub fn now(&self) -> (r: u64) {
        let span = elapsed_since(&self.origin);
        Clock::hold_millis(whole_millis(&span))
    }

    /// Holds a count of milliseconds to 64 bits.
    pub fn hold_millis(total: u128) -> (r: u64)
        ensures
            r == held_millis(total),
    {
        if total > u64::MAX as u128 {
            u64::MAX
        } else {
            total as u64
        }
    }
}

/// A count of milliseconds held to 64 bits: the count itself where it
/// fits, else the largest number that does.
pub open spec fn held_millis(total: u128) -> u64 {
    if total > u64::MAX {
        u64::MAX
    } else {
        total as u64
    }
}

} // verus!
