//! Time source for the cooperative time limit.
use vstd::prelude::*;

use std::time::Instant;

verus! {

#[verifier::external_type_specification]
#[verifier::external_body]
pub struct ExInstant(Instant);

/// Relies on std::time::Instant::now: an opaque reading of a monotonic
/// clock.  Nothing is promised of its value.
#[verifier::external_body]
fn instant_now() -> Instant {
    Instant::now()
}

/// Relies on std::time::Instant::elapsed and Duration::as_micros: the
/// microseconds since `t`, saturated into the result's range.  The value
/// depends on the clock, so nothing is promised of it.
#[verifier::external_body]
fn elapsed_micros(t: &Instant) -> u64 {
    let us = t.elapsed().as_micros();
    if us > u64::MAX as u128 {
        u64::MAX
    } else {
        us as u64
    }
}

/// A reading of the clock, to measure a solve against.
pub fn now() -> Instant {
    instant_now()
}

/// The microseconds that passed since the reading `t`.
pub fn until_now(t: &Instant) -> u64 {
    elapsed_micros(t)
}

} // verus!
