//! Waiting without giving up the processor.

use std::time::{Duration, Instant};
use vstd::prelude::*;

verus! {

/// The monotonic clock reading of the standard library, carried as an
/// opaque value.
#[verifier::external_type_specification]
#[verifier::external_body]
pub struct ExInstant(std::time::Instant);

/// `Instant::now` reads the monotonic clock; nothing is claimed of the
/// reading.
pub assume_specification[ Instant::now ]() -> Instant;

/// `Instant::duration_since` gives the time between two readings; nothing
/// is claimed of its length.
pub assume_specification[ Instant::duration_since ](later: &Instant, earlier: Instant) -> Duration;

/// `Duration::as_millis` gives the whole milliseconds in a duration;
/// nothing is claimed of their number.
pub assume_specification[ Duration::as_millis ](d: &Duration) -> u128;

/// Most clock readings that one wait may take. It stands far beyond what
/// any wait needs and only serves to show that the wait ends.
pub const POLL_BUDGET: u64 = u64::MAX;

/// True once a wait for `ms` milliseconds has lasted long enough.
pub fn wait_is_over(elapsed_millis: u128, ms: u64) -> (over: bool)
    ensures
        over == (elapsed_millis >= ms),
{
    elapsed_millis >= ms as u128
}

/// Spins until `ms` milliseconds have passed on the monotonic clock.
pub fn spin_wait(ms: u64) {
    let start = Instant::now();
    let mut polls: u64 = POLL_BUDGET;
    while polls > 0 && !wait_is_over(Instant::now().duration_since(start).as_millis(), ms)
        decreases polls,
    {
        polls -= 1;
    }
}

} // verus!
