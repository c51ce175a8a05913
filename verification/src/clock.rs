//! The stopwatch that times a garbage collection.

use vstd::prelude::*;
use std::time::{Duration, Instant};

verus! {

/// `std::time::Instant`, a reading of the monotonic clock of the machine.
#[verifier::external_type_specification]
#[verifier::external_body]
pub struct ExInstant(Instant);

/// Calls `Instant::now`. The reading depends on the moment of the call, so
/// nothing is said of it.
#[verifier::external_body]
pub(crate) fn stopwatch() -> (start: Instant) {
    Instant::now()
}

/// Calls `Instant::elapsed`. The duration depends on the moment of the call,
/// so nothing is said of it.
#[verifier::external_body]
pub(crate) fn elapsed_since(start: &Instant) -> (elapsed: Duration) {
    start.elapsed()
}

/// Calls `Duration::as_secs`, which gives the whole seconds of the duration.
/// A duration shows nothing else of itself here, so nothing is said of the
/// number.
#[verifier::external_body]
pub(crate) fn whole_seconds(elapsed: &Duration) -> (seconds: u64) {
    elapsed.as_secs()
}

} // verus!
