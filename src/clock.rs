//! Whole seconds on the monotonic clock, counted from when a `Clock` was made.
use core::time::Duration;
use std::time::Instant;
use vstd::prelude::*;

verus! {

#[verifier::external_type_specification]
#[verifier::external_body]
pub struct ExInstant(Instant);

/// Relies on `Instant::now`: a reading of the monotonic clock. Nothing is
/// promised of the value.
pub assume_specification[ Instant::now ]() -> Instant;

/// Relies on `Instant::elapsed`: the time since the reading. Nothing is
/// promised of the value.
pub assume_specification[ Instant::elapsed ](i: &Instant) -> Duration;

/// Relies on `Duration::as_secs`: the whole seconds of a duration.
pub assume_specification[ Duration::as_secs ](d: &Duration) -> u64;

/// A monotonic clock that reads whole seconds since its creation.
pub struct Clock {
    origin: Instant,
}

impl Clock {
    pub fn new() -> (c: Clock) {
        Clock { origin: Instant::now() }
    }

    /// Whole seconds since this clock was made. Depends on the time of the
    /// call, so nothing is promised of the value.
    pub fn now_secs(&self) -> (r: u64) {
        let d = self.origin.elapsed();
        d.as_secs()
    }
}

} // verus!
