//! A monotonic clock that counts nanoseconds.

use std::time::{Duration, Instant};
use vstd::prelude::*;

verus! {

/// `std::time::Instant`, a measurement of a monotonic clock.
#[verifier::external_type_specification]
#[verifier::external_body]
pub struct ExInstant(Instant);

/// `Instant::now` reads the clock; nothing is claimed of the measurement.
pub assume_specification[ Instant::now ]() -> (instant: Instant)
;

/// `Instant::elapsed` is the time since the measurement; nothing is claimed of it.
pub assume_specification[ Instant::elapsed ](instant: &Instant) -> (elapsed: Duration)
;

/// `Duration::as_nanos` is the number of whole nanoseconds; nothing is claimed of it, as the
/// durations that reach it come from the clock.
pub assume_specification[ Duration::as_nanos ](duration: &Duration) -> (nanos: u128)
;

/// Counts nanoseconds from the moment of its creation. Its readings never go back.
#[derive(Debug)]
pub(crate) struct Clock {
    origin: Instant,
    latest: u128,
}

impl Clock {
    /// The latest reading; zero before the first one.
    pub(crate) closed spec fn spec_latest(self) -> u128 {
        self.latest
    }

    /// Starts to count.
    pub(crate) fn start() -> (clock: Self)
        ensures
            clock.spec_latest() == 0,
    {
        Clock { origin: Instant::now(), latest: 0 }
    }

    /// The nanoseconds since the start, and no fewer than any reading before.
    pub(crate) fn now(&mut self) -> (nanos: u128)
        ensures
            nanos >= old(self).spec_latest(),
            nanos == final(self).spec_latest(),
    {
        let elapsed: u128 = self.origin.elapsed().as_nanos();
        if elapsed > self.latest {
            self.latest = elapsed;
        }
        self.latest
    }
}

} // verus!
