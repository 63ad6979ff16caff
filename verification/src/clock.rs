//! The clock: how much time has passed since a point in time.
use std::time::{Duration, Instant};
use vstd::prelude::*;

verus! {

/// `std::time::Instant`, a point in time that only the operating system can read.
#[verifier::external_type_specification]
#[verifier::external_body]
pub struct ExInstant(Instant);

/// `Instant::now` reads the clock. Nothing is claimed of what it reads.
pub assume_specification[ Instant::now ]() -> Instant
;

/// The whole seconds of a span of time.
pub uninterp spec fn whole_seconds(duration: Duration) -> u64;

/// `Duration::as_secs` gives the whole seconds of a span.
pub assume_specification[ Duration::as_secs ](duration: &Duration) -> (r: u64)
    ensures
        r == whole_seconds(*duration),
;

/// The time that had passed since some point when the clock was read. Only a call of
/// `Instant::elapsed` makes one.
pub struct Elapsed {
    passed: Duration,
    since: Ghost<Instant>,
}

impl Elapsed {
    /// The point in time from which on the time was measured.
    pub closed spec fn since(self) -> Instant {
        self.since@
    }

    /// The whole seconds that had passed.
    pub closed spec fn seconds(self) -> u64 {
        whole_seconds(self.passed)
    }

    /// The whole seconds that had passed.
    pub fn as_secs(&self) -> (r: u64)
        ensures
            r == self.seconds(),
    {
        self.passed.as_secs()
    }
}

/// `Instant::elapsed` reads how much time has passed since a point in time. How much it is is not
/// stated.
#[verifier::external_body]
pub(crate) fn elapsed_since(since: &Instant) -> (r: Elapsed)
    ensures
        r.since() == *since,
{
    Elapsed { passed: since.elapsed(), since: Ghost(*since) }
}

} // verus!
