//! The monotonic clock a rate limiter reads: nanoseconds since the limiter's
//! epoch, never going back from one reading to the next.

use vstd::prelude::*;

verus! {

#[verifier::external_type_specification]
#[verifier::external_body]
pub struct ExInstant(std::time::Instant);

/// The current instant of the monotonic clock (`std::time::Instant::now`).
/// Nothing is stated of it: it is read from the machine's clock.
#[verifier::external_body]
fn instant_now() -> std::time::Instant {
    std::time::Instant::now()
}

/// Nanoseconds passed since the clock's epoch (`Instant::elapsed`,
/// `Duration::as_nanos`). The contract claims what std documents of
/// `Instant`: it is monotonic, so a reading is never below an earlier reading
/// from the same epoch; and the clock's last reading is one (or the zero it
/// starts from), as only `MonotonicClock::tick` records a reading. Nothing
/// else is stated of the value: it is read from the machine's clock.
#[verifier::external_body]
fn nanos_since(clock: &MonotonicClock) -> (r: u128)
    ensures
        r >= clock.last,
{
    clock.epoch.elapsed().as_nanos()
}

/// A monotonic clock started at some instant (its epoch), with the last
/// reading taken from it and the number of readings taken.
pub struct MonotonicClock {
    epoch: std::time::Instant,
    last: u128,
    reads: Ghost<nat>,
}

impl MonotonicClock {
    /// The last reading, in nanoseconds since the epoch; zero before any.
    pub closed spec fn reading(&self) -> u128 {
        self.last
    }

    /// How many readings were taken.
    pub closed spec fn reads(&self) -> nat {
        self.reads@
    }

    /// A clock started now, with no reading taken.
    pub fn start() -> (r: MonotonicClock)
        ensures
            r.reading() == 0,
            r.reads() == 0,
    {
        MonotonicClock { epoch: instant_now(), last: 0, reads: Ghost(0) }
    }

    /// Reads the clock: the nanoseconds since the epoch, never fewer than at
    /// the reading before; the reading is recorded.
    pub fn tick(&mut self) -> (r: u128)
        ensures
            r >= old(self).reading(),
            final(self).reading() == r,
            final(self).reads() == old(self).reads() + 1,
    {
        let r = nanos_since(self);
        self.last = r;
        self.reads = Ghost(self.reads@ + 1);
        r
    }
}

} // verus!
