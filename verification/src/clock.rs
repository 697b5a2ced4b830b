//! Points in time, as the registry sees them.
//!
//! The library never reads a clock. Its callers hand it the time as a
//! [`Moment`]: the span since an origin of their choosing, which has to be
//! the same for every moment that is handed to one registry.

use vstd::prelude::*;

verus! {

/// Nanoseconds in one second.
pub const NANOS_PER_SEC: u32 = 1_000_000_000;

/// A point in time: `secs` whole seconds and `nanos` nanoseconds after the origin.
#[derive(Clone, Copy, Debug, PartialEq, Eq)]
pub struct Moment {
    pub secs: u64,
    pub nanos: u32,
}

impl Moment {
    /// The distance from the origin in nanoseconds.
    pub open spec fn as_nanos(self) -> nat {
        (self.secs as nat) * (NANOS_PER_SEC as nat) + self.nanos as nat
    }

    /// The moment `secs` whole seconds after the origin.
    pub fn from_secs(secs: u64) -> (m: Moment)
        ensures
            m == (Moment { secs, nanos: 0 }),
    {
        Moment { secs, nanos: 0 }
    }

    /// Whole seconds that passed between `earlier` and `self`; zero where
    /// `self` does not lie after `earlier`.
    pub fn seconds_since(&self, earlier: &Moment) -> (seconds: u64)
        ensures
            seconds == elapsed_seconds(*earlier, *self),
    {
        let unit: u128 = NANOS_PER_SEC as u128;
        let now: u128 = (self.secs as u128) * unit + (self.nanos as u128);
        let then: u128 = (earlier.secs as u128) * unit + (earlier.nanos as u128);
        if now < then {
            0
        } else {
            let whole: u128 = (now - then) / unit;
            if whole > u64::MAX as u128 {
                u64::MAX
            } else {
                whole as u64
            }
        }
    }
}

/// Whole seconds from `start` to `now`: the distance in nanoseconds divided
/// by a billion and rounded down, zero where `now` is not later than `start`,
/// and never more than a `u64` holds.
pub open spec fn elapsed_seconds(start: Moment, now: Moment) -> u64 {
    if now.as_nanos() < start.as_nanos() {
        0
    } else {
        let whole = (now.as_nanos() - start.as_nanos()) / (NANOS_PER_SEC as int);
        if whole > u64::MAX {
            u64::MAX
        } else {
            whole as u64
        }
    }
}

/// Between two moments with the same fraction of a second the elapsed time
/// is the difference of their seconds.
pub proof fn law_whole_seconds(start: Moment, now: Moment)
    requires
        start.nanos == now.nanos,
        start.secs <= now.secs,
    ensures
        elapsed_seconds(start, now) == now.secs - start.secs,
{
    let unit = NANOS_PER_SEC as int;
    let d = now.secs - start.secs;
    assert(now.as_nanos() - start.as_nanos() == d * unit) by (nonlinear_arith)
        requires
            now.as_nanos() == now.secs * unit + now.nanos,
            start.as_nanos() == start.secs * unit + start.nanos,
            start.nanos == now.nanos,
            d == now.secs - start.secs,
    ;
    assert((d * unit) / unit == d) by (nonlinear_arith)
        requires
            unit == 1_000_000_000,
    ;
}

} // verus!
