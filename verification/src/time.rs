//! Points in time and spans of time.
//!
//! The actors never read a clock. They are handed the current time, so a
//! run of an actor is determined by what it is handed.

use vstd::prelude::*;

verus! {

/// A point in time, in nanoseconds since an epoch that the embedding picks.
pub type Instant = u64;

/// A span of time in nanoseconds.
pub type Duration = u64;

/// One millisecond.
pub const MILLISECOND: u64 = 1_000_000;

/// One second.
pub const SECOND: u64 = 1_000_000_000;

/// The time from `earlier` to `now`: zero when `earlier` lies in the future.
pub open spec fn elapsed(now: Instant, earlier: Instant) -> int {
    if earlier <= now {
        now - earlier
    } else {
        0
    }
}

/// Returns the time that has passed from `earlier` to `now`, or zero when
/// `earlier` is the later of the two.
pub fn duration_since(now: Instant, earlier: Instant) -> (d: Duration)
    ensures
        d == elapsed(now, earlier),
{
    if earlier <= now {
        now - earlier
    } else {
        0
    }
}

} // verus!
