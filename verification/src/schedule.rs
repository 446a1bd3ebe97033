//! Cycle pacing arithmetic.
//!
//! The machine targets 500 cycles per second, scaled by a host-chosen
//! multiplier.  The host measures how long a cycle took and sleeps for the
//! rest of the tick budget; the budget is never negative, so a cycle that
//! overran its tick is followed immediately by the next one.

use vstd::prelude::*;

verus! {

/// The canonical instruction rate, in cycles per second.
pub const BASE_RATE_HZ: u64 = 500;

/// One tick at the canonical rate, in nanoseconds.
pub const BASE_TICK_NS: u64 = 2000000;

/// How long to sleep after a cycle that took `elapsed_ns` of a
/// `tick_ns` budget: the remainder when some is left, else nothing.
pub fn remaining_budget(tick_ns: u64, elapsed_ns: u64) -> (sleep_ns: u64)
    ensures
        sleep_ns == if elapsed_ns < tick_ns {
            tick_ns - elapsed_ns
        } else {
            0
        },
{
    if elapsed_ns < tick_ns {
        tick_ns - elapsed_ns
    } else {
        0
    }
}

} // verus!
