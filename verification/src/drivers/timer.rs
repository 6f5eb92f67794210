//! ARMv8 generic timer: the tick arithmetic.
//!
//! The kernel runs at EL1 and uses the non-secure physical timer, interrupt 30.

use vstd::prelude::*;

verus! {

pub const TIMER_IRQ: u32 = 30;

/// Counter ticks in `interval_ms` milliseconds at `freq` ticks per second.
pub fn interval_ticks(freq: u64, interval_ms: u64) -> (t: u64)
    requires
        freq * interval_ms <= u64::MAX,
    ensures
        t == freq * interval_ms / 1000,
{
    (freq * interval_ms) / 1000
}

/// The tick count after one more tick.
pub fn next_tick(count: u64) -> (n: u64)
    requires
        count < u64::MAX,
    ensures
        n == count + 1,
{
    count + 1
}

} // verus!
