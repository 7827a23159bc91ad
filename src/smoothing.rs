//! Exponential smoothing of utilization readings.

use vstd::prelude::*;
use crate::fixed::{div_round, round_div};
use crate::path::PERCENT;

verus! {

/// The smoothed value: 0.4 of the new reading and 0.6 of the previous value,
/// rounded to the nearest sample unit.
pub open spec fn smoothed(previous: u64, raw: u64) -> nat {
    round_div((4 * raw + 6 * previous) as nat, 10)
}

/// Blends a new reading into the previously displayed value.
pub fn smooth(previous: u64, raw: u64) -> (r: u64)
    ensures
        r == smoothed(previous, raw),
{
    let a = 4 * (raw as u128) + 6 * (previous as u128);
    let r = div_round(a, 10);
    proof { lemma_smoothed_between(previous, raw); }
    r as u64
}

/// The smoothed value equals `0.4 * raw + 0.6 * previous` within half a
/// sample unit (half a millionth of a percentage point), and never leaves
/// the range of its two inputs.
pub proof fn lemma_smoothed_between(previous: u64, raw: u64)
    ensures
        -5 <= 10 * smoothed(previous, raw) - (4 * raw + 6 * previous) < 5,
        smoothed(previous, raw) <= if raw > previous { raw } else { previous },
        smoothed(previous, raw) >= if raw < previous { raw } else { previous },
{
    let a = 4 * raw + 6 * previous;
    let s = smoothed(previous, raw);
    assert(s == (2 * a + 10) / 20);
    assert(20 * s <= 2 * a + 10 < 20 * s + 20);
}

/// The utilization that a vendor reading stands for: the busier of the core
/// and the memory controller, as a sample.
pub fn busiest(core_percent: u32, memory_percent: u32) -> (r: u64)
    ensures
        r == PERCENT * (if core_percent > memory_percent { core_percent } else { memory_percent }),
{
    let m = if core_percent > memory_percent { core_percent } else { memory_percent };
    (m as u64) * PERCENT
}

} // verus!
