//! Saturating counter arithmetic shared by the aggregation tables.

use vstd::prelude::*;

verus! {

/// Saturating 64-bit addition: counters stick at the maximum instead of
/// wrapping.
pub open spec fn sat_add64(a: u64, b: u64) -> u64 {
    if a + b > u64::MAX {
        u64::MAX
    } else {
        (a + b) as u64
    }
}

/// Add to a counter, saturating at the maximum.
pub fn sat_add(a: u64, b: u64) -> (r: u64)
    ensures
        r == sat_add64(a, b),
{
    if b > u64::MAX - a {
        u64::MAX
    } else {
        a + b
    }
}

/// Saturating addition never decreases a counter.
pub proof fn lemma_sat_add64_monotone(a: u64, b: u64)
    ensures
        sat_add64(a, b) >= a,
        sat_add64(a, b) >= b,
{
}

} // verus!
