//! Fixed-point relevance scores.
//!
//! A score or a boost is a non-negative real number held in thousandths
//! (`1.0` is stored as `1000`).  All arithmetic saturates at `u64::MAX`;
//! the spec functions state the exact value, saturation included.

use vstd::prelude::*;

verus! {

/// Number of fixed-point units that make up `1.0`.
pub const SCALE: u64 = 1000;

/// Clamp an unbounded non-negative value into the `u64` range.
pub open spec fn sat64(x: int) -> u64
    recommends
        x >= 0,
{
    if x > u64::MAX as int {
        u64::MAX
    } else {
        x as u64
    }
}

/// Exact value of a saturating addition of two scores.
pub open spec fn spec_add_scores(a: u64, b: u64) -> u64 {
    sat64(a as int + b as int)
}

/// Exact value of multiplying a score by a fixed-point boost:
/// `(a * b) / SCALE`, truncated, then clamped.
pub open spec fn spec_mul_boost(a: u64, b: u64) -> u64 {
    sat64((a as int * b as int) / (SCALE as int))
}

/// Exact value of scaling an integer count by a fixed-point boost.
pub open spec fn spec_count_times_boost(count: int, boost: u64) -> u64
    recommends
        count >= 0,
{
    sat64(count * boost)
}

/// Exact value of dividing a score evenly over `n` clauses, truncated.
pub open spec fn spec_div_count(x: u64, n: int) -> u64
    recommends
        n > 0,
{
    (x as int / n) as u64
}

/// Saturating addition of two scores.
pub fn add_scores(a: u64, b: u64) -> (r: u64)
    ensures
        r == spec_add_scores(a, b),
{
    if a > u64::MAX - b {
        u64::MAX
    } else {
        a + b
    }
}

/// Multiply a score by a fixed-point boost, truncating to the scale.
pub fn mul_boost(a: u64, b: u64) -> (r: u64)
    ensures
        r == spec_mul_boost(a, b),
{
    proof {
        assert((a as int) * (b as int) <= (u64::MAX as int) * (u64::MAX as int))
            by (nonlinear_arith)
            requires
                a <= u64::MAX,
                b <= u64::MAX,
        ;
    }
    let wide: u128 = (a as u128) * (b as u128) / (SCALE as u128);
    if wide > u64::MAX as u128 {
        u64::MAX
    } else {
        wide as u64
    }
}

/// Scale a plain count (of matched tokens) by a fixed-point boost.
pub fn count_times_boost(count: usize, boost: u64) -> (r: u64)
    ensures
        r == spec_count_times_boost(count as int, boost),
{
    proof {
        assert((count as int) * (boost as int) <= (u64::MAX as int) * (u64::MAX as int))
            by (nonlinear_arith)
            requires
                count <= u64::MAX,
                boost <= u64::MAX,
        ;
    }
    let wide: u128 = (count as u128) * (boost as u128);
    if wide > u64::MAX as u128 {
        u64::MAX
    } else {
        wide as u64
    }
}

/// Divide a score evenly over `n` clauses, truncating.
pub fn div_count(x: u64, n: u128) -> (r: u64)
    requires
        n >= 1,
    ensures
        r == spec_div_count(x, n as int),
{
    let wide: u128 = (x as u128) / n;
    wide as u64
}

} // verus!
