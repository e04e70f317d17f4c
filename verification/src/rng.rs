//! The one randomness primitive the simulation draws on.

use vstd::prelude::*;

verus! {

/// Relies on `quad_rand::gen_range` for `i64` (the generator behind
/// `macroquad::rand`): it computes `low + u * (high - low)` in `f64`, with
/// `u = rand() / 2^32` in `[0, 1)`, and truncates toward zero. `low` and
/// `high` of magnitude at most 2^24 are exact in `f64` and rounding is
/// monotone, so the result always lies within `[low, high]`.
#[verifier::external_body]
pub(crate) fn rand_range_i64(lo: i64, hi: i64) -> (r: i64)
    requires
        -16_000_000 <= lo,
        lo < hi,
        hi <= 16_000_000,
    ensures
        lo <= r <= hi,
{
    quad_rand::gen_range(lo, hi)
}

} // verus!
