//! Vote ratios as parts-per-million fractions.
//!
//! A ratio is `parts / whole` clamped to at most 100% and rounded down to a
//! whole number of millionths, so it always lies in `[0, 1]`. A whole of `0`
//! yields the ratio `0` by definition.

use vstd::arithmetic::div_mod::{lemma_div_is_ordered, lemma_div_multiples_vanish};
use vstd::arithmetic::mul::lemma_mul_inequality;
use vstd::prelude::*;

verus! {

/// One million parts per million: the ppm encoding of 100%.
pub const PPM_SCALE: u32 = 1_000_000;

/// Mathematical value of the ratio `parts / whole` in parts per million:
/// clamped to at most one, rounded down, and `0` when `whole` is `0`.
pub open spec fn ratio_ppm_spec(parts: int, whole: int) -> int {
    if whole <= 0 {
        0
    } else if parts > whole {
        1_000_000
    } else {
        parts * 1_000_000 / whole
    }
}

/// The ratio always lies between 0% and 100%.
pub proof fn lemma_ratio_ppm_bounds(parts: int, whole: int)
    requires
        0 <= parts,
    ensures
        0 <= ratio_ppm_spec(parts, whole) <= 1_000_000,
{
    if whole <= 0 || parts > whole {
    } else {
        lemma_mul_inequality(parts, whole, 1_000_000);
        lemma_div_is_ordered(parts * 1_000_000, whole * 1_000_000, whole);
        lemma_div_multiples_vanish(1_000_000, whole);
        assert(whole * 1_000_000 == 1_000_000 * whole);
        vstd::arithmetic::div_mod::lemma_div_pos_is_pos(parts * 1_000_000, whole);
        lemma_mul_inequality(0, parts, 1_000_000);
    }
}

/// The ratio is `0` when the whole is `0` or the parts are `0`, and positive
/// as soon as the parts amount to at least one millionth of a positive whole.
pub proof fn lemma_ratio_ppm_zero(parts: int, whole: int)
    requires
        0 <= parts,
    ensures
        whole <= 0 ==> ratio_ppm_spec(parts, whole) == 0,
        parts == 0 ==> ratio_ppm_spec(parts, whole) == 0,
        whole > 0 && parts * 1_000_000 >= whole ==> ratio_ppm_spec(parts, whole) > 0,
{
    if whole > 0 {
        if parts == 0 {
            vstd::arithmetic::div_mod::lemma_div_basics(whole);
        } else if parts * 1_000_000 >= whole {
            if parts > whole {
            } else {
                lemma_div_multiples_vanish(1, whole);
                assert(whole * 1 == whole);
                lemma_div_is_ordered(whole, parts * 1_000_000, whole);
            }
        }
    }
}

/// The full share gives exactly 100%.
pub proof fn lemma_ratio_ppm_full(whole: int)
    requires
        0 < whole,
    ensures
        ratio_ppm_spec(whole, whole) == 1_000_000,
{
    lemma_div_multiples_vanish(1_000_000, whole);
    assert(whole * 1_000_000 == 1_000_000 * whole);
}

/// Compute the ratio `parts / whole` in parts per million.
pub fn ratio_ppm(parts: u64, whole: u64) -> (r: u32)
    ensures
        r == ratio_ppm_spec(parts as int, whole as int),
        r <= 1_000_000,
{
    proof {
        lemma_ratio_ppm_bounds(parts as int, whole as int);
    }
    if whole == 0 {
        0
    } else if parts > whole {
        PPM_SCALE
    } else {
        let wide: u128 = (parts as u128) * (PPM_SCALE as u128);
        (wide / (whole as u128)) as u32
    }
}

} // verus!
