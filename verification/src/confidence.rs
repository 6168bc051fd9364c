//! Confidence model: how many independently sampled cells must verify so
//! that `(1/2)^count <= 1 - confidence`, i.e. `count = ceil(-log2(1 -
//! confidence/100))`.
//!
//! Confidence percentages are carried as integers in hundredths of a
//! percent (`9200` stands for `92.00 %`), so the whole model stays in
//! exact integer arithmetic.

use vstd::prelude::*;
use vstd::arithmetic::power2::*;
use vstd::arithmetic::mul::*;

verus! {

/// Scale of the fixed-point confidence representation: `10000` is `100 %`.
pub const CONFIDENCE_SCALE: u32 = 10000;

/// Lowest accepted target confidence: `50.00 %`.
pub const CONFIDENCE_MIN: u32 = 5000;

/// Confidence substituted when the requested one is out of range or gives
/// a degenerate sample count: `99.00 %`.
pub const CONFIDENCE_DEFAULT: u32 = 9900;

/// The accepted input range `[50 %, 100 %)`.
pub open spec fn confidence_in_range(confidence: int) -> bool {
    CONFIDENCE_MIN <= confidence < CONFIDENCE_SCALE
}

/// `k` is the least exponent with `gap * 2^k >= CONFIDENCE_SCALE`, where
/// `gap = CONFIDENCE_SCALE - confidence` stands for `1 - confidence/100`.
/// That least `k` is exactly `ceil(-log2(gap / CONFIDENCE_SCALE))`.
pub open spec fn is_min_sample_count(gap: int, k: int) -> bool {
    &&& 0 <= k
    &&& gap * pow2(k as nat) >= CONFIDENCE_SCALE
    &&& (k == 0 || gap * pow2((k - 1) as nat) < CONFIDENCE_SCALE)
}

/// The least exponent itself; unique by `lemma_min_sample_count_unique`
/// and well defined for `gap >= 1` by `lemma_min_sample_count_exists`.
pub open spec fn min_sample_count(gap: int) -> int {
    choose|k: int| is_min_sample_count(gap, k)
}

/// What `cell_count_for_confidence` returns: the formula's value for an
/// in-range confidence whose count lands in `[1, 10]`, and the value for
/// the default confidence everywhere else.
pub open spec fn spec_cell_count(confidence: int) -> int {
    if confidence_in_range(confidence)
        && 1 <= min_sample_count(CONFIDENCE_SCALE - confidence) <= 10 {
        min_sample_count(CONFIDENCE_SCALE - confidence)
    } else {
        min_sample_count(CONFIDENCE_SCALE - CONFIDENCE_DEFAULT)
    }
}

proof fn lemma_find_min_count(gap: int, k: nat) -> (m: int)
    requires
        1 <= gap,
        k == 0 || gap * pow2((k - 1) as nat) < CONFIDENCE_SCALE,
    ensures
        is_min_sample_count(gap, m),
    decreases 15 - k,
{
    if gap * pow2(k) >= CONFIDENCE_SCALE {
        k as int
    } else {
        // gap * pow2(k) < 10000 and gap >= 1 bound k below 14
        lemma_pow2_pos(k);
        lemma_mul_inequality(1, gap, pow2(k) as int);
        if k >= 14 {
            lemma_pow2_strictly_increases(14, k + 1);
            lemma2_to64();
            assert(pow2(k) >= pow2(14)) by {
                if k > 14 {
                    lemma_pow2_strictly_increases(14, k);
                }
            }
        }
        lemma_find_min_count(gap, k + 1)
    }
}

/// For every positive gap some least exponent exists.
pub proof fn lemma_min_sample_count_exists(gap: int)
    requires
        1 <= gap,
    ensures
        is_min_sample_count(gap, min_sample_count(gap)),
{
    let m = lemma_find_min_count(gap, 0);
    assert(is_min_sample_count(gap, min_sample_count(gap))) by {
        assert(is_min_sample_count(gap, m));
    }
}

/// The least exponent is unique.
pub proof fn lemma_min_sample_count_unique(gap: int, k1: int, k2: int)
    requires
        1 <= gap,
        is_min_sample_count(gap, k1),
        is_min_sample_count(gap, k2),
    ensures
        k1 == k2,
{
    if k1 != k2 {
        let lo = if k1 < k2 { k1 } else { k2 };
        let hi = if k1 < k2 { k2 } else { k1 };
        // gap * pow2(lo) >= SCALE, yet pow2(lo) <= pow2(hi - 1) makes
        // gap * pow2(lo) <= gap * pow2(hi - 1) < SCALE
        assert(pow2(lo as nat) <= pow2((hi - 1) as nat)) by {
            if lo < hi - 1 {
                lemma_pow2_strictly_increases(lo as nat, (hi - 1) as nat);
            }
        }
        lemma_mul_inequality(pow2(lo as nat) as int, pow2((hi - 1) as nat) as int, gap);
        lemma_mul_is_commutative(gap, pow2(lo as nat) as int);
        lemma_mul_is_commutative(gap, pow2((hi - 1) as nat) as int);
        assert(false);
    }
}

/// A wider gap (a lower confidence) never needs more samples: the heart
/// of the monotonicity of the cell count in the confidence.
pub proof fn lemma_min_count_order(g1: int, g2: int, k1: int, k2: int)
    requires
        1 <= g2 <= g1,
        is_min_sample_count(g1, k1),
        is_min_sample_count(g2, k2),
    ensures
        k1 <= k2,
{
    if k1 > k2 {
        assert(false) by {
            assert(pow2(k2 as nat) <= pow2((k1 - 1) as nat)) by {
                if k2 < k1 - 1 {
                    lemma_pow2_strictly_increases(k2 as nat, (k1 - 1) as nat);
                }
            }
            // g2 * pow2(k2) <= g1 * pow2(k1 - 1) < SCALE, yet >= SCALE
            lemma_mul_inequality(g2, g1, pow2(k2 as nat) as int);
            lemma_mul_inequality(pow2(k2 as nat) as int, pow2((k1 - 1) as nat) as int, g1);
            lemma_mul_is_commutative(g1, pow2(k2 as nat) as int);
            lemma_mul_is_commutative(g1, pow2((k1 - 1) as nat) as int);
        }
    }
}

/// The count for the default confidence of `99 %` is 7:
/// `ceil(-log2(0.01)) = 7`.
pub proof fn lemma_default_cell_count()
    ensures
        min_sample_count(CONFIDENCE_SCALE - CONFIDENCE_DEFAULT) == 7,
{
    lemma2_to64();
    assert(is_min_sample_count(100, 7));
    lemma_min_sample_count_exists(100);
    lemma_min_sample_count_unique(100, min_sample_count(100), 7);
}

/// The returned cell count always lies in `[1, 10]`, whatever the input.
pub proof fn lemma_cell_count_range(confidence: int)
    ensures
        1 <= spec_cell_count(confidence) <= 10,
{
    lemma_default_cell_count();
}

/// Within `[50 %, 99.90 %]` the required cell count is monotonically
/// non-decreasing in the confidence. Above `99.90 %` the formula's value
/// exceeds 10 and is clamped to the default count, which breaks
/// monotonicity there.
pub proof fn lemma_cell_count_monotonic(c1: int, c2: int)
    requires
        CONFIDENCE_MIN <= c1 <= c2,
        c2 <= 9990,
    ensures
        spec_cell_count(c1) <= spec_cell_count(c2),
{
    let g1 = CONFIDENCE_SCALE - c1;
    let g2 = CONFIDENCE_SCALE - c2;
    lemma_min_sample_count_exists(g1);
    lemma_min_sample_count_exists(g2);
    lemma_min_count_order(g1, g2, min_sample_count(g1), min_sample_count(g2));
    lemma2_to64();
    // neither count is clamped: gap >= 10 keeps the count at or below 10,
    // gap <= 5000 keeps it at or above 1
    assert(is_min_sample_count(10, 10));
    lemma_min_sample_count_exists(10);
    lemma_min_count_order(g2, 10, min_sample_count(g2), 10);
    // the count for g1 cannot be 0: that would need g1 itself >= SCALE
    if min_sample_count(g1) == 0 {
        assert(g1 * pow2(0) >= CONFIDENCE_SCALE);
        assert(pow2(0) == 1);
        assert(false);
    }
}

/// Out-of-range and degenerate inputs all give the default count.
pub proof fn lemma_cell_count_default_cases(confidence: int)
    requires
        !confidence_in_range(confidence)
            || !(1 <= min_sample_count(CONFIDENCE_SCALE - confidence) <= 10),
    ensures
        spec_cell_count(confidence) == spec_cell_count(CONFIDENCE_DEFAULT as int),
{
    lemma_default_cell_count();
}

/// Least exponent with `gap * 2^k >= CONFIDENCE_SCALE`, found by doubling.
fn min_samples_for_gap(gap: u32) -> (k: u32)
    requires
        1 <= gap <= CONFIDENCE_SCALE,
    ensures
        is_min_sample_count(gap as int, k as int),
{
    let mut k: u32 = 0;
    let mut reach: u32 = gap;
    proof {
        lemma2_to64();
    }
    while reach < CONFIDENCE_SCALE
        invariant
            1 <= gap <= CONFIDENCE_SCALE,
            reach == gap * pow2(k as nat),
            k == 0 || gap * pow2((k - 1) as nat) < CONFIDENCE_SCALE,
            k <= 14,
            reach < 2 * CONFIDENCE_SCALE,
        decreases 2 * CONFIDENCE_SCALE - reach,
    {
        proof {
            lemma_pow2_pos(k as nat);
            lemma_mul_inequality(1, gap as int, pow2(k as nat) as int);
            lemma_mul_is_commutative(gap as int, pow2(k as nat) as int);
            if k >= 14 {
                lemma2_to64();
                assert(pow2(14) == 16384);
                assert(false);
            }
            lemma_pow2_unfold((k + 1) as nat);
            assert(gap * pow2((k + 1) as nat) == 2 * (gap * pow2(k as nat)))
                by (nonlinear_arith)
                requires
                    pow2((k + 1) as nat) == 2 * pow2(k as nat),
            ;
        }
        reach = reach * 2;
        k = k + 1;
    }
    k
}

/// Number of cell samples needed for the given target confidence, in
/// hundredths of a percent. Inputs outside `[50 %, 100 %)`, and inputs
/// whose formula value would be `0` or above `10`, fall back to the
/// default confidence of `99 %`; the result is always in `[1, 10]`.
pub fn cell_count_for_confidence(confidence: u32) -> (count: u32)
    ensures
        count == spec_cell_count(confidence as int),
        1 <= count <= 10,
{
    let mut count: u32;
    if confidence < CONFIDENCE_MIN || confidence >= CONFIDENCE_SCALE {
        count = min_samples_for_gap(CONFIDENCE_SCALE - CONFIDENCE_DEFAULT);
        proof {
            lemma_default_cell_count();
            lemma_min_sample_count_unique(100, count as int, 7);
        }
    } else {
        count = min_samples_for_gap(CONFIDENCE_SCALE - confidence);
        proof {
            lemma_min_sample_count_exists(CONFIDENCE_SCALE - confidence);
            lemma_min_sample_count_unique(
                CONFIDENCE_SCALE - confidence,
                count as int,
                min_sample_count(CONFIDENCE_SCALE - confidence),
            );
        }
    }
    if count == 0 || count > 10 {
        count = min_samples_for_gap(CONFIDENCE_SCALE - CONFIDENCE_DEFAULT);
        proof {
            lemma_default_cell_count();
            lemma_min_sample_count_unique(100, count as int, 7);
        }
    }
    count
}

} // verus!
