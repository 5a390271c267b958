//! Exact rational numbers over 128-bit integers.
//!
//! Percentage-like statistics (returns, drawdowns, win rates) are reported
//! as exact fractions instead of approximate floating-point values.  The
//! comparison of two fractions cross-multiplies, which can exceed 128 bits,
//! so it is done with a verified 128x128 -> 256-bit widening multiply.

use vstd::prelude::*;
use vstd::arithmetic::mul::lemma_mul_upper_bound;
use vstd::arithmetic::div_mod::lemma_fundamental_div_mod;

verus! {

/// An exact fraction `num / den`.
///
/// A ratio used as a number keeps `den > 0`; a ratio whose denominator is
/// zero or negative records a degenerate quotient (such as a per-day return
/// over a zero-day holding period) that downstream reporting maps to a
/// non-finite value.
#[derive(Clone, Copy, Debug, PartialEq, Eq, Structural)]
pub struct Ratio {
    pub num: i128,
    pub den: i128,
}

impl Ratio {
    /// True when the fraction is a well-defined number.
    pub open spec fn is_number(self) -> bool {
        self.den > 0
    }

    /// True when the fraction is a well-defined non-negative number.
    pub open spec fn is_nonneg_number(self) -> bool {
        self.den > 0 && self.num >= 0
    }

    /// Mathematical `self <= other`, for fractions with positive denominators.
    pub open spec fn spec_le(self, other: Ratio) -> bool {
        self.num * other.den <= other.num * self.den
    }

    /// Mathematical `self < other`, for fractions with positive denominators.
    pub open spec fn spec_lt(self, other: Ratio) -> bool {
        self.num * other.den < other.num * self.den
    }

}

/// 2^64, the base in which 128-bit factors are split into limbs.
pub const LIMB: u128 = 0x1_0000_0000_0000_0000;

/// 2^128, the weight of the high half of a 256-bit product.
pub open spec fn pow2_128() -> int {
    0x1_0000_0000_0000_0000_0000_0000_0000_0000int
}

/// Addition of two 128-bit values as a (sum, carry) pair.
fn add_with_carry(x: u128, y: u128) -> (r: (u128, u128))
    ensures
        r.1 <= 1,
        x + y == r.0 + r.1 * pow2_128(),
{
    if x <= u128::MAX - y {
        (x + y, 0)
    } else {
        ((x - (u128::MAX - y)) - 1, 1)
    }
}

/// Full 128x128 -> 256-bit product, returned as (high, low) halves.
pub fn mul_wide(a: u128, b: u128) -> (r: (u128, u128))
    ensures
        a * b == r.0 * pow2_128() + r.1,
{
    let a1 = a / LIMB;
    let a0 = a % LIMB;
    let b1 = b / LIMB;
    let b0 = b % LIMB;
    proof {
        lemma_fundamental_div_mod(a as int, LIMB as int);
        lemma_fundamental_div_mod(b as int, LIMB as int);
        lemma_mul_upper_bound(a0 as int, LIMB - 1, b0 as int, LIMB - 1);
        lemma_mul_upper_bound(a0 as int, LIMB - 1, b1 as int, LIMB - 1);
        lemma_mul_upper_bound(a1 as int, LIMB - 1, b0 as int, LIMB - 1);
        lemma_mul_upper_bound(a1 as int, LIMB - 1, b1 as int, LIMB - 1);
    }
    let p_ll = a0 * b0;
    let p_lh = a0 * b1;
    let p_hl = a1 * b0;
    let p_hh = a1 * b1;
    proof {
        lemma_fundamental_div_mod(p_lh as int, LIMB as int);
        lemma_fundamental_div_mod(p_hl as int, LIMB as int);
        assert((LIMB - 1) * (LIMB - 1) == LIMB * (LIMB - 2) + 1) by (nonlinear_arith);
        assert(p_hl <= LIMB * (LIMB - 2) + 1 ==> p_hl / LIMB <= LIMB - 2) by (nonlinear_arith);
        assert(p_lh <= LIMB * (LIMB - 2) + 1 ==> p_lh / LIMB <= LIMB - 2) by (nonlinear_arith);
        lemma_mul_upper_bound(p_hl as int % LIMB as int, LIMB - 1, LIMB as int, LIMB as int);
        lemma_mul_upper_bound(p_lh as int % LIMB as int, LIMB - 1, LIMB as int, LIMB as int);
    }
    let mid_hl = (p_hl % LIMB) * LIMB;
    let mid_lh = (p_lh % LIMB) * LIMB;
    let (lo1, c1) = add_with_carry(p_ll, mid_hl);
    let (lo2, c2) = add_with_carry(lo1, mid_lh);
    let hi = p_hh + (p_hl / LIMB) + c1 + (p_lh / LIMB) + c2;
    proof {
        assert(a * b == p_hh * (LIMB * LIMB) + p_hl * LIMB + p_lh * LIMB + p_ll)
            by (nonlinear_arith)
            requires
                a == LIMB * a1 + a0,
                b == LIMB * b1 + b0,
                p_ll == a0 * b0,
                p_lh == a0 * b1,
                p_hl == a1 * b0,
                p_hh == a1 * b1,
        ;
        assert(p_hl * LIMB == (p_hl / LIMB) * (LIMB * LIMB) + (p_hl % LIMB) * LIMB)
            by (nonlinear_arith)
            requires
                p_hl == LIMB * (p_hl / LIMB) + (p_hl % LIMB),
        ;
        assert(p_lh * LIMB == (p_lh / LIMB) * (LIMB * LIMB) + (p_lh % LIMB) * LIMB)
            by (nonlinear_arith)
            requires
                p_lh == LIMB * (p_lh / LIMB) + (p_lh % LIMB),
        ;
        assert(LIMB * LIMB == pow2_128()) by (nonlinear_arith);
        assert(hi * pow2_128() == p_hh * pow2_128() + (p_hl / LIMB) * pow2_128()
            + c1 * pow2_128() + (p_lh / LIMB) * pow2_128() + c2 * pow2_128())
            by (nonlinear_arith)
            requires
                hi == p_hh + (p_hl / LIMB) + c1 + (p_lh / LIMB) + c2,
        ;
    }
    (hi, lo2)
}

/// `<=` on 256-bit values given as (high, low) halves.
fn wide_le(x: (u128, u128), y: (u128, u128)) -> (r: bool)
    ensures
        r == (x.0 * pow2_128() + x.1 <= y.0 * pow2_128() + y.1),
{
    proof {
        if x.0 < y.0 {
            assert((x.0 + 1) * pow2_128() <= y.0 * pow2_128()) by (nonlinear_arith)
                requires x.0 + 1 <= y.0;
            assert(x.0 * pow2_128() + x.1 < (x.0 + 1) * pow2_128()) by (nonlinear_arith)
                requires x.1 < pow2_128();
        }
        if x.0 > y.0 {
            assert((y.0 + 1) * pow2_128() <= x.0 * pow2_128()) by (nonlinear_arith)
                requires y.0 + 1 <= x.0;
            assert(y.0 * pow2_128() + y.1 < (y.0 + 1) * pow2_128()) by (nonlinear_arith)
                requires y.1 < pow2_128();
        }
    }
    x.0 < y.0 || (x.0 == y.0 && x.1 <= y.1)
}

/// Exact `a <= b` on non-negative fractions, by widening cross-multiplication.
pub fn ratio_le(a: &Ratio, b: &Ratio) -> (r: bool)
    requires
        a.is_nonneg_number(),
        b.is_nonneg_number(),
    ensures
        r == a.spec_le(*b),
{
    let lhs = mul_wide(a.num as u128, b.den as u128);
    let rhs = mul_wide(b.num as u128, a.den as u128);
    proof {
        assert(a.num as u128 == a.num as int && b.den as u128 == b.den as int);
        assert(b.num as u128 == b.num as int && a.den as u128 == a.den as int);
    }
    wide_le(lhs, rhs)
}

/// Exact `a < b` on non-negative fractions.
pub fn ratio_lt(a: &Ratio, b: &Ratio) -> (r: bool)
    requires
        a.is_nonneg_number(),
        b.is_nonneg_number(),
    ensures
        r == a.spec_lt(*b),
{
    !ratio_le(b, a)
}

} // verus!
