//! Fixed-point scalar arithmetic.
//!
//! Every scalar of the simulation (positions, velocities, weights, radii,
//! angles) is an `i64` holding thousandths of a unit, so `1500` stands for
//! `1.5`.  Sums and products that could leave the `i64` range saturate at its
//! bounds; divisions truncate toward zero, as the corresponding operations on
//! real numbers would round toward zero when quantized.

use vstd::prelude::*;
use vstd::arithmetic::div_mod::{lemma_div_pos_is_pos, lemma_fundamental_div_mod};
use vstd::arithmetic::mul::{
    lemma_mul_is_commutative, lemma_mul_nonnegative, lemma_mul_unary_negation,
};

verus! {

/// Number of fixed-point quanta per whole unit.
pub const SCALE: i64 = 1000;

/// Absolute value of a mathematical integer.
pub open spec fn iabs(x: int) -> int {
    if x >= 0 {
        x
    } else {
        -x
    }
}

/// Saturation of a mathematical integer into the `i64` range.
pub open spec fn sat64(x: int) -> int {
    if x > i64::MAX {
        i64::MAX as int
    } else if x < i64::MIN {
        i64::MIN as int
    } else {
        x
    }
}

/// Division truncating toward zero (the rounding of `/` on hardware
/// integers), for a positive divisor.
pub open spec fn tdiv(a: int, d: int) -> int
    recommends
        d > 0,
{
    if a >= 0 {
        a / d
    } else {
        -((-a) / d)
    }
}

/// Largest integer whose square does not exceed `s` (0 for negative `s`).
pub open spec fn sqrt_floor(s: int) -> int
    decreases s,
{
    if s <= 0 {
        0
    } else {
        let r = sqrt_floor(s - 1);
        if (r + 1) * (r + 1) <= s {
            r + 1
        } else {
            r
        }
    }
}

/// `sqrt_floor` is the floor of the square root: its square is at most `s`
/// and the next square is beyond `s`.
pub proof fn lemma_sqrt_floor_bounds(s: int)
    requires
        s >= 0,
    ensures
        0 <= sqrt_floor(s),
        sqrt_floor(s) * sqrt_floor(s) <= s,
        s < (sqrt_floor(s) + 1) * (sqrt_floor(s) + 1),
    decreases s,
{
    if s == 0 {
    } else {
        lemma_sqrt_floor_bounds(s - 1);
        let r = sqrt_floor(s - 1);
        assert((r + 2) * (r + 2) == (r + 1) * (r + 1) + 2 * r + 3) by (nonlinear_arith);
    }
}

/// Any integer bracketed the way `sqrt_floor(s)` is equals `sqrt_floor(s)`.
pub proof fn lemma_sqrt_unique(s: int, a: int, b: int)
    by (nonlinear_arith)
    requires
        s >= 0,
        a >= 0,
        b >= 0,
        a * a <= s < (a + 1) * (a + 1),
        b * b <= s < (b + 1) * (b + 1),
    ensures
        a == b,
{
}

/// The product of two values in the `i64` range stays within one bit of
/// 2^126, so it always fits in an `i128`.
pub proof fn lemma_i64_product_fits(a: int, b: int)
    by (nonlinear_arith)
    requires
        i64::MIN <= a <= i64::MAX,
        i64::MIN <= b <= i64::MAX,
    ensures
        -0x4000_0000_0000_0000_0000_0000_0000_0000 <= a * b
            <= 0x4000_0000_0000_0000_0000_0000_0000_0000,
{
}

/// Magnitude and sign of truncating division: the quotient never exceeds the
/// dividend in absolute value and keeps its sign.
pub proof fn lemma_tdiv_abs(a: int, d: int)
    requires
        d > 0,
    ensures
        iabs(tdiv(a, d)) * d <= iabs(a),
        iabs(tdiv(a, d)) <= iabs(a),
        a >= 0 ==> tdiv(a, d) >= 0,
        a <= 0 ==> tdiv(a, d) <= 0,
{
    let m = iabs(a);
    lemma_fundamental_div_mod(m, d);
    lemma_div_pos_is_pos(m, d);
    let q = m / d;
    lemma_mul_is_commutative(q, d);
    assert(q * d <= m);
    assert(q <= q * d) by (nonlinear_arith)
        requires
            q >= 0,
            d >= 1,
    ;
}

/// Squaring keeps the order of nonnegative numbers.
pub proof fn lemma_square_le(a: int, b: int)
    by (nonlinear_arith)
    requires
        0 <= a <= b,
    ensures
        a * a <= b * b,
{
}

/// Multiplying both sides by a nonnegative factor keeps an inequality.
pub proof fn lemma_mul_le_right(a: int, b: int, c: int)
    by (nonlinear_arith)
    requires
        a <= b,
        c >= 0,
    ensures
        a * c <= b * c,
{
}

/// A positive common factor can be cancelled from an inequality.
pub proof fn lemma_cancel_right(a: int, b: int, c: int)
    by (nonlinear_arith)
    requires
        a * c <= b * c,
        c >= 1,
    ensures
        a <= b,
{
}

/// A nonnegative number whose square is bounded by a square is bounded by
/// the root.
pub proof fn lemma_sqrt_le(a: int, v: int)
    by (nonlinear_arith)
    requires
        a >= 0,
        v >= 0,
        a * a <= v * v,
    ensures
        a <= v,
{
}

/// A product of bounded factors is bounded by the product of the bounds.
pub proof fn lemma_mul_bounds(a: int, b: int, ba: int, bb: int)
    by (nonlinear_arith)
    requires
        -ba <= a <= ba,
        -bb <= b <= bb,
        0 <= ba,
        0 <= bb,
    ensures
        -(ba * bb) <= a * b <= ba * bb,
{
}

/// Scaling by a nonnegative factor scales the absolute value.
pub proof fn lemma_abs_mul_pos(x: int, s: int)
    requires
        s >= 0,
    ensures
        iabs(x * s) == iabs(x) * s,
{
    if x >= 0 {
        lemma_mul_nonnegative(x, s);
    } else {
        lemma_mul_unary_negation(x, s);
        lemma_mul_nonnegative(-x, s);
    }
}

/// Absolute value of a scalar as a `u64`; exact even for `i64::MIN`.
pub fn abs_u64(x: i64) -> (r: u64)
    ensures
        r == iabs(x as int),
{
    if x >= 0 {
        x as u64
    } else {
        (-(x as i128)) as u64
    }
}

/// Saturating addition.
pub fn sat_add(a: i64, b: i64) -> (r: i64)
    ensures
        r == sat64(a + b),
{
    let s: i128 = a as i128 + b as i128;
    if s > i64::MAX as i128 {
        i64::MAX
    } else if s < i64::MIN as i128 {
        i64::MIN
    } else {
        s as i64
    }
}

/// Saturating subtraction.
pub fn sat_sub(a: i64, b: i64) -> (r: i64)
    ensures
        r == sat64(a - b),
{
    let s: i128 = a as i128 - b as i128;
    if s > i64::MAX as i128 {
        i64::MAX
    } else if s < i64::MIN as i128 {
        i64::MIN
    } else {
        s as i64
    }
}

/// Saturating multiplication of plain (unscaled) integers.
pub fn sat_mul(a: i64, b: i64) -> (r: i64)
    ensures
        r == sat64(a * b),
{
    proof {
        lemma_i64_product_fits(a as int, b as int);
    }
    let p: i128 = (a as i128) * (b as i128);
    if p > i64::MAX as i128 {
        i64::MAX
    } else if p < i64::MIN as i128 {
        i64::MIN
    } else {
        p as i64
    }
}

/// Truncating division of an `i128` by a positive divisor.
pub(crate) fn tdiv_i128(a: i128, d: i128) -> (q: i128)
    requires
        d > 0,
        a > i128::MIN,
    ensures
        q == tdiv(a as int, d as int),
{
    proof {
        lemma_tdiv_abs(a as int, d as int);
    }
    if a >= 0 {
        ((a as u128) / (d as u128)) as i128
    } else {
        -(((-a) as u128 / (d as u128)) as i128)
    }
}

/// Truncating division of two scalars (positive divisor).
pub fn div_trunc(a: i64, d: i64) -> (q: i64)
    requires
        d > 0,
    ensures
        q == tdiv(a as int, d as int),
{
    proof {
        lemma_tdiv_abs(a as int, d as int);
    }
    tdiv_i128(a as i128, d as i128) as i64
}

/// Fixed-point product: `a * b / SCALE`, truncated, then saturated.
pub fn mul_fixed(a: i64, b: i64) -> (r: i64)
    ensures
        r == sat64(tdiv(a * b, SCALE as int)),
{
    proof {
        lemma_i64_product_fits(a as int, b as int);
    }
    let p: i128 = (a as i128) * (b as i128);
    let q: i128 = tdiv_i128(p, SCALE as i128);
    proof {
        lemma_tdiv_abs(p as int, SCALE as int);
    }
    if q > i64::MAX as i128 {
        i64::MAX
    } else if q < i64::MIN as i128 {
        i64::MIN
    } else {
        q as i64
    }
}

/// Floor of the square root of an arbitrary `u128`.
pub fn isqrt_u128(s: u128) -> (r: u64)
    ensures
        r == sqrt_floor(s as int),
{
    let mut lo: u128 = 0;
    let mut hi: u128 = 0x1_0000_0000_0000_0000;
    proof {
        assert(s < hi * hi) by (nonlinear_arith)
            requires
                hi == 0x1_0000_0000_0000_0000,
                s <= u128::MAX,
        ;
    }
    while lo + 1 < hi
        invariant
            lo < hi <= 0x1_0000_0000_0000_0000,
            lo * lo <= s,
            s < hi * hi,
        decreases hi - lo,
    {
        let mid: u128 = lo + (hi - lo) / 2;
        proof {
            assert(mid * mid < u128::MAX) by (nonlinear_arith)
                requires
                    mid < 0x1_0000_0000_0000_0000,
            ;
        }
        if mid * mid <= s {
            lo = mid;
        } else {
            hi = mid;
        }
    }
    proof {
        lemma_sqrt_floor_bounds(s as int);
        lemma_sqrt_unique(s as int, lo as int, sqrt_floor(s as int));
    }
    lo as u64
}

} // verus!
