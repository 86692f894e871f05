//! Quantized trigonometry in milliradians.
//!
//! Angles are `i64` milliradians.  The functions here are the fixed-point
//! approximations the simulation is specified against: a rational
//! approximation for sine and cosine, `sqrt(2 (1 - t))` for the arccosine
//! used by the angular smoother (accurate near small angles), and a
//! polynomial octant approximation for `atan2`.  Each executable function
//! returns exactly the value of its spec counterpart.

use vstd::prelude::*;
use crate::fixed::{iabs, tdiv, sqrt_floor, div_trunc, isqrt_u128, lemma_tdiv_abs};

verus! {

/// One half turn (pi), in milliradians.
pub const PI_MILLI: i64 = 3142;

/// A quarter turn (pi / 2), in milliradians.
pub const HALF_PI_MILLI: i64 = 1571;

/// A full turn (two pi), in milliradians.
pub const TWO_PI_MILLI: i64 = 6283;

/// Rational sine approximation on the first half turn, in thousandths.
pub open spec fn spec_sin_half(x: int) -> int
    recommends
        0 <= x <= PI_MILLI,
{
    let p = x * (PI_MILLI - x);
    tdiv(16000 * p, 49_348_000 - 4 * p)
}

/// Sine of an angle in `[0, TWO_PI_MILLI]`, in thousandths.
pub open spec fn spec_sin(a: int) -> int
    recommends
        0 <= a <= TWO_PI_MILLI,
{
    if a <= PI_MILLI {
        spec_sin_half(a)
    } else {
        -spec_sin_half(a - PI_MILLI)
    }
}

/// Cosine via the quarter-turn shift of the sine.
pub open spec fn spec_cos(a: int) -> int
    recommends
        0 <= a <= TWO_PI_MILLI,
{
    if a + HALF_PI_MILLI <= TWO_PI_MILLI {
        spec_sin(a + HALF_PI_MILLI)
    } else {
        spec_sin(a + HALF_PI_MILLI - TWO_PI_MILLI)
    }
}

/// Arccosine of a cosine value in `[0, 1000]`, in milliradians: the
/// small-angle approximation `sqrt(2 (1 - t))`.
pub open spec fn spec_acos(t: int) -> int
    recommends
        0 <= t <= 1000,
{
    sqrt_floor(2000 * (1000 - t))
}

/// The numerator of the half-turn sine stays within a thousandth of the
/// denominator, so the quotient never leaves `[0, 1001]`.
proof fn lemma_sin_half_bounds(x: int)
    requires
        0 <= x <= PI_MILLI,
    ensures
        0 <= spec_sin_half(x) <= 1001,
{
    assert(0 <= x * (3142 - x) <= 2_468_041) by (nonlinear_arith)
        requires
            0 <= x <= 3142,
    ;
    let p = x * (PI_MILLI - x);
    let num = 16000 * p;
    let den = 49_348_000 - 4 * p;
    lemma_tdiv_abs(num, den);
    let q = tdiv(num, den);
    assert(q <= 1001) by (nonlinear_arith)
        requires
            den >= 1,
            q >= 0,
            q * den <= num,
            num <= 1001 * den,
    ;
}

/// Executable half-turn sine.
fn sin_half(x: i64) -> (r: i64)
    requires
        0 <= x <= PI_MILLI,
    ensures
        r == spec_sin_half(x as int),
        0 <= r <= 1001,
{
    proof {
        assert(0 <= x * (PI_MILLI - x) <= 2_468_041) by (nonlinear_arith)
            requires
                0 <= x <= 3142,
        ;
        lemma_sin_half_bounds(x as int);
    }
    let p: i64 = x * (PI_MILLI - x);
    div_trunc(16000 * p, 49_348_000 - 4 * p)
}

/// Sine of an angle in `[0, TWO_PI_MILLI]` milliradians, in thousandths.
pub fn sin_milli(a: i64) -> (r: i64)
    requires
        0 <= a <= TWO_PI_MILLI,
    ensures
        r == spec_sin(a as int),
        -1001 <= r <= 1001,
{
    if a <= PI_MILLI {
        sin_half(a)
    } else {
        -sin_half(a - PI_MILLI)
    }
}

/// Cosine of an angle in `[0, TWO_PI_MILLI]` milliradians, in thousandths.
pub fn cos_milli(a: i64) -> (r: i64)
    requires
        0 <= a <= TWO_PI_MILLI,
    ensures
        r == spec_cos(a as int),
        -1001 <= r <= 1001,
{
    if a + HALF_PI_MILLI <= TWO_PI_MILLI {
        sin_milli(a + HALF_PI_MILLI)
    } else {
        sin_milli(a + HALF_PI_MILLI - TWO_PI_MILLI)
    }
}

/// Arccosine of a cosine value in thousandths, in milliradians.
pub fn acos_milli(t: i64) -> (r: i64)
    requires
        0 <= t <= 1000,
    ensures
        r == spec_acos(t as int),
        0 <= r <= 1415,
{
    let s: u128 = (2000 * (1000 - t)) as u128;
    let r: u64 = isqrt_u128(s);
    proof {
        assert(sqrt_floor(s as int) <= 1415) by {
            crate::fixed::lemma_sqrt_floor_bounds(s as int);
            let q = sqrt_floor(s as int);
            assert(q <= 1415) by (nonlinear_arith)
                requires
                    q >= 0,
                    q * q <= 2_000_000,
            ;
        }
    }
    r as i64
}

/// Polynomial arctangent of a ratio in `[0, 1000]` thousandths, in
/// milliradians; exact at both ends of the octant.
pub open spec fn spec_atan_unit(z: int) -> int
    recommends
        0 <= z <= 1000,
{
    tdiv(785 * z, 1000) + tdiv(273 * z * (1000 - z), 1_000_000)
}

/// Arctangent of `n / d` for `0 <= n <= d`, in milliradians.
pub open spec fn spec_atan_frac(n: int, d: int) -> int
    recommends
        0 <= n <= d,
        d >= 1,
{
    spec_atan_unit(tdiv(n * 1000, d))
}

/// Four-quadrant arctangent in milliradians, matching the sign conventions
/// of the hardware `atan2`: the result lies in `[-PI_MILLI, PI_MILLI]`, and
/// both arguments zero give zero.
pub open spec fn spec_atan2(y: int, x: int) -> int {
    if x == 0 && y == 0 {
        0
    } else {
        let ax = iabs(x);
        let ay = iabs(y);
        let base = if ay <= ax {
            spec_atan_frac(ay, ax)
        } else {
            HALF_PI_MILLI - spec_atan_frac(ax, ay)
        };
        if x >= 0 && y >= 0 {
            base
        } else if x < 0 && y >= 0 {
            PI_MILLI - base
        } else if x < 0 {
            -(PI_MILLI - base)
        } else {
            -base
        }
    }
}

/// The octant arctangent stays within a quarter turn.
proof fn lemma_atan_unit_bounds(z: int)
    requires
        0 <= z <= 1000,
    ensures
        0 <= spec_atan_unit(z) <= 1060,
{
    assert(0 <= 273 * z * (1000 - z) <= 273_000_000) by (nonlinear_arith)
        requires
            0 <= z <= 1000,
    ;
    let c = 273 * z * (1000 - z);
    lemma_tdiv_abs(785 * z, 1000);
    lemma_tdiv_abs(c, 1_000_000);
}

/// Executable octant arctangent.
fn atan_unit(z: i64) -> (r: i64)
    requires
        0 <= z <= 1000,
    ensures
        r == spec_atan_unit(z as int),
        0 <= r <= 1060,
{
    proof {
        assert(0 <= 273 * z * (1000 - z) <= 273_000_000) by (nonlinear_arith)
            requires
                0 <= z <= 1000,
        ;
        lemma_atan_unit_bounds(z as int);
    }
    let c: i64 = 273 * z * (1000 - z);
    div_trunc(785 * z, 1000) + div_trunc(c, 1_000_000)
}

/// Arctangent of the ratio of two nonnegative scalars with `n <= d`.
fn atan_frac(n: u64, d: u64) -> (r: i64)
    requires
        n <= d,
        d >= 1,
    ensures
        r == spec_atan_frac(n as int, d as int),
        0 <= r <= 1060,
{
    let zq: u128 = (n as u128) * 1000 / (d as u128);
    proof {
        lemma_tdiv_abs(n as int * 1000, d as int);
        let z = tdiv(n as int * 1000, d as int);
        assert(z <= 1000) by (nonlinear_arith)
            requires
                d >= 1,
                z >= 0,
                z * d <= n * 1000,
                n * 1000 <= 1000 * d,
        ;
    }
    let z: i64 = zq as i64;
    atan_unit(z)
}

/// Four-quadrant arctangent of a vector's components, in milliradians.
pub fn atan2_milli(y: i64, x: i64) -> (r: i64)
    ensures
        r == spec_atan2(y as int, x as int),
        -PI_MILLI <= r <= PI_MILLI,
{
    if x == 0 && y == 0 {
        return 0;
    }
    let ax: u64 = crate::fixed::abs_u64(x);
    let ay: u64 = crate::fixed::abs_u64(y);
    let base: i64 = if ay <= ax {
        atan_frac(ay, ax)
    } else {
        HALF_PI_MILLI - atan_frac(ax, ay)
    };
    if x >= 0 && y >= 0 {
        base
    } else if x < 0 && y >= 0 {
        PI_MILLI - base
    } else if x < 0 {
        -(PI_MILLI - base)
    } else {
        -base
    }
}

} // verus!
