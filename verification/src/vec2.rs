//! Planar vectors in fixed point, with magnitude and zero-guarded
//! normalization.

use vstd::prelude::*;
use crate::fixed::{
    iabs, sat64, tdiv, sqrt_floor, SCALE, lemma_abs_mul_pos, lemma_i64_product_fits,
    lemma_sqrt_floor_bounds, lemma_tdiv_abs, tdiv_i128, isqrt_u128,
};

verus! {

/// A planar vector; both components are fixed-point scalars (thousandths).
#[derive(Clone, Copy, PartialEq, Eq, Structural, Debug)]
pub struct Vec2 {
    pub x: i64,
    pub y: i64,
}

/// Mathematical model of a `Vec2`: the same two components as unbounded
/// integers, still counted in thousandths.
pub struct Vec2View {
    pub x: int,
    pub y: int,
}

impl View for Vec2 {
    type V = Vec2View;

    open spec fn view(&self) -> Vec2View {
        Vec2View { x: self.x as int, y: self.y as int }
    }
}

/// Squared magnitude, in squared quanta.
pub open spec fn mag_sq(v: Vec2View) -> int {
    v.x * v.x + v.y * v.y
}

/// Magnitude rounded down to a whole quantum.
pub open spec fn mag(v: Vec2View) -> int {
    sqrt_floor(mag_sq(v))
}

/// Componentwise saturating difference.
pub open spec fn spec_sub(a: Vec2View, b: Vec2View) -> Vec2View {
    Vec2View { x: sat64(a.x - b.x), y: sat64(a.y - b.y) }
}

/// The vector scaled to unit length (`SCALE` quanta), rounded toward zero;
/// the zero vector when the magnitude is zero, never a division by zero.
pub open spec fn spec_normalize(v: Vec2View) -> Vec2View {
    let m = mag(v);
    if m == 0 {
        Vec2View { x: 0, y: 0 }
    } else {
        Vec2View { x: tdiv(v.x * SCALE, m), y: tdiv(v.y * SCALE, m) }
    }
}

/// A square never goes negative, and squaring keeps `<=` on magnitudes.
pub proof fn lemma_square_nonneg(x: int)
    by (nonlinear_arith)
    ensures
        x * x >= 0,
        x * x == iabs(x) * iabs(x),
{
}

/// Each component is bounded by the rounded-down magnitude.
pub proof fn lemma_component_le_mag(v: Vec2View)
    ensures
        iabs(v.x) <= mag(v),
        iabs(v.y) <= mag(v),
{
    lemma_square_nonneg(v.x);
    lemma_square_nonneg(v.y);
    lemma_sqrt_floor_bounds(mag_sq(v));
    let m = mag(v);
    assert(iabs(v.x) <= m && iabs(v.y) <= m) by (nonlinear_arith)
        requires
            m >= 0,
            iabs(v.x) >= 0,
            iabs(v.y) >= 0,
            iabs(v.x) * iabs(v.x) <= mag_sq(v),
            iabs(v.y) * iabs(v.y) <= mag_sq(v),
            mag_sq(v) < (m + 1) * (m + 1),
    ;
}

/// Absolute value of a scalar, widened so that even `i64::MIN` is exact.
pub fn abs_u128(x: i64) -> (r: u128)
    ensures
        r == iabs(x as int),
{
    if x >= 0 {
        x as u128
    } else {
        (-(x as i128)) as u128
    }
}

/// Rounded-down magnitude of a vector; exact for every representable vector.
pub fn magnitude(v: &Vec2) -> (m: u64)
    ensures
        m == mag(v@),
{
    let ax: u128 = abs_u128(v.x);
    let ay: u128 = abs_u128(v.y);
    proof {
        lemma_i64_product_fits(v.x as int, v.x as int);
        lemma_i64_product_fits(v.y as int, v.y as int);
        lemma_square_nonneg(v.x as int);
        lemma_square_nonneg(v.y as int);
    }
    let s: u128 = ax * ax + ay * ay;
    isqrt_u128(s)
}

/// Zero-guarded normalization: the executable counterpart of
/// `spec_normalize`.
pub fn normalize(v: &Vec2) -> (r: Vec2)
    ensures
        r@ == spec_normalize(v@),
        iabs(r@.x) <= SCALE,
        iabs(r@.y) <= SCALE,
{
    let m: u64 = magnitude(v);
    if m == 0 {
        Vec2 { x: 0, y: 0 }
    } else {
        proof {
            lemma_component_le_mag(v@);
            lemma_tdiv_abs(v@.x * SCALE, m as int);
            lemma_tdiv_abs(v@.y * SCALE, m as int);
            lemma_abs_mul_pos(v@.x, SCALE as int);
            lemma_abs_mul_pos(v@.y, SCALE as int);
            assert(iabs(tdiv(v@.x * SCALE, m as int)) <= SCALE) by (nonlinear_arith)
                requires
                    m >= 1,
                    iabs(v@.x) <= m,
                    iabs(tdiv(v@.x * SCALE, m as int)) >= 0,
                    iabs(tdiv(v@.x * SCALE, m as int)) * m <= iabs(v@.x) * (SCALE as int),
            ;
            assert(iabs(tdiv(v@.y * SCALE, m as int)) <= SCALE) by (nonlinear_arith)
                requires
                    m >= 1,
                    iabs(v@.y) <= m,
                    iabs(tdiv(v@.y * SCALE, m as int)) >= 0,
                    iabs(tdiv(v@.y * SCALE, m as int)) * m <= iabs(v@.y) * (SCALE as int),
            ;
        }
        let nx: i64 = tdiv_i128((v.x as i128) * (SCALE as i128), m as i128) as i64;
        let ny: i64 = tdiv_i128((v.y as i128) * (SCALE as i128), m as i128) as i64;
        Vec2 { x: nx, y: ny }
    }
}

} // verus!
