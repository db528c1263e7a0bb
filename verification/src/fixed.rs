//! Fixed-point scalars.
//!
//! A scalar is an `i64` holding `value * SCALE`; all geometry in the crate is
//! carried in this representation. The engine accepts world coordinates and
//! matrix entries up to `WORLD_LIM` in raw units and keeps every derived
//! quantity within `DIST_LIM`, so that each intermediate product fits an
//! `i128` exactly.

use vstd::prelude::*;
use crate::num::{tdiv, div_trunc_pos, lemma_tdiv_abs_le, lemma_tdiv_bounds};

verus! {

/// Raw units per world unit: fixed-point scale.
pub const SCALE: i64 = 65536;

/// Largest raw magnitude accepted for world coordinates and matrix entries.
pub const WORLD_LIM: i64 = 68719476736;

/// Largest raw magnitude of an entry of a unit vector or rotation column.
pub const UNIT_LIM: i64 = 65536;

/// Largest raw magnitude accepted by the fade solver for height and distance.
pub const FADE_LIM: i64 = 549755813888;

/// Raw magnitude bound kept by solved distances and frustum corners.
pub const DIST_LIM: i64 = 1099511627776;

/// The fixed-point product: `a * b` rescaled back by `SCALE`, truncated.
pub open spec fn fxmul(a: int, b: int) -> int {
    tdiv(a * b, SCALE as int)
}

/// `|a| <= aa` and `|b| <= bb` bound the product by `aa * bb`.
pub proof fn lemma_abs_mul_le(a: int, b: int, aa: int, bb: int)
    requires
        -aa <= a <= aa,
        -bb <= b <= bb,
    ensures
        -(aa * bb) <= a * b <= aa * bb,
{
    assert(-(aa * bb) <= a * b <= aa * bb) by (nonlinear_arith)
        requires
            -aa <= a <= aa,
            -bb <= b <= bb,
    ;
}

/// Negating either factor negates the product.
pub proof fn lemma_mul_neg(a: int, b: int)
    ensures
        a * (-b) == -(a * b),
        (-a) * b == -(a * b),
{
    assert(a * (-b) == -(a * b) && (-a) * b == -(a * b)) by (nonlinear_arith);
}

/// Multiplication distributes over a three-term sum.
pub proof fn lemma_sum_mul(p1: int, p2: int, p3: int, q: int)
    ensures
        p1 * q + p2 * q + p3 * q == (p1 + p2 + p3) * q,
        q * p1 + q * p2 + q * p3 == q * (p1 + p2 + p3),
{
    assert(p1 * q + p2 * q + p3 * q == (p1 + p2 + p3) * q && q * p1 + q * p2 + q * p3 == q * (p1
        + p2 + p3)) by (nonlinear_arith);
}

/// Fixed-point multiply, exact up to the final truncating rescale.
pub fn fx_mul(a: i64, b: i64) -> (r: i64)
    requires
        -(WORLD_LIM as int) * (DIST_LIM as int) <= (a as int) * (b as int) <= (WORLD_LIM as int)
            * (DIST_LIM as int),
    ensures
        r == fxmul(a as int, b as int),
        -(WORLD_LIM as int) * (DIST_LIM as int) <= r <= (WORLD_LIM as int) * (DIST_LIM as int),
{
    let p: i128 = (a as i128) * (b as i128);
    proof {
        lemma_tdiv_abs_le(p as int, SCALE as int, (WORLD_LIM as int) * (DIST_LIM as int));
        lemma_tdiv_bounds(p as int, SCALE as int);
    }
    let q: i128 = div_trunc_pos(p, SCALE as i128);
    q as i64
}

/// Fixed-point halving, truncated toward zero.
pub fn fx_half(a: i64) -> (r: i64)
    ensures
        r == tdiv(a as int, 2),
{
    proof {
        lemma_tdiv_bounds(a as int, 2);
    }
    let q: i128 = div_trunc_pos(a as i128, 2);
    q as i64
}

} // verus!
