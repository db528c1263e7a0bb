//! Fixed-point 3-vectors.

use vstd::prelude::*;
use crate::num::{tdiv, isqrt_spec, isqrt, lemma_isqrt_bounds, lemma_tdiv_abs_le, lemma_tdiv_bounds};
use crate::fixed::{SCALE, lemma_abs_mul_le};

verus! {

/// A world-space vector or point; each component is a fixed-point scalar.
#[derive(Clone, Copy, Debug, PartialEq, Eq, Structural)]
pub struct Vec3Fx {
    pub x: i64,
    pub y: i64,
    pub z: i64,
}

/// Every component within `[-m, m]`.
pub open spec fn bounded3(v: Vec3Fx, m: int) -> bool {
    &&& -m <= v.x <= m
    &&& -m <= v.y <= m
    &&& -m <= v.z <= m
}

/// A point or vector at the specification level, with unbounded integer
/// components; the mathematical model of a `Vec3Fx`.
pub struct Pt3 {
    pub x: int,
    pub y: int,
    pub z: int,
}

/// The model of a fixed-point vector.
pub open spec fn vpt(v: Vec3Fx) -> Pt3 {
    Pt3 { x: v.x as int, y: v.y as int, z: v.z as int }
}

/// Inner product of model points.
pub open spec fn pdot(a: Pt3, b: Pt3) -> int {
    a.x * b.x + a.y * b.y + a.z * b.z
}

/// Componentwise difference of model points.
pub open spec fn psub(a: Pt3, b: Pt3) -> Pt3 {
    Pt3 { x: a.x - b.x, y: a.y - b.y, z: a.z - b.z }
}

/// Componentwise sum of model points.
pub open spec fn padd(a: Pt3, b: Pt3) -> Pt3 {
    Pt3 { x: a.x + b.x, y: a.y + b.y, z: a.z + b.z }
}

/// Componentwise negation of a model point.
pub open spec fn pneg(p: Pt3) -> Pt3 {
    Pt3 { x: -p.x, y: -p.y, z: -p.z }
}

/// Every model component within `[-m, m]`.
pub open spec fn pbounded(p: Pt3, m: int) -> bool {
    &&& -m <= p.x <= m
    &&& -m <= p.y <= m
    &&& -m <= p.z <= m
}

/// The exact (unscaled) inner product of the raw components.
pub open spec fn dot3(a: Vec3Fx, b: Vec3Fx) -> int {
    pdot(vpt(a), vpt(b))
}

/// The squared raw length of the components `(x, y, z)`.
pub open spec fn norm2i(x: int, y: int, z: int) -> int {
    x * x + y * y + z * z
}

/// The raw length of the components `(x, y, z)`: a fixed-point scalar,
/// since the scale squares and then roots away.
pub open spec fn len3i(x: int, y: int, z: int) -> int {
    isqrt_spec(norm2i(x, y, z) as nat) as int
}

/// The raw length of a vector.
pub open spec fn len3(v: Vec3Fx) -> int {
    len3i(v.x as int, v.y as int, v.z as int)
}

/// The truncated normalisation of the components `(x, y, z)`: zero stays
/// zero, anything else is divided by its own length.
pub open spec fn normalize3i(x: int, y: int, z: int) -> (int, int, int) {
    let l: int = len3i(x, y, z);
    if l == 0 {
        (0, 0, 0)
    } else {
        (tdiv(x * (SCALE as int), l), tdiv(y * (SCALE as int), l), tdiv(z * (SCALE as int), l))
    }
}

/// The truncated normalisation of a vector.
pub open spec fn normalize3(v: Vec3Fx) -> (int, int, int) {
    normalize3i(v.x as int, v.y as int, v.z as int)
}

impl Vec3Fx {
    /// The all-zero vector.
    pub fn zero() -> (r: Vec3Fx)
        ensures
            r.x == 0 && r.y == 0 && r.z == 0,
    {
        Vec3Fx { x: 0, y: 0, z: 0 }
    }

    /// Componentwise sum.
    pub fn add(self, o: Vec3Fx) -> (r: Vec3Fx)
        requires
            i64::MIN <= self.x + o.x <= i64::MAX,
            i64::MIN <= self.y + o.y <= i64::MAX,
            i64::MIN <= self.z + o.z <= i64::MAX,
        ensures
            r.x == self.x + o.x,
            r.y == self.y + o.y,
            r.z == self.z + o.z,
    {
        Vec3Fx { x: self.x + o.x, y: self.y + o.y, z: self.z + o.z }
    }

    /// Componentwise difference.
    pub fn sub(self, o: Vec3Fx) -> (r: Vec3Fx)
        requires
            i64::MIN <= self.x - o.x <= i64::MAX,
            i64::MIN <= self.y - o.y <= i64::MAX,
            i64::MIN <= self.z - o.z <= i64::MAX,
        ensures
            r.x == self.x - o.x,
            r.y == self.y - o.y,
            r.z == self.z - o.z,
    {
        Vec3Fx { x: self.x - o.x, y: self.y - o.y, z: self.z - o.z }
    }

    /// Componentwise negation.
    pub fn neg(self) -> (r: Vec3Fx)
        requires
            self.x > i64::MIN,
            self.y > i64::MIN,
            self.z > i64::MIN,
        ensures
            r.x == -self.x,
            r.y == -self.y,
            r.z == -self.z,
    {
        Vec3Fx { x: -self.x, y: -self.y, z: -self.z }
    }
}

/// The exact cross product of model points, without rescaling: each
/// component is a raw-squared quantity.
pub open spec fn crossx(a: Pt3, b: Pt3) -> Pt3 {
    Pt3 {
        x: a.y * b.z - a.z * b.y,
        y: a.z * b.x - a.x * b.z,
        z: a.x * b.y - a.y * b.x,
    }
}

/// The fixed-point cross product: the exact cross, rescaled by one
/// truncating division per component.
pub open spec fn cross3(a: Pt3, b: Pt3) -> Pt3 {
    let c: Pt3 = crossx(a, b);
    Pt3 {
        x: tdiv(c.x, SCALE as int),
        y: tdiv(c.y, SCALE as int),
        z: tdiv(c.z, SCALE as int),
    }
}

/// Fixed-point cross product of two near-unit vectors.
pub fn cross(a: Vec3Fx, b: Vec3Fx) -> (r: Vec3Fx)
    requires
        bounded3(a, 2 * (SCALE as int)),
        bounded3(b, 2 * (SCALE as int)),
    ensures
        vpt(r) == cross3(vpt(a), vpt(b)),
        bounded3(r, 8 * (SCALE as int)),
{
    proof {
        lemma_abs_mul_le(a.y as int, b.z as int, 131072, 131072);
        lemma_abs_mul_le(a.z as int, b.y as int, 131072, 131072);
        lemma_abs_mul_le(a.z as int, b.x as int, 131072, 131072);
        lemma_abs_mul_le(a.x as int, b.z as int, 131072, 131072);
        lemma_abs_mul_le(a.x as int, b.y as int, 131072, 131072);
        lemma_abs_mul_le(a.y as int, b.x as int, 131072, 131072);
        lemma_tdiv_abs_le(
            (a.y as int) * (b.z as int) - (a.z as int) * (b.y as int),
            SCALE as int,
            34359738368,
        );
        lemma_tdiv_abs_le(
            (a.z as int) * (b.x as int) - (a.x as int) * (b.z as int),
            SCALE as int,
            34359738368,
        );
        lemma_tdiv_abs_le(
            (a.x as int) * (b.y as int) - (a.y as int) * (b.x as int),
            SCALE as int,
            34359738368,
        );
    }
    let nx: i128 = (a.y as i128) * (b.z as i128) - (a.z as i128) * (b.y as i128);
    let ny: i128 = (a.z as i128) * (b.x as i128) - (a.x as i128) * (b.z as i128);
    let nz: i128 = (a.x as i128) * (b.y as i128) - (a.y as i128) * (b.x as i128);
    let qx: i128 = crate::num::div_trunc_pos(nx, SCALE as i128);
    let qy: i128 = crate::num::div_trunc_pos(ny, SCALE as i128);
    let qz: i128 = crate::num::div_trunc_pos(nz, SCALE as i128);
    Vec3Fx { x: qx as i64, y: qy as i64, z: qz as i64 }
}

/// Exact inner product of the raw components, widened to `i128`.
pub fn dot_raw(a: Vec3Fx, b: Vec3Fx) -> (r: i128)
    requires
        bounded3(a, 0x1000_0000_0000_0000),
        bounded3(b, 0x1000_0000_0000_0000),
    ensures
        r == dot3(a, b),
{
    proof {
        lemma_abs_mul_le(a.x as int, b.x as int, 0x1000_0000_0000_0000, 0x1000_0000_0000_0000);
        lemma_abs_mul_le(a.y as int, b.y as int, 0x1000_0000_0000_0000, 0x1000_0000_0000_0000);
        lemma_abs_mul_le(a.z as int, b.z as int, 0x1000_0000_0000_0000, 0x1000_0000_0000_0000);
    }
    (a.x as i128) * (b.x as i128) + (a.y as i128) * (b.y as i128) + (a.z as i128) * (b.z as i128)
}

/// Raw length of a vector.
pub fn length_raw(v: Vec3Fx) -> (r: i64)
    requires
        bounded3(v, 0x1000_0000_0000_0000),
    ensures
        r == len3(v),
        0 <= r <= 0x2000_0000_0000_0000,
{
    proof {
        lemma_abs_mul_le(v.x as int, v.x as int, 0x1000_0000_0000_0000, 0x1000_0000_0000_0000);
        lemma_abs_mul_le(v.y as int, v.y as int, 0x1000_0000_0000_0000, 0x1000_0000_0000_0000);
        lemma_abs_mul_le(v.z as int, v.z as int, 0x1000_0000_0000_0000, 0x1000_0000_0000_0000);
        assert((v.x as int) * (v.x as int) >= 0) by (nonlinear_arith);
        assert((v.y as int) * (v.y as int) >= 0) by (nonlinear_arith);
        assert((v.z as int) * (v.z as int) >= 0) by (nonlinear_arith);
    }
    let xx: i128 = (v.x as i128) * (v.x as i128);
    let yy: i128 = (v.y as i128) * (v.y as i128);
    let zz: i128 = (v.z as i128) * (v.z as i128);
    let s: u128 = (xx + yy + zz) as u128;
    let r: u64 = isqrt(s);
    proof {
        assert((0x2000_0000_0000_0000 as int) * (0x2000_0000_0000_0000 as int) > s as int);
        assert(r <= 0x2000_0000_0000_0000) by (nonlinear_arith)
            requires
                (r as int) * (r as int) <= s as int,
                (0x2000_0000_0000_0000 as int) * (0x2000_0000_0000_0000 as int) > s as int,
                r >= 0,
        ;
    }
    r as i64
}

/// Componentwise bounds give a bound on the inner product.
pub proof fn lemma_dot3_bound(a: Vec3Fx, b: Vec3Fx, ma: int, mb: int)
    requires
        bounded3(a, ma),
        bounded3(b, mb),
    ensures
        -3 * (ma * mb) <= dot3(a, b) <= 3 * (ma * mb),
{
    lemma_abs_mul_le(a.x as int, b.x as int, ma, mb);
    lemma_abs_mul_le(a.y as int, b.y as int, ma, mb);
    lemma_abs_mul_le(a.z as int, b.z as int, ma, mb);
}

/// A component never exceeds the whole length.
pub proof fn lemma_component_le_len(v: Vec3Fx)
    ensures
        -len3(v) <= v.x <= len3(v),
        -len3(v) <= v.y <= len3(v),
        -len3(v) <= v.z <= len3(v),
{
    lemma_isqrt_bounds(norm2i(v.x as int, v.y as int, v.z as int) as nat);
    let l: int = len3(v);
    assert(-l <= v.x <= l && -l <= v.y <= l && -l <= v.z <= l) by (nonlinear_arith)
        requires
            l >= 0,
            norm2i(v.x as int, v.y as int, v.z as int) < (l + 1) * (l + 1),
            norm2i(v.x as int, v.y as int, v.z as int) == (v.x as int) * (v.x as int) + (v.y as int) * (v.y as int) + (v.z as int)
                * (v.z as int),
    ;
}

/// Truncated normalisation; the zero vector stays zero. Every component of
/// the result is within `SCALE`, one raw unit of a unit vector.
pub fn normalize(v: Vec3Fx) -> (r: Vec3Fx)
    requires
        bounded3(v, 0x1000_0000_0000_0000),
    ensures
        (r.x as int, r.y as int, r.z as int) == normalize3(v),
        bounded3(r, SCALE as int),
{
    let l: i64 = length_raw(v);
    if l == 0 {
        Vec3Fx { x: 0, y: 0, z: 0 }
    } else {
        proof {
            lemma_component_le_len(v);
            lemma_abs_mul_le(v.x as int, SCALE as int, len3(v), SCALE as int);
            lemma_abs_mul_le(v.y as int, SCALE as int, len3(v), SCALE as int);
            lemma_abs_mul_le(v.z as int, SCALE as int, len3(v), SCALE as int);
            lemma_tdiv_abs_le((v.x as int) * (SCALE as int), len3(v), len3(v) * (SCALE as int));
            lemma_tdiv_abs_le((v.y as int) * (SCALE as int), len3(v), len3(v) * (SCALE as int));
            lemma_tdiv_abs_le((v.z as int) * (SCALE as int), len3(v), len3(v) * (SCALE as int));
            assert(len3(v) * (SCALE as int) / len3(v) == SCALE as int) by (nonlinear_arith)
                requires
                    len3(v) > 0,
            ;
        }
        let nx: i128 = crate::num::div_trunc_pos((v.x as i128) * (SCALE as i128), l as i128);
        let ny: i128 = crate::num::div_trunc_pos((v.y as i128) * (SCALE as i128), l as i128);
        let nz: i128 = crate::num::div_trunc_pos((v.z as i128) * (SCALE as i128), l as i128);
        Vec3Fx { x: nx as i64, y: ny as i64, z: nz as i64 }
    }
}

} // verus!
