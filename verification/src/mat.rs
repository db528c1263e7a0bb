//! Fixed-point matrices: 3x3 rotation-style matrices stored as columns, and
//! 4x4 homogeneous matrices for clip-space projection and unprojection.

use vstd::prelude::*;
use crate::num::{tdiv, sdiv, div_trunc, div_trunc_pos, lemma_tdiv_abs_le};
use crate::vec3::{Vec3Fx, bounded3, Pt3, vpt, pbounded};
use crate::fixed::{SCALE, UNIT_LIM, WORLD_LIM, DIST_LIM, lemma_abs_mul_le};

verus! {

/// Largest raw vector component accepted by `mat3_apply`.
pub const MAT3_V_LIM: i64 = 4398046511104;

/// Largest raw point component accepted by `mat4_apply_point`.
pub const MAT4_P_LIM: i64 = 17592186044416;

/// A 3x3 matrix of fixed-point entries, stored as its three columns. Used
/// for rotations, whose entries stay within `UNIT_LIM`.
#[derive(Clone, Copy, Debug, PartialEq, Eq, Structural)]
pub struct Mat3Fx {
    pub cx: Vec3Fx,
    pub cy: Vec3Fx,
    pub cz: Vec3Fx,
}

/// All nine entries within `[-m, m]`.
pub open spec fn mat3_bounded(m: Mat3Fx, b: int) -> bool {
    &&& bounded3(m.cx, b)
    &&& bounded3(m.cy, b)
    &&& bounded3(m.cz, b)
}

/// Raw x row of `m * v`, before rescaling.
pub open spec fn mat3_row_x(m: Mat3Fx, v: Vec3Fx) -> int {
    (m.cx.x as int) * (v.x as int) + (m.cy.x as int) * (v.y as int) + (m.cz.x as int) * (
    v.z as int)
}

/// Raw y row of `m * v`, before rescaling.
pub open spec fn mat3_row_y(m: Mat3Fx, v: Vec3Fx) -> int {
    (m.cx.y as int) * (v.x as int) + (m.cy.y as int) * (v.y as int) + (m.cz.y as int) * (
    v.z as int)
}

/// Raw z row of `m * v`, before rescaling.
pub open spec fn mat3_row_z(m: Mat3Fx, v: Vec3Fx) -> int {
    (m.cx.z as int) * (v.x as int) + (m.cy.z as int) * (v.y as int) + (m.cz.z as int) * (
    v.z as int)
}

impl Mat3Fx {
    /// The transpose; for a rotation matrix this is its inverse.
    pub fn transpose(self) -> (r: Mat3Fx)
        ensures
            r.cx.x == self.cx.x && r.cx.y == self.cy.x && r.cx.z == self.cz.x,
            r.cy.x == self.cx.y && r.cy.y == self.cy.y && r.cy.z == self.cz.y,
            r.cz.x == self.cx.z && r.cz.y == self.cy.z && r.cz.z == self.cz.z,
    {
        Mat3Fx {
            cx: Vec3Fx { x: self.cx.x, y: self.cy.x, z: self.cz.x },
            cy: Vec3Fx { x: self.cx.y, y: self.cy.y, z: self.cz.y },
            cz: Vec3Fx { x: self.cx.z, y: self.cy.z, z: self.cz.z },
        }
    }
}

/// `m * v` for a rotation-style matrix: each row's exact inner product,
/// rescaled by one truncating division.
pub fn mat3_apply(m: Mat3Fx, v: Vec3Fx) -> (r: Vec3Fx)
    requires
        mat3_bounded(m, UNIT_LIM as int),
        bounded3(v, MAT3_V_LIM as int),
    ensures
        r.x == tdiv(mat3_row_x(m, v), SCALE as int),
        r.y == tdiv(mat3_row_y(m, v), SCALE as int),
        r.z == tdiv(mat3_row_z(m, v), SCALE as int),
        bounded3(r, 3 * (MAT3_V_LIM as int)),
{
    proof {
        lemma_abs_mul_le(m.cx.x as int, v.x as int, UNIT_LIM as int, MAT3_V_LIM as int);
        lemma_abs_mul_le(m.cy.x as int, v.y as int, UNIT_LIM as int, MAT3_V_LIM as int);
        lemma_abs_mul_le(m.cz.x as int, v.z as int, UNIT_LIM as int, MAT3_V_LIM as int);
        lemma_abs_mul_le(m.cx.y as int, v.x as int, UNIT_LIM as int, MAT3_V_LIM as int);
        lemma_abs_mul_le(m.cy.y as int, v.y as int, UNIT_LIM as int, MAT3_V_LIM as int);
        lemma_abs_mul_le(m.cz.y as int, v.z as int, UNIT_LIM as int, MAT3_V_LIM as int);
        lemma_abs_mul_le(m.cx.z as int, v.x as int, UNIT_LIM as int, MAT3_V_LIM as int);
        lemma_abs_mul_le(m.cy.z as int, v.y as int, UNIT_LIM as int, MAT3_V_LIM as int);
        lemma_abs_mul_le(m.cz.z as int, v.z as int, UNIT_LIM as int, MAT3_V_LIM as int);
        lemma_tdiv_abs_le(mat3_row_x(m, v), SCALE as int, 3 * ((UNIT_LIM as int) * (
        MAT3_V_LIM as int)));
        lemma_tdiv_abs_le(mat3_row_y(m, v), SCALE as int, 3 * ((UNIT_LIM as int) * (
        MAT3_V_LIM as int)));
        lemma_tdiv_abs_le(mat3_row_z(m, v), SCALE as int, 3 * ((UNIT_LIM as int) * (
        MAT3_V_LIM as int)));
    }
    let rx: i128 = (m.cx.x as i128) * (v.x as i128) + (m.cy.x as i128) * (v.y as i128) + (
    m.cz.x as i128) * (v.z as i128);
    let ry: i128 = (m.cx.y as i128) * (v.x as i128) + (m.cy.y as i128) * (v.y as i128) + (
    m.cz.y as i128) * (v.z as i128);
    let rz: i128 = (m.cx.z as i128) * (v.x as i128) + (m.cy.z as i128) * (v.y as i128) + (
    m.cz.z as i128) * (v.z as i128);
    let qx: i128 = div_trunc_pos(rx, SCALE as i128);
    let qy: i128 = div_trunc_pos(ry, SCALE as i128);
    let qz: i128 = div_trunc_pos(rz, SCALE as i128);
    Vec3Fx { x: qx as i64, y: qy as i64, z: qz as i64 }
}

/// One column of a homogeneous 4x4 matrix.
#[derive(Clone, Copy, Debug, PartialEq, Eq, Structural)]
pub struct Vec4Fx {
    pub x: i64,
    pub y: i64,
    pub z: i64,
    pub w: i64,
}

/// Every component within `[-m, m]`.
pub open spec fn bounded4(v: Vec4Fx, m: int) -> bool {
    &&& -m <= v.x <= m
    &&& -m <= v.y <= m
    &&& -m <= v.z <= m
    &&& -m <= v.w <= m
}

/// A homogeneous 4x4 matrix stored as its four columns, such as a
/// view-projection matrix or its inverse.
#[derive(Clone, Copy, Debug, PartialEq, Eq, Structural)]
pub struct Mat4Fx {
    pub c0: Vec4Fx,
    pub c1: Vec4Fx,
    pub c2: Vec4Fx,
    pub c3: Vec4Fx,
}

/// All sixteen entries within `[-m, m]`.
pub open spec fn mat4_bounded(m: Mat4Fx, b: int) -> bool {
    &&& bounded4(m.c0, b)
    &&& bounded4(m.c1, b)
    &&& bounded4(m.c2, b)
    &&& bounded4(m.c3, b)
}

/// Raw x row of `m * (p, 1)` for a model point.
pub open spec fn mat4_num_x_i(m: Mat4Fx, p: Pt3) -> int {
    (m.c0.x as int) * p.x + (m.c1.x as int) * p.y + (m.c2.x as int) * p.z + (m.c3.x as int) * (
    SCALE as int)
}

/// Raw y row of `m * (p, 1)` for a model point.
pub open spec fn mat4_num_y_i(m: Mat4Fx, p: Pt3) -> int {
    (m.c0.y as int) * p.x + (m.c1.y as int) * p.y + (m.c2.y as int) * p.z + (m.c3.y as int) * (
    SCALE as int)
}

/// Raw z row of `m * (p, 1)` for a model point.
pub open spec fn mat4_num_z_i(m: Mat4Fx, p: Pt3) -> int {
    (m.c0.z as int) * p.x + (m.c1.z as int) * p.y + (m.c2.z as int) * p.z + (m.c3.z as int) * (
    SCALE as int)
}

/// Raw w row of `m * (p, 1)` for a model point: the homogeneous divisor.
pub open spec fn mat4_w_i(m: Mat4Fx, p: Pt3) -> int {
    (m.c0.w as int) * p.x + (m.c1.w as int) * p.y + (m.c2.w as int) * p.z + (m.c3.w as int) * (
    SCALE as int)
}

/// The projected model point after the perspective divide.
pub open spec fn mat4_out_i(m: Mat4Fx, p: Pt3) -> Pt3 {
    Pt3 {
        x: sdiv(mat4_num_x_i(m, p) * (SCALE as int), mat4_w_i(m, p)),
        y: sdiv(mat4_num_y_i(m, p) * (SCALE as int), mat4_w_i(m, p)),
        z: sdiv(mat4_num_z_i(m, p) * (SCALE as int), mat4_w_i(m, p)),
    }
}

/// The projected model point exists (nonzero divisor) and is representable.
pub open spec fn mat4_ok_i(m: Mat4Fx, p: Pt3) -> bool {
    &&& mat4_w_i(m, p) != 0
    &&& pbounded(mat4_out_i(m, p), DIST_LIM as int)
}

/// Raw w row of `m * (p, 1)`: the homogeneous divisor.
pub open spec fn mat4_w(m: Mat4Fx, p: Vec3Fx) -> int {
    mat4_w_i(m, vpt(p))
}

/// The x component after the perspective divide.
pub open spec fn mat4_out_x(m: Mat4Fx, p: Vec3Fx) -> int {
    mat4_out_i(m, vpt(p)).x
}

/// The y component after the perspective divide.
pub open spec fn mat4_out_y(m: Mat4Fx, p: Vec3Fx) -> int {
    mat4_out_i(m, vpt(p)).y
}

/// The z component after the perspective divide.
pub open spec fn mat4_out_z(m: Mat4Fx, p: Vec3Fx) -> int {
    mat4_out_i(m, vpt(p)).z
}

/// The projected point exists (nonzero divisor) and is representable.
pub open spec fn mat4_ok(m: Mat4Fx, p: Vec3Fx) -> bool {
    mat4_ok_i(m, vpt(p))
}

/// Apply a homogeneous matrix to a point and divide through by `w`.
///
/// `None` stands for a point at or beyond the horizon of the projection
/// (`w` zero) or outside the representable range; callers treat both as a
/// missing projection.
pub fn mat4_apply_point(m: Mat4Fx, p: Vec3Fx) -> (r: Option<Vec3Fx>)
    requires
        mat4_bounded(m, WORLD_LIM as int),
        bounded3(p, MAT4_P_LIM as int),
    ensures
        r is Some <==> mat4_ok(m, p),
        r matches Some(q) ==> {
            &&& q.x == mat4_out_x(m, p)
            &&& q.y == mat4_out_y(m, p)
            &&& q.z == mat4_out_z(m, p)
            &&& bounded3(q, DIST_LIM as int)
        },
{
    proof {
        lemma_abs_mul_le(m.c0.x as int, p.x as int, WORLD_LIM as int, MAT4_P_LIM as int);
        lemma_abs_mul_le(m.c1.x as int, p.y as int, WORLD_LIM as int, MAT4_P_LIM as int);
        lemma_abs_mul_le(m.c2.x as int, p.z as int, WORLD_LIM as int, MAT4_P_LIM as int);
        lemma_abs_mul_le(m.c0.y as int, p.x as int, WORLD_LIM as int, MAT4_P_LIM as int);
        lemma_abs_mul_le(m.c1.y as int, p.y as int, WORLD_LIM as int, MAT4_P_LIM as int);
        lemma_abs_mul_le(m.c2.y as int, p.z as int, WORLD_LIM as int, MAT4_P_LIM as int);
        lemma_abs_mul_le(m.c0.z as int, p.x as int, WORLD_LIM as int, MAT4_P_LIM as int);
        lemma_abs_mul_le(m.c1.z as int, p.y as int, WORLD_LIM as int, MAT4_P_LIM as int);
        lemma_abs_mul_le(m.c2.z as int, p.z as int, WORLD_LIM as int, MAT4_P_LIM as int);
        lemma_abs_mul_le(m.c0.w as int, p.x as int, WORLD_LIM as int, MAT4_P_LIM as int);
        lemma_abs_mul_le(m.c1.w as int, p.y as int, WORLD_LIM as int, MAT4_P_LIM as int);
        lemma_abs_mul_le(m.c2.w as int, p.z as int, WORLD_LIM as int, MAT4_P_LIM as int);
        lemma_abs_mul_le(m.c3.x as int, SCALE as int, WORLD_LIM as int, SCALE as int);
        lemma_abs_mul_le(m.c3.y as int, SCALE as int, WORLD_LIM as int, SCALE as int);
        lemma_abs_mul_le(m.c3.z as int, SCALE as int, WORLD_LIM as int, SCALE as int);
        lemma_abs_mul_le(m.c3.w as int, SCALE as int, WORLD_LIM as int, SCALE as int);
    }
    let nx: i128 = (m.c0.x as i128) * (p.x as i128) + (m.c1.x as i128) * (p.y as i128) + (
    m.c2.x as i128) * (p.z as i128) + (m.c3.x as i128) * (SCALE as i128);
    let ny: i128 = (m.c0.y as i128) * (p.x as i128) + (m.c1.y as i128) * (p.y as i128) + (
    m.c2.y as i128) * (p.z as i128) + (m.c3.y as i128) * (SCALE as i128);
    let nz: i128 = (m.c0.z as i128) * (p.x as i128) + (m.c1.z as i128) * (p.y as i128) + (
    m.c2.z as i128) * (p.z as i128) + (m.c3.z as i128) * (SCALE as i128);
    let nw: i128 = (m.c0.w as i128) * (p.x as i128) + (m.c1.w as i128) * (p.y as i128) + (
    m.c2.w as i128) * (p.z as i128) + (m.c3.w as i128) * (SCALE as i128);
    if nw == 0 {
        return None;
    }
    proof {
        lemma_abs_mul_le(
            nx as int,
            SCALE as int,
            4 * ((WORLD_LIM as int) * (MAT4_P_LIM as int)),
            SCALE as int,
        );
        lemma_abs_mul_le(
            ny as int,
            SCALE as int,
            4 * ((WORLD_LIM as int) * (MAT4_P_LIM as int)),
            SCALE as int,
        );
        lemma_abs_mul_le(
            nz as int,
            SCALE as int,
            4 * ((WORLD_LIM as int) * (MAT4_P_LIM as int)),
            SCALE as int,
        );
    }
    let ox: i128 = div_trunc(nx * (SCALE as i128), nw);
    let oy: i128 = div_trunc(ny * (SCALE as i128), nw);
    let oz: i128 = div_trunc(nz * (SCALE as i128), nw);
    if ox > DIST_LIM as i128 || ox < -(DIST_LIM as i128) || oy > DIST_LIM as i128 || oy < -(
    DIST_LIM as i128) || oz > DIST_LIM as i128 || oz < -(DIST_LIM as i128) {
        return None;
    }
    Some(Vec3Fx { x: ox as i64, y: oy as i64, z: oz as i64 })
}

} // verus!
