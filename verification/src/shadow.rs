//! Fitting an orthographic shadow camera over the frustum / plane
//! intersection.
//!
//! The orthographic box exactly bounds the visible ground quadrilateral, so
//! shadow-map resolution stays proportional to the on-screen grid extent.
//! The camera pose sits high above the quadrilateral's centre along the
//! plane normal and looks back down at it; the collapse matrix maps world
//! positions into the shadow texture's two-dimensional coordinate frame.

use vstd::prelude::*;
use crate::num::{tdiv, sdiv, div_trunc, lemma_tdiv_abs_le};
use crate::vec3::{Vec3Fx, bounded3, normalize, length_raw, cross, cross3, crossx, normalize3i,
    len3i, Pt3, vpt, pdot, psub, pneg, pbounded};
use crate::mat::Mat3Fx;
use crate::fixed::{SCALE, DIST_LIM, fxmul, fx_mul, fx_half, lemma_abs_mul_le};
use crate::grid::{GridPlane, grid_wf};
use crate::frustum::{FrustumIntersection, intersection_wf};

verus! {

/// Height of the shadow camera above the quadrilateral's centre, in raw
/// units: five hundred world units, outside all expected scene geometry.
pub const FAR_OFFSET: i64 = 32768000;

/// A symmetric orthographic viewing box.
#[derive(Clone, Copy, Debug, PartialEq, Eq, Structural)]
pub struct OrthoBounds {
    pub left: i64,
    pub right: i64,
    pub bottom: i64,
    pub top: i64,
}

/// The shadow camera's placement: a position and an orthonormal-by-intent
/// basis, columns `[right, up, back]`.
#[derive(Clone, Copy, Debug, PartialEq, Eq, Structural)]
pub struct ShadowPose {
    pub position: Vec3Fx,
    pub right: Vec3Fx,
    pub up: Vec3Fx,
    pub back: Vec3Fx,
}

/// Everything the external shadow render pass needs for one grid instance.
#[derive(Clone, Copy, Debug, PartialEq, Eq, Structural)]
pub struct ShadowCamera {
    pub bounds: OrthoBounds,
    pub pose: ShadowPose,
    /// Inverse of the basis `[n x (-u), n, -u]`: maps world positions into
    /// the shadow texture's plane-local frame.
    pub collapse: Mat3Fx,
}

/// The camera position: the quadrilateral's centre pushed up along the
/// plane normal by `FAR_OFFSET`.
pub open spec fn shadow_position(fi: FrustumIntersection, g: GridPlane) -> Pt3 {
    let up = vpt(g.pose.rotation.cy);
    let c = vpt(fi.center);
    Pt3 {
        x: c.x + fxmul(up.x, FAR_OFFSET as int),
        y: c.y + fxmul(up.y, FAR_OFFSET as int),
        z: c.z + fxmul(up.z, FAR_OFFSET as int),
    }
}

/// The pose's back column: from the centre toward the camera.
pub open spec fn shadow_back(fi: FrustumIntersection, g: GridPlane) -> Pt3 {
    let o = psub(shadow_position(fi, g), vpt(fi.center));
    let t = normalize3i(o.x, o.y, o.z);
    Pt3 { x: t.0, y: t.1, z: t.2 }
}

/// The unnormalised right column: the intersection's up direction crossed
/// with the back column.
pub open spec fn shadow_right_raw(fi: FrustumIntersection, g: GridPlane) -> Pt3 {
    cross3(vpt(fi.up_dir), shadow_back(fi, g))
}

/// The pose's right column.
pub open spec fn shadow_right(fi: FrustumIntersection, g: GridPlane) -> Pt3 {
    let r = shadow_right_raw(fi, g);
    let t = normalize3i(r.x, r.y, r.z);
    Pt3 { x: t.0, y: t.1, z: t.2 }
}

/// The pose's up column, completing the basis.
pub open spec fn shadow_up(fi: FrustumIntersection, g: GridPlane) -> Pt3 {
    cross3(shadow_back(fi, g), shadow_right(fi, g))
}

/// First column of the collapse basis: `n x (-u)`.
pub open spec fn collapse_c0(fi: FrustumIntersection, g: GridPlane) -> Pt3 {
    cross3(vpt(g.pose.rotation.cy), pneg(vpt(fi.up_dir)))
}

/// Second column of the collapse basis: the plane normal `n`.
pub open spec fn collapse_c1(fi: FrustumIntersection, g: GridPlane) -> Pt3 {
    vpt(g.pose.rotation.cy)
}

/// Third column of the collapse basis: `-u`.
pub open spec fn collapse_c2(fi: FrustumIntersection, g: GridPlane) -> Pt3 {
    pneg(vpt(fi.up_dir))
}

/// Raw determinant of the collapse basis (a raw-cubed quantity).
pub open spec fn collapse_det(fi: FrustumIntersection, g: GridPlane) -> int {
    pdot(collapse_c0(fi, g), crossx(collapse_c1(fi, g), collapse_c2(fi, g)))
}

/// One entry of the inverted basis: an adjugate entry over the
/// determinant, rescaled into fixed point.
pub open spec fn collapse_entry(num: int, det: int) -> int
    recommends
        det != 0,
{
    sdiv(num * (SCALE as int) * (SCALE as int), det)
}

/// The three adjugate rows of the collapse basis: the pairwise cross
/// products of its columns.
pub open spec fn collapse_adj_row0(fi: FrustumIntersection, g: GridPlane) -> Pt3 {
    crossx(collapse_c1(fi, g), collapse_c2(fi, g))
}

/// Second adjugate row.
pub open spec fn collapse_adj_row1(fi: FrustumIntersection, g: GridPlane) -> Pt3 {
    crossx(collapse_c2(fi, g), collapse_c0(fi, g))
}

/// Third adjugate row.
pub open spec fn collapse_adj_row2(fi: FrustumIntersection, g: GridPlane) -> Pt3 {
    crossx(collapse_c0(fi, g), collapse_c1(fi, g))
}

/// The inverted collapse basis, column by column.
pub open spec fn collapse_inv_cx(fi: FrustumIntersection, g: GridPlane) -> Pt3 {
    let det = collapse_det(fi, g);
    Pt3 {
        x: collapse_entry(collapse_adj_row0(fi, g).x, det),
        y: collapse_entry(collapse_adj_row1(fi, g).x, det),
        z: collapse_entry(collapse_adj_row2(fi, g).x, det),
    }
}

/// Middle column of the inverted collapse basis.
pub open spec fn collapse_inv_cy(fi: FrustumIntersection, g: GridPlane) -> Pt3 {
    let det = collapse_det(fi, g);
    Pt3 {
        x: collapse_entry(collapse_adj_row0(fi, g).y, det),
        y: collapse_entry(collapse_adj_row1(fi, g).y, det),
        z: collapse_entry(collapse_adj_row2(fi, g).y, det),
    }
}

/// Last column of the inverted collapse basis.
pub open spec fn collapse_inv_cz(fi: FrustumIntersection, g: GridPlane) -> Pt3 {
    let det = collapse_det(fi, g);
    Pt3 {
        x: collapse_entry(collapse_adj_row0(fi, g).z, det),
        y: collapse_entry(collapse_adj_row1(fi, g).z, det),
        z: collapse_entry(collapse_adj_row2(fi, g).z, det),
    }
}

/// The collapse basis inverts within range.
pub open spec fn collapse_ok(fi: FrustumIntersection, g: GridPlane) -> bool {
    &&& collapse_det(fi, g) != 0
    &&& pbounded(collapse_inv_cx(fi, g), DIST_LIM as int)
    &&& pbounded(collapse_inv_cy(fi, g), DIST_LIM as int)
    &&& pbounded(collapse_inv_cz(fi, g), DIST_LIM as int)
}

/// The whole fit succeeds: the look-at basis is non-degenerate and the
/// collapse basis inverts.
pub open spec fn shadow_ok(fi: FrustumIntersection, g: GridPlane) -> bool {
    &&& len3i(
        shadow_right_raw(fi, g).x,
        shadow_right_raw(fi, g).y,
        shadow_right_raw(fi, g).z,
    ) != 0
    &&& collapse_ok(fi, g)
}

/// Scalar triple product identities: cyclic invariance, and a vector is
/// orthogonal to any cross product it takes part in.
proof fn lemma_expand_triple(a: Pt3, b: Pt3, c: Pt3)
    ensures
        pdot(a, crossx(b, c)) == a.x * (b.y * c.z) - a.x * (b.z * c.y) + a.y * (b.z * c.x) - a.y
            * (b.x * c.z) + a.z * (b.x * c.y) - a.z * (b.y * c.x),
{
    assert(a.x * (b.y * c.z - b.z * c.y) == a.x * (b.y * c.z) - a.x * (b.z * c.y))
        by (nonlinear_arith);
    assert(a.y * (b.z * c.x - b.x * c.z) == a.y * (b.z * c.x) - a.y * (b.x * c.z))
        by (nonlinear_arith);
    assert(a.z * (b.x * c.y - b.y * c.x) == a.z * (b.x * c.y) - a.z * (b.y * c.x))
        by (nonlinear_arith);
}

proof fn lemma_monomial_rotate(p: int, q: int, r: int)
    ensures
        p * (q * r) == q * (r * p),
{
    assert(p * (q * r) == q * (r * p)) by (nonlinear_arith);
}

proof fn lemma_triple_product(a: Pt3, b: Pt3, c: Pt3)
    ensures
        pdot(a, crossx(b, c)) == pdot(b, crossx(c, a)),
        pdot(b, crossx(b, c)) == 0,
        pdot(c, crossx(b, c)) == 0,
{
    let (a1, a2, a3) = (a.x, a.y, a.z);
    let (b1, b2, b3) = (b.x, b.y, b.z);
    let (c1, c2, c3) = (c.x, c.y, c.z);
    lemma_expand_triple(a, b, c);
    lemma_expand_triple(b, c, a);
    lemma_monomial_rotate(a1, b2, c3);
    lemma_monomial_rotate(a1, b3, c2);
    lemma_monomial_rotate(a2, b3, c1);
    lemma_monomial_rotate(a2, b1, c3);
    lemma_monomial_rotate(a3, b1, c2);
    lemma_monomial_rotate(a3, b2, c1);
    lemma_expand_triple(b, b, c);
    assert(b1 * (b2 * c3) == b2 * (b1 * c3)) by (nonlinear_arith);
    assert(b1 * (b3 * c2) == b3 * (b1 * c2)) by (nonlinear_arith);
    assert(b2 * (b3 * c1) == b3 * (b2 * c1)) by (nonlinear_arith);
    lemma_expand_triple(c, b, c);
    assert(c1 * (b2 * c3) == c3 * (b2 * c1)) by (nonlinear_arith);
    assert(c1 * (b3 * c2) == c2 * (b3 * c1)) by (nonlinear_arith);
    assert(c2 * (b1 * c3) == c3 * (b1 * c2)) by (nonlinear_arith);
}

/// The inner product does not mind its argument order.
proof fn lemma_pdot_comm(a: Pt3, b: Pt3)
    ensures
        pdot(a, b) == pdot(b, a),
{
    assert(a.x * b.x + a.y * b.y + a.z * b.z == b.x * a.x + b.y * a.y + b.z * a.z)
        by (nonlinear_arith);
}

/// COLLAPSE INVERSE EXACTNESS. Before the final fixed-point rescaling,
/// the adjugate rows of the collapse basis invert it exactly: each row
/// dotted with its own basis column gives the determinant, and with any
/// other column gives zero — `adj * M == det * I`.
pub proof fn lemma_collapse_adjugate(fi: FrustumIntersection, g: GridPlane)
    ensures
        pdot(collapse_adj_row0(fi, g), collapse_c0(fi, g)) == collapse_det(fi, g),
        pdot(collapse_adj_row0(fi, g), collapse_c1(fi, g)) == 0,
        pdot(collapse_adj_row0(fi, g), collapse_c2(fi, g)) == 0,
        pdot(collapse_adj_row1(fi, g), collapse_c0(fi, g)) == 0,
        pdot(collapse_adj_row1(fi, g), collapse_c1(fi, g)) == collapse_det(fi, g),
        pdot(collapse_adj_row1(fi, g), collapse_c2(fi, g)) == 0,
        pdot(collapse_adj_row2(fi, g), collapse_c0(fi, g)) == 0,
        pdot(collapse_adj_row2(fi, g), collapse_c1(fi, g)) == 0,
        pdot(collapse_adj_row2(fi, g), collapse_c2(fi, g)) == collapse_det(fi, g),
{
    let c0 = collapse_c0(fi, g);
    let c1 = collapse_c1(fi, g);
    let c2 = collapse_c2(fi, g);
    lemma_triple_product(c0, c1, c2);
    lemma_triple_product(c1, c2, c0);
    lemma_triple_product(c2, c0, c1);
    lemma_pdot_comm(crossx(c1, c2), c0);
    lemma_pdot_comm(crossx(c1, c2), c1);
    lemma_pdot_comm(crossx(c1, c2), c2);
    lemma_pdot_comm(crossx(c2, c0), c0);
    lemma_pdot_comm(crossx(c2, c0), c1);
    lemma_pdot_comm(crossx(c2, c0), c2);
    lemma_pdot_comm(crossx(c0, c1), c0);
    lemma_pdot_comm(crossx(c0, c1), c1);
    lemma_pdot_comm(crossx(c0, c1), c2);
}

/// The record a successful fit carries: every field pinned to its model
/// value; the orthographic half-extents are exactly half the
/// intersection's width and height.
pub open spec fn shadow_matches(fi: FrustumIntersection, g: GridPlane, sc: ShadowCamera) -> bool {
    &&& sc.bounds.right == tdiv(fi.width as int, 2)
    &&& sc.bounds.left == -tdiv(fi.width as int, 2)
    &&& sc.bounds.top == tdiv(fi.height as int, 2)
    &&& sc.bounds.bottom == -tdiv(fi.height as int, 2)
    &&& vpt(sc.pose.position) == shadow_position(fi, g)
    &&& vpt(sc.pose.back) == shadow_back(fi, g)
    &&& vpt(sc.pose.right) == shadow_right(fi, g)
    &&& vpt(sc.pose.up) == shadow_up(fi, g)
    &&& vpt(sc.collapse.cx) == collapse_inv_cx(fi, g)
    &&& vpt(sc.collapse.cy) == collapse_inv_cy(fi, g)
    &&& vpt(sc.collapse.cz) == collapse_inv_cz(fi, g)
}

/// Divide one adjugate entry by the determinant, rescaling into fixed
/// point.
fn collapse_div(num: i128, det: i128) -> (r: i128)
    requires
        -68719476736 <= num <= 68719476736,
        det != 0,
    ensures
        r == collapse_entry(num as int, det as int),
{
    proof {
        lemma_abs_mul_le(num as int, SCALE as int, 68719476736, 65536);
        lemma_abs_mul_le((num as int) * (SCALE as int), SCALE as int, 4503599627370496, 65536);
    }
    div_trunc(num * (SCALE as i128) * (SCALE as i128), det)
}

/// Build the shadow pass camera for one intersection.
///
/// The orthographic half-extents equal exactly half the intersection's
/// width and height: the box is the tightest symmetric fit. A camera
/// looking straight down the quadrilateral's up direction makes the
/// look-at or the collapse basis degenerate; such a frame is skipped
/// (`None`) rather than propagated as a numerical fault.
pub fn build_shadow_camera(fi: FrustumIntersection, grid: GridPlane) -> (r: Option<ShadowCamera>)
    requires
        intersection_wf(fi),
        grid_wf(grid),
    ensures
        r is Some <==> shadow_ok(fi, grid),
        r matches Some(sc) ==> shadow_matches(fi, grid, sc),
{
    let n: Vec3Fx = grid.pose.rotation.cy;
    proof {
        lemma_abs_mul_le(n.x as int, FAR_OFFSET as int, 65536, 32768000);
        lemma_abs_mul_le(n.y as int, FAR_OFFSET as int, 65536, 32768000);
        lemma_abs_mul_le(n.z as int, FAR_OFFSET as int, 65536, 32768000);
        lemma_tdiv_abs_le((n.x as int) * (FAR_OFFSET as int), SCALE as int, 2147483648000000);
        lemma_tdiv_abs_le((n.y as int) * (FAR_OFFSET as int), SCALE as int, 2147483648000000);
        lemma_tdiv_abs_le((n.z as int) * (FAR_OFFSET as int), SCALE as int, 2147483648000000);
    }
    let off: Vec3Fx = Vec3Fx {
        x: fx_mul(n.x, FAR_OFFSET),
        y: fx_mul(n.y, FAR_OFFSET),
        z: fx_mul(n.z, FAR_OFFSET),
    };
    let position: Vec3Fx = fi.center.add(off);
    let od: Vec3Fx = position.sub(fi.center);
    let back: Vec3Fx = normalize(od);
    let right_raw: Vec3Fx = cross(fi.up_dir, back);
    let lr: i64 = length_raw(right_raw);
    if lr == 0 {
        return None;
    }
    let right: Vec3Fx = normalize(right_raw);
    let up2: Vec3Fx = cross(back, right);
    // Collapse basis and its inverse through the adjugate.
    let negu: Vec3Fx = fi.up_dir.neg();
    let b0: Vec3Fx = cross(n, negu);
    proof {
        lemma_abs_mul_le(n.x as int, negu.y as int, 65536, 65536);
        lemma_abs_mul_le(n.x as int, negu.z as int, 65536, 65536);
        lemma_abs_mul_le(n.y as int, negu.x as int, 65536, 65536);
        lemma_abs_mul_le(n.y as int, negu.z as int, 65536, 65536);
        lemma_abs_mul_le(n.z as int, negu.x as int, 65536, 65536);
        lemma_abs_mul_le(n.z as int, negu.y as int, 65536, 65536);
        lemma_abs_mul_le(negu.x as int, b0.y as int, 65536, 524288);
        lemma_abs_mul_le(negu.x as int, b0.z as int, 65536, 524288);
        lemma_abs_mul_le(negu.y as int, b0.x as int, 65536, 524288);
        lemma_abs_mul_le(negu.y as int, b0.z as int, 65536, 524288);
        lemma_abs_mul_le(negu.z as int, b0.x as int, 65536, 524288);
        lemma_abs_mul_le(negu.z as int, b0.y as int, 65536, 524288);
        lemma_abs_mul_le(b0.x as int, n.y as int, 524288, 65536);
        lemma_abs_mul_le(b0.x as int, n.z as int, 524288, 65536);
        lemma_abs_mul_le(b0.y as int, n.x as int, 524288, 65536);
        lemma_abs_mul_le(b0.y as int, n.z as int, 524288, 65536);
        lemma_abs_mul_le(b0.z as int, n.x as int, 524288, 65536);
        lemma_abs_mul_le(b0.z as int, n.y as int, 524288, 65536);
    }
    let a0x: i128 = (n.y as i128) * (negu.z as i128) - (n.z as i128) * (negu.y as i128);
    let a0y: i128 = (n.z as i128) * (negu.x as i128) - (n.x as i128) * (negu.z as i128);
    let a0z: i128 = (n.x as i128) * (negu.y as i128) - (n.y as i128) * (negu.x as i128);
    let a1x: i128 = (negu.y as i128) * (b0.z as i128) - (negu.z as i128) * (b0.y as i128);
    let a1y: i128 = (negu.z as i128) * (b0.x as i128) - (negu.x as i128) * (b0.z as i128);
    let a1z: i128 = (negu.x as i128) * (b0.y as i128) - (negu.y as i128) * (b0.x as i128);
    let a2x: i128 = (b0.y as i128) * (n.z as i128) - (b0.z as i128) * (n.y as i128);
    let a2y: i128 = (b0.z as i128) * (n.x as i128) - (b0.x as i128) * (n.z as i128);
    let a2z: i128 = (b0.x as i128) * (n.y as i128) - (b0.y as i128) * (n.x as i128);
    proof {
        lemma_abs_mul_le(b0.x as int, a0x as int, 524288, 8589934592);
        lemma_abs_mul_le(b0.y as int, a0y as int, 524288, 8589934592);
        lemma_abs_mul_le(b0.z as int, a0z as int, 524288, 8589934592);
    }
    let det: i128 = (b0.x as i128) * a0x + (b0.y as i128) * a0y + (b0.z as i128) * a0z;
    if det == 0 {
        return None;
    }
    let e00: i128 = collapse_div(a0x, det);
    let e01: i128 = collapse_div(a0y, det);
    let e02: i128 = collapse_div(a0z, det);
    let e10: i128 = collapse_div(a1x, det);
    let e11: i128 = collapse_div(a1y, det);
    let e12: i128 = collapse_div(a1z, det);
    let e20: i128 = collapse_div(a2x, det);
    let e21: i128 = collapse_div(a2y, det);
    let e22: i128 = collapse_div(a2z, det);
    let lim: i128 = DIST_LIM as i128;
    if e00 > lim || e00 < -lim || e01 > lim || e01 < -lim || e02 > lim || e02 < -lim || e10 > lim
        || e10 < -lim || e11 > lim || e11 < -lim || e12 > lim || e12 < -lim || e20 > lim || e20
        < -lim || e21 > lim || e21 < -lim || e22 > lim || e22 < -lim {
        return None;
    }
    let collapse: Mat3Fx = Mat3Fx {
        cx: Vec3Fx { x: e00 as i64, y: e10 as i64, z: e20 as i64 },
        cy: Vec3Fx { x: e01 as i64, y: e11 as i64, z: e21 as i64 },
        cz: Vec3Fx { x: e02 as i64, y: e12 as i64, z: e22 as i64 },
    };
    let right_half: i64 = fx_half(fi.width);
    let top_half: i64 = fx_half(fi.height);
    Some(
        ShadowCamera {
            bounds: OrthoBounds {
                left: -right_half,
                right: right_half,
                bottom: -top_half,
                top: top_half,
            },
            pose: ShadowPose { position, right, up: up2, back },
            collapse,
        },
    )
}

} // verus!
