//! Ray / plane intersection.
//!
//! The intersection parameter is the exact rational `t = (n . (po - ro)) /
//! (n . rd)`; the returned point keeps that rational's common denominator
//! until a single final truncating division per component, so the rounding
//! error of each component is below one raw unit.

use vstd::prelude::*;
use vstd::math::abs;
use crate::num::{sdiv, div_trunc, lemma_sdiv_close};
use crate::vec3::{Vec3Fx, bounded3, lemma_dot3_bound, dot_raw, Pt3, vpt, pdot, psub, pbounded};
use crate::fixed::{DIST_LIM, lemma_abs_mul_le, lemma_sum_mul};

verus! {

/// Bound accepted for the ray origin and the plane origin (raw units).
pub const RAY_PT_LIM: i64 = 1099511627776;

/// Bound accepted for the ray direction (raw units).
pub const RAY_DIR_LIM: i64 = 4398046511104;

/// Bound accepted for the plane normal (raw units); a unit normal is far
/// below it.
pub const NORMAL_LIM: i64 = 1048576;

/// Why a corner ray produced no usable intersection point.
#[derive(Clone, Copy, Debug, PartialEq, Eq, Structural)]
pub enum RayPlaneError {
    /// The ray direction is orthogonal to the plane normal.
    Parallel,
    /// The intersection exists but lies outside the representable range.
    OutOfRange,
}

/// Numerator of the intersection parameter for model points:
/// `n . (po - ro)`.
pub open spec fn ray_num_i(ro: Pt3, po: Pt3, n: Pt3) -> int {
    pdot(n, psub(po, ro))
}

/// Denominator of the intersection parameter for model points: `n . rd`.
pub open spec fn ray_den_i(rd: Pt3, n: Pt3) -> int {
    pdot(n, rd)
}

/// Numerator of the exact intersection point over the common denominator
/// `ray_den_i`, componentwise: `ro * den + t_num * rd`.
pub open spec fn hit_num_i(ro: Pt3, rd: Pt3, po: Pt3, n: Pt3) -> Pt3 {
    Pt3 {
        x: ro.x * ray_den_i(rd, n) + ray_num_i(ro, po, n) * rd.x,
        y: ro.y * ray_den_i(rd, n) + ray_num_i(ro, po, n) * rd.y,
        z: ro.z * ray_den_i(rd, n) + ray_num_i(ro, po, n) * rd.z,
    }
}

/// The rounded intersection point for model points.
pub open spec fn hit_i(ro: Pt3, rd: Pt3, po: Pt3, n: Pt3) -> Pt3 {
    let den: int = ray_den_i(rd, n);
    let num: Pt3 = hit_num_i(ro, rd, po, n);
    Pt3 { x: sdiv(num.x, den), y: sdiv(num.y, den), z: sdiv(num.z, den) }
}

/// Numerator of the intersection parameter: `n . (po - ro)`.
pub open spec fn ray_num(ro: Vec3Fx, po: Vec3Fx, n: Vec3Fx) -> int {
    ray_num_i(vpt(ro), vpt(po), vpt(n))
}

/// Denominator of the intersection parameter: `n . rd`.
pub open spec fn ray_den(rd: Vec3Fx, n: Vec3Fx) -> int {
    ray_den_i(vpt(rd), vpt(n))
}

/// Numerator of the x component of the exact intersection point over the
/// common denominator `ray_den`.
pub open spec fn hit_num_x(ro: Vec3Fx, rd: Vec3Fx, po: Vec3Fx, n: Vec3Fx) -> int {
    hit_num_i(vpt(ro), vpt(rd), vpt(po), vpt(n)).x
}

/// Numerator of the y component of the exact intersection point.
pub open spec fn hit_num_y(ro: Vec3Fx, rd: Vec3Fx, po: Vec3Fx, n: Vec3Fx) -> int {
    hit_num_i(vpt(ro), vpt(rd), vpt(po), vpt(n)).y
}

/// Numerator of the z component of the exact intersection point.
pub open spec fn hit_num_z(ro: Vec3Fx, rd: Vec3Fx, po: Vec3Fx, n: Vec3Fx) -> int {
    hit_num_i(vpt(ro), vpt(rd), vpt(po), vpt(n)).z
}

/// The rounded x component of the intersection point.
pub open spec fn hit_x(ro: Vec3Fx, rd: Vec3Fx, po: Vec3Fx, n: Vec3Fx) -> int {
    hit_i(vpt(ro), vpt(rd), vpt(po), vpt(n)).x
}

/// The rounded y component of the intersection point.
pub open spec fn hit_y(ro: Vec3Fx, rd: Vec3Fx, po: Vec3Fx, n: Vec3Fx) -> int {
    hit_i(vpt(ro), vpt(rd), vpt(po), vpt(n)).y
}

/// The rounded z component of the intersection point.
pub open spec fn hit_z(ro: Vec3Fx, rd: Vec3Fx, po: Vec3Fx, n: Vec3Fx) -> int {
    hit_i(vpt(ro), vpt(rd), vpt(po), vpt(n)).z
}

/// The intersection point exists and is representable.
pub open spec fn hit_in_range(ro: Vec3Fx, rd: Vec3Fx, po: Vec3Fx, n: Vec3Fx) -> bool {
    pbounded(hit_i(vpt(ro), vpt(rd), vpt(po), vpt(n)), DIST_LIM as int)
}

/// Cast a ray against the plane through `po` with normal `n`.
///
/// A ray orthogonal to the normal is reported as `Parallel`; an intersection
/// beyond the representable range as `OutOfRange`. Both are recovered by the
/// caller by dropping the corner.
pub fn intersect_ray_plane(ro: Vec3Fx, rd: Vec3Fx, po: Vec3Fx, n: Vec3Fx) -> (r: Result<
    Vec3Fx,
    RayPlaneError,
>)
    requires
        bounded3(ro, RAY_PT_LIM as int),
        bounded3(po, RAY_PT_LIM as int),
        bounded3(rd, RAY_DIR_LIM as int),
        bounded3(n, NORMAL_LIM as int),
    ensures
        r is Ok <==> (ray_den(rd, n) != 0 && hit_in_range(ro, rd, po, n)),
        r == Result::<Vec3Fx, RayPlaneError>::Err(RayPlaneError::Parallel) <==> ray_den(rd, n)
            == 0,
        r matches Ok(c) ==> {
            &&& c.x == hit_x(ro, rd, po, n)
            &&& c.y == hit_y(ro, rd, po, n)
            &&& c.z == hit_z(ro, rd, po, n)
            &&& bounded3(c, DIST_LIM as int)
        },
{
    let dd: i128 = dot_raw(n, rd);
    proof {
        lemma_dot3_bound(n, rd, NORMAL_LIM as int, RAY_DIR_LIM as int);
    }
    if dd == 0 {
        return Err(RayPlaneError::Parallel);
    }
    let diff: Vec3Fx = po.sub(ro);
    let aa: i128 = dot_raw(n, diff);
    proof {
        lemma_dot3_bound(n, diff, NORMAL_LIM as int, 2 * (RAY_PT_LIM as int));
        assert(aa == ray_num(ro, po, n));
        lemma_abs_mul_le(
            ro.x as int,
            dd as int,
            RAY_PT_LIM as int,
            3 * ((NORMAL_LIM as int) * (RAY_DIR_LIM as int)),
        );
        lemma_abs_mul_le(
            ro.y as int,
            dd as int,
            RAY_PT_LIM as int,
            3 * ((NORMAL_LIM as int) * (RAY_DIR_LIM as int)),
        );
        lemma_abs_mul_le(
            ro.z as int,
            dd as int,
            RAY_PT_LIM as int,
            3 * ((NORMAL_LIM as int) * (RAY_DIR_LIM as int)),
        );
        lemma_abs_mul_le(
            aa as int,
            rd.x as int,
            6 * ((NORMAL_LIM as int) * (RAY_PT_LIM as int)),
            RAY_DIR_LIM as int,
        );
        lemma_abs_mul_le(
            aa as int,
            rd.y as int,
            6 * ((NORMAL_LIM as int) * (RAY_PT_LIM as int)),
            RAY_DIR_LIM as int,
        );
        lemma_abs_mul_le(
            aa as int,
            rd.z as int,
            6 * ((NORMAL_LIM as int) * (RAY_PT_LIM as int)),
            RAY_DIR_LIM as int,
        );
    }
    let mx: i128 = (ro.x as i128) * dd + aa * (rd.x as i128);
    let my: i128 = (ro.y as i128) * dd + aa * (rd.y as i128);
    let mz: i128 = (ro.z as i128) * dd + aa * (rd.z as i128);
    let cx: i128 = div_trunc(mx, dd);
    let cy: i128 = div_trunc(my, dd);
    let cz: i128 = div_trunc(mz, dd);
    if cx > DIST_LIM as i128 || cx < -(DIST_LIM as i128) || cy > DIST_LIM as i128 || cy < -(
    DIST_LIM as i128) || cz > DIST_LIM as i128 || cz < -(DIST_LIM as i128) {
        return Err(RayPlaneError::OutOfRange);
    }
    Ok(Vec3Fx { x: cx as i64, y: cy as i64, z: cz as i64 })
}

/// PLANE CONTAINMENT. The point handed back for a non-parallel ray lies on
/// the plane: the raw inner products of the normal with the point and with
/// the plane origin differ by less than one raw unit per normal component.
/// (The unrounded rational intersection satisfies the plane equation
/// exactly; only the final per-component truncation is visible here.)
pub proof fn lemma_plane_containment(ro: Pt3, rd: Pt3, po: Pt3, n: Pt3, c: Pt3)
    requires
        ray_den_i(rd, n) != 0,
        c == hit_i(ro, rd, po, n),
    ensures
        pdot(n, c) - pdot(n, po) <= abs(n.x) + abs(n.y) + abs(n.z),
        -(abs(n.x) + abs(n.y) + abs(n.z)) <= pdot(n, c) - pdot(n, po),
{
    let dd: int = ray_den_i(rd, n);
    let aa: int = ray_num_i(ro, po, n);
    let nxv: int = n.x;
    let nyv: int = n.y;
    let nzv: int = n.z;
    let cxv: int = c.x;
    let cyv: int = c.y;
    let czv: int = c.z;
    let mx: int = hit_num_i(ro, rd, po, n).x;
    let my: int = hit_num_i(ro, rd, po, n).y;
    let mz: int = hit_num_i(ro, rd, po, n).z;
    let ex: int = mx - cxv * dd;
    let ey: int = my - cyv * dd;
    let ez: int = mz - czv * dd;
    let da: int = abs(dd) as int;
    lemma_sdiv_close(mx, dd);
    lemma_sdiv_close(my, dd);
    lemma_sdiv_close(mz, dd);
    assert(-da < ex < da && -da < ey < da && -da < ez < da);
    // The plane equation holds of the unrounded intersection.
    assert(aa == (nxv * po.x + nyv * po.y + nzv * po.z) - (nxv * ro.x + nyv * ro.y + nzv * ro.z))
        by (nonlinear_arith)
        requires
            aa == nxv * (po.x - ro.x) + nyv * (po.y - ro.y) + nzv * (po.z - ro.z),
    ;
    assert(aa == pdot(n, po) - pdot(n, ro));
    assert(nxv * mx == (nxv * ro.x) * dd + aa * (nxv * rd.x)) by (nonlinear_arith)
        requires
            mx == ro.x * dd + aa * rd.x,
    ;
    assert(nyv * my == (nyv * ro.y) * dd + aa * (nyv * rd.y)) by (nonlinear_arith)
        requires
            my == ro.y * dd + aa * rd.y,
    ;
    assert(nzv * mz == (nzv * ro.z) * dd + aa * (nzv * rd.z)) by (nonlinear_arith)
        requires
            mz == ro.z * dd + aa * rd.z,
    ;
    lemma_sum_mul(nxv * ro.x, nyv * ro.y, nzv * ro.z, dd);
    lemma_sum_mul(nxv * rd.x, nyv * rd.y, nzv * rd.z, aa);
    assert(nxv * mx + nyv * my + nzv * mz == dd * pdot(n, ro) + aa * dd) by {
        assert((nxv * ro.x) * dd + (nyv * ro.y) * dd + (nzv * ro.z) * dd
            == pdot(n, ro) * dd);
        assert(aa * (nxv * rd.x) + aa * (nyv * rd.y) + aa * (nzv * rd.z)
            == aa * dd);
        assert(pdot(n, ro) * dd == dd * pdot(n, ro)) by (nonlinear_arith);
    }
    assert(dd * pdot(n, ro) + (pdot(n, po) - pdot(n, ro)) * dd == dd * pdot(n, po))
        by (nonlinear_arith);
    assert(nxv * mx + nyv * my + nzv * mz == dd * pdot(n, po));
    // Relate the rounded point to the unrounded one.
    let ee: int = pdot(n, c) - pdot(n, po);
    assert((nxv * cxv) * dd == nxv * mx - nxv * ex) by (nonlinear_arith)
        requires
            ex == mx - cxv * dd,
    ;
    assert((nyv * cyv) * dd == nyv * my - nyv * ey) by (nonlinear_arith)
        requires
            ey == my - cyv * dd,
    ;
    assert((nzv * czv) * dd == nzv * mz - nzv * ez) by (nonlinear_arith)
        requires
            ez == mz - czv * dd,
    ;
    assert(ee * dd == -(nxv * ex + nyv * ey + nzv * ez)) by {
        lemma_sum_mul(nxv * cxv, nyv * cyv, nzv * czv, dd);
        assert(pdot(n, c) * dd == dd * pdot(n, po) - (nxv * ex + nyv * ey + nzv * ez));
        assert(ee * dd == pdot(n, c) * dd - pdot(n, po) * dd) by (nonlinear_arith)
            requires
                ee == pdot(n, c) - pdot(n, po),
        ;
        assert(pdot(n, po) * dd == dd * pdot(n, po)) by (nonlinear_arith);
    }
    let kk: int = (abs(nxv) + abs(nyv) + abs(nzv)) as int;
    lemma_abs_mul_le(nxv, ex, abs(nxv) as int, da - 1);
    lemma_abs_mul_le(nyv, ey, abs(nyv) as int, da - 1);
    lemma_abs_mul_le(nzv, ez, abs(nzv) as int, da - 1);
    assert((abs(nxv) as int) * (da - 1) + (abs(nyv) as int) * (da - 1) + (abs(nzv) as int) * (da
        - 1) == kk * (da - 1)) by (nonlinear_arith)
        requires
            kk == abs(nxv) + abs(nyv) + abs(nzv),
    ;
    assert(-(kk * (da - 1)) <= ee * dd <= kk * (da - 1));
    assert(-kk <= ee <= kk) by (nonlinear_arith)
        requires
            -(kk * (da - 1)) <= ee * dd <= kk * (da - 1),
            da >= 1,
            kk >= 0,
            dd == da || dd == -da,
    ;
}

} // verus!
