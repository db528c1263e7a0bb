//! Per-frame frustum / plane intersection.
//!
//! The four side edges of the camera's view frustum are cast against the
//! grid plane, giving a finite quadrilateral: its corners, centre, up
//! direction and extents. The top pair of corner seeds straddles the visible
//! horizon line where the plane's horizon is on screen; a corner whose ray
//! misses the plane is replaced by its row partner, and when fewer than
//! three corners remain the whole intersection is skipped for the frame.

use vstd::prelude::*;
use vstd::math::abs;
use crate::num::{tdiv, div_trunc_pos, lemma_tdiv_abs_le, lemma_tdiv_bounds, lemma_sdiv_neg};
use crate::vec3::{Vec3Fx, bounded3, dot_raw, length_raw, normalize, normalize3i, len3i, norm2i,
    Pt3, vpt, pdot, psub, padd, pbounded};
use crate::mat::{Mat4Fx, mat4_out_i, mat4_ok_i, mat4_apply_point, mat4_num_x_i, mat4_num_y_i, mat4_num_z_i, mat4_w_i};
use crate::plane::{intersect_ray_plane, ray_den_i, hit_i};
use crate::fixed::{SCALE, DIST_LIM, lemma_abs_mul_le};
use crate::grid::{GridPlane, grid_wf, CameraFx, camera_wf};
use crate::fade::{distant_point_spec, compute_distant_grid_point};

verus! {

/// First NDC depth at which a corner seed is unprojected.
pub const NDC_DEPTH_A: i64 = 65536;

/// Second NDC depth at which a corner seed is unprojected; any two distinct
/// depths give the same ray for a projective camera.
pub const NDC_DEPTH_B: i64 = 32768;

/// The quadrilateral where the view frustum meets the grid plane, with its
/// derived frame: recomputed every frame, never persisted.
#[derive(Clone, Copy, Debug, PartialEq, Eq, Structural)]
pub struct FrustumIntersection {
    pub top_right: Vec3Fx,
    pub top_left: Vec3Fx,
    pub bottom_right: Vec3Fx,
    pub bottom_left: Vec3Fx,
    /// Mean of the four corners.
    pub center: Vec3Fx,
    /// Unit direction from the bottom corner pair toward the top pair.
    pub up_dir: Vec3Fx,
    /// The longer of the two horizontal edges.
    pub width: i64,
    /// The right edge projected onto `up_dir`.
    pub height: i64,
}

/// Bounds kept by every intersection this module hands out.
pub open spec fn intersection_wf(fi: FrustumIntersection) -> bool {
    &&& bounded3(fi.top_right, DIST_LIM as int)
    &&& bounded3(fi.top_left, DIST_LIM as int)
    &&& bounded3(fi.bottom_right, DIST_LIM as int)
    &&& bounded3(fi.bottom_left, DIST_LIM as int)
    &&& bounded3(fi.center, DIST_LIM as int)
    &&& bounded3(fi.up_dir, SCALE as int)
    &&& 0 <= fi.width <= 4 * (DIST_LIM as int)
    &&& 0 <= fi.height <= 8 * (DIST_LIM as int)
}

/// Which side of the plane the camera occupies: +1 above or on it, -1
/// below.
pub open spec fn horizon_sign(cam: CameraFx, g: GridPlane) -> int {
    if pdot(vpt(g.pose.rotation.cy), psub(vpt(cam.position), vpt(g.pose.translation))) < 0 {
        -1
    } else {
        1
    }
}

/// The distant fade point as a model point.
pub open spec fn distant_pt(cam: CameraFx, g: GridPlane) -> Pt3 {
    Pt3 {
        x: distant_point_spec(cam.position, cam.back, g).0,
        y: distant_point_spec(cam.position, cam.back, g).1,
        z: distant_point_spec(cam.position, cam.back, g).2,
    }
}

/// The NDC row on which the top corner seeds sit: the projected distant
/// point's y where that projection exists and lies strictly inside the
/// view, else the horizon sign. This lets the quadrilateral straddle the
/// visible horizon line whether or not it is on screen.
pub open spec fn horizon_row(cam: CameraFx, g: GridPlane) -> int {
    let m = cam.ndc_from_world;
    let dp = distant_pt(cam, g);
    if mat4_ok_i(m, dp) && -(SCALE as int) < mat4_out_i(m, dp).y < SCALE as int {
        mat4_out_i(m, dp).y
    } else {
        horizon_sign(cam, g) * (SCALE as int)
    }
}

/// The corner produced by one seed `(sx, sy)`: unproject it at two depths
/// and cast the resulting ray through the plane. `None` when a projection
/// is missing, the ray is parallel to the plane, or the hit is out of
/// range.
#[verifier::opaque]
pub open spec fn corner_seed(cam: CameraFx, g: GridPlane, sx: int, sy: int) -> Option<Pt3> {
    let m = cam.world_from_ndc;
    let pn = Pt3 { x: sx, y: sy, z: NDC_DEPTH_A as int };
    let pf = Pt3 { x: sx, y: sy, z: NDC_DEPTH_B as int };
    if !(mat4_ok_i(m, pn) && mat4_ok_i(m, pf)) {
        None
    } else {
        let near = mat4_out_i(m, pn);
        let dir = psub(mat4_out_i(m, pf), near);
        let up = vpt(g.pose.rotation.cy);
        let po = vpt(g.pose.translation);
        if ray_den_i(dir, up) == 0 {
            None
        } else {
            let c = hit_i(near, dir, po, up);
            if pbounded(c, DIST_LIM as int) {
                Some(c)
            } else {
                None
            }
        }
    }
}

/// The x coordinate of seed `i`; corners are numbered 0 top right, 1 top
/// left, 2 bottom right, 3 bottom left.
pub open spec fn seed_x(i: int) -> int {
    if i == 0 || i == 2 {
        SCALE as int
    } else {
        -(SCALE as int)
    }
}

/// The y coordinate of seed `i`: the horizon row on top, the side away
/// from the camera at the bottom.
pub open spec fn seed_y(cam: CameraFx, g: GridPlane, i: int) -> int {
    if i == 0 || i == 1 {
        horizon_row(cam, g)
    } else {
        -horizon_sign(cam, g) * (SCALE as int)
    }
}

/// The corner of seed `i`.
pub open spec fn corner_at(cam: CameraFx, g: GridPlane, i: int) -> Option<Pt3> {
    corner_seed(cam, g, seed_x(i), seed_y(cam, g, i))
}

/// How many of the four corner rays produced a point.
pub open spec fn valid_corners(cam: CameraFx, g: GridPlane) -> int {
    (if corner_at(cam, g, 0) is Some {
        1int
    } else {
        0int
    }) + (if corner_at(cam, g, 1) is Some {
        1int
    } else {
        0int
    }) + (if corner_at(cam, g, 2) is Some {
        1int
    } else {
        0int
    }) + (if corner_at(cam, g, 3) is Some {
        1int
    } else {
        0int
    })
}

/// The row partner of a corner: the other corner on the same seed row.
pub open spec fn partner(i: int) -> int {
    if i == 0 {
        1
    } else if i == 1 {
        0
    } else if i == 2 {
        3
    } else {
        2
    }
}

/// A dropped corner is replaced by its row partner, keeping the
/// quadrilateral total whenever at least three corners remain.
pub open spec fn corner_resolved(cam: CameraFx, g: GridPlane, i: int) -> Option<Pt3> {
    if corner_at(cam, g, i) is Some {
        corner_at(cam, g, i)
    } else {
        corner_at(cam, g, partner(i))
    }
}

/// The mean of the four resolved corners.
pub open spec fn quad_center(cam: CameraFx, g: GridPlane) -> Pt3 {
    let q0 = corner_resolved(cam, g, 0).unwrap();
    let q1 = corner_resolved(cam, g, 1).unwrap();
    let q2 = corner_resolved(cam, g, 2).unwrap();
    let q3 = corner_resolved(cam, g, 3).unwrap();
    Pt3 {
        x: tdiv(q0.x + q1.x + q2.x + q3.x, 4),
        y: tdiv(q0.y + q1.y + q2.y + q3.y, 4),
        z: tdiv(q0.z + q1.z + q2.z + q3.z, 4),
    }
}

/// The unnormalised up direction: the top pair's sum minus the bottom
/// pair's sum.
pub open spec fn quad_up_raw(cam: CameraFx, g: GridPlane) -> Pt3 {
    let q0 = corner_resolved(cam, g, 0).unwrap();
    let q1 = corner_resolved(cam, g, 1).unwrap();
    let q2 = corner_resolved(cam, g, 2).unwrap();
    let q3 = corner_resolved(cam, g, 3).unwrap();
    psub(padd(q0, q1), padd(q2, q3))
}

/// The quadrilateral's unit up direction.
pub open spec fn quad_up(cam: CameraFx, g: GridPlane) -> Pt3 {
    let u = quad_up_raw(cam, g);
    let t = normalize3i(u.x, u.y, u.z);
    Pt3 { x: t.0, y: t.1, z: t.2 }
}

/// The quadrilateral's width: the longer of the top and bottom edges, which
/// guards against asymmetric frustum distortion.
pub open spec fn quad_width(cam: CameraFx, g: GridPlane) -> int {
    let q0 = corner_resolved(cam, g, 0).unwrap();
    let q1 = corner_resolved(cam, g, 1).unwrap();
    let q2 = corner_resolved(cam, g, 2).unwrap();
    let q3 = corner_resolved(cam, g, 3).unwrap();
    let top = len3i(q0.x - q1.x, q0.y - q1.y, q0.z - q1.z);
    let bot = len3i(q2.x - q3.x, q2.y - q3.y, q2.z - q3.z);
    if top >= bot {
        top
    } else {
        bot
    }
}

/// The quadrilateral's height: the right edge projected onto the unit up
/// direction.
pub open spec fn quad_height(cam: CameraFx, g: GridPlane) -> int {
    let q0 = corner_resolved(cam, g, 0).unwrap();
    let q2 = corner_resolved(cam, g, 2).unwrap();
    abs(tdiv(pdot(psub(q0, q2), quad_up(cam, g)), SCALE as int)) as int
}

/// The record a successful intersection carries: every field pinned to its
/// model value.
pub open spec fn intersection_matches(cam: CameraFx, g: GridPlane, fi: FrustumIntersection) -> bool {
    &&& vpt(fi.top_right) == corner_resolved(cam, g, 0).unwrap()
    &&& vpt(fi.top_left) == corner_resolved(cam, g, 1).unwrap()
    &&& vpt(fi.bottom_right) == corner_resolved(cam, g, 2).unwrap()
    &&& vpt(fi.bottom_left) == corner_resolved(cam, g, 3).unwrap()
    &&& vpt(fi.center) == quad_center(cam, g)
    &&& vpt(fi.up_dir) == quad_up(cam, g)
    &&& fi.width == quad_width(cam, g)
    &&& fi.height == quad_height(cam, g)
    &&& intersection_wf(fi)
}

/// Cast the corner ray of one seed.
fn compute_corner(cam: CameraFx, g: GridPlane, sx: i64, sy: i64) -> (r: Option<Vec3Fx>)
    requires
        camera_wf(cam),
        grid_wf(g),
        -(SCALE as int) <= sx <= SCALE as int,
        -(SCALE as int) <= sy <= SCALE as int,
    ensures
        r is Some <==> corner_seed(cam, g, sx as int, sy as int) is Some,
        r matches Some(c) ==> {
            &&& vpt(c) == corner_seed(cam, g, sx as int, sy as int).unwrap()
            &&& bounded3(c, DIST_LIM as int)
        },
{
    proof {
        reveal(corner_seed);
    }
    let pn = Vec3Fx { x: sx, y: sy, z: NDC_DEPTH_A };
    let pf = Vec3Fx { x: sx, y: sy, z: NDC_DEPTH_B };
    let near: Vec3Fx = match mat4_apply_point(cam.world_from_ndc, pn) {
        Some(p) => p,
        None => {
            return None;
        },
    };
    let far: Vec3Fx = match mat4_apply_point(cam.world_from_ndc, pf) {
        Some(p) => p,
        None => {
            return None;
        },
    };
    let dir: Vec3Fx = far.sub(near);
    match intersect_ray_plane(near, dir, g.pose.translation, g.pose.rotation.cy) {
        Ok(c) => Some(c),
        Err(_) => None,
    }
}

/// Compute the frustum / plane intersection for one camera and one grid
/// instance, or skip it for the frame.
///
/// The result is `None` exactly when fewer than three of the four corner
/// rays produce a point; a single dropped corner is replaced by its row
/// partner. A grazing camera whose rays all run parallel to the plane is
/// therefore skipped rather than failing.
#[verifier::rlimit(100)]
pub fn compute_intersection(cam: CameraFx, grid: GridPlane) -> (r: Option<FrustumIntersection>)
    requires
        camera_wf(cam),
        grid_wf(grid),
    ensures
        r is Some <==> valid_corners(cam, grid) >= 3,
        r matches Some(fi) ==> intersection_matches(cam, grid, fi),
{
    let rel: Vec3Fx = cam.position.sub(grid.pose.translation);
    let sdot: i128 = dot_raw(grid.pose.rotation.cy, rel);
    let sign: i64 = if sdot < 0 {
        -1
    } else {
        1
    };
    proof {
        assert(sign as int == horizon_sign(cam, grid));
    }
    let distant: Vec3Fx = compute_distant_grid_point(cam.position, cam.back, grid);
    let row: i64 = match mat4_apply_point(cam.ndc_from_world, distant) {
        Some(clip) => if clip.y > -SCALE && clip.y < SCALE {
            clip.y
        } else {
            sign * SCALE
        },
        None => sign * SCALE,
    };
    let bottom: i64 = -sign * SCALE;
    proof {
        assert(vpt(distant) == distant_pt(cam, grid));
        assert(row as int == horizon_row(cam, grid));
        assert(bottom as int == -horizon_sign(cam, grid) * (SCALE as int));
    }
    let c0: Option<Vec3Fx> = compute_corner(cam, grid, SCALE, row);
    let c1: Option<Vec3Fx> = compute_corner(cam, grid, -SCALE, row);
    let c2: Option<Vec3Fx> = compute_corner(cam, grid, SCALE, bottom);
    let c3: Option<Vec3Fx> = compute_corner(cam, grid, -SCALE, bottom);
    let mut count: u32 = 0;
    if c0.is_some() {
        count = count + 1;
    }
    if c1.is_some() {
        count = count + 1;
    }
    if c2.is_some() {
        count = count + 1;
    }
    if c3.is_some() {
        count = count + 1;
    }
    proof {
        assert(count as int == valid_corners(cam, grid));
    }
    if count < 3 {
        return None;
    }
    let q0: Vec3Fx = match c0 {
        Some(c) => c,
        None => match c1 {
            Some(c) => c,
            None => {
                proof {
                    assert(false);
                }
                Vec3Fx::zero()
            },
        },
    };
    let q1: Vec3Fx = match c1 {
        Some(c) => c,
        None => match c0 {
            Some(c) => c,
            None => {
                proof {
                    assert(false);
                }
                Vec3Fx::zero()
            },
        },
    };
    let q2: Vec3Fx = match c2 {
        Some(c) => c,
        None => match c3 {
            Some(c) => c,
            None => {
                proof {
                    assert(false);
                }
                Vec3Fx::zero()
            },
        },
    };
    let q3: Vec3Fx = match c3 {
        Some(c) => c,
        None => match c2 {
            Some(c) => c,
            None => {
                proof {
                    assert(false);
                }
                Vec3Fx::zero()
            },
        },
    };
    let sum_x: i64 = q0.x + q1.x + q2.x + q3.x;
    let sum_y: i64 = q0.y + q1.y + q2.y + q3.y;
    let sum_z: i64 = q0.z + q1.z + q2.z + q3.z;
    proof {
        lemma_tdiv_abs_le(sum_x as int, 4, 4 * (DIST_LIM as int));
        lemma_tdiv_abs_le(sum_y as int, 4, 4 * (DIST_LIM as int));
        lemma_tdiv_abs_le(sum_z as int, 4, 4 * (DIST_LIM as int));
    }
    let center: Vec3Fx = Vec3Fx {
        x: div_trunc_pos(sum_x as i128, 4) as i64,
        y: div_trunc_pos(sum_y as i128, 4) as i64,
        z: div_trunc_pos(sum_z as i128, 4) as i64,
    };
    let up_raw: Vec3Fx = Vec3Fx {
        x: (q0.x + q1.x) - (q2.x + q3.x),
        y: (q0.y + q1.y) - (q2.y + q3.y),
        z: (q0.z + q1.z) - (q2.z + q3.z),
    };
    let up_dir: Vec3Fx = normalize(up_raw);
    let top_edge: Vec3Fx = q0.sub(q1);
    let bottom_edge: Vec3Fx = q2.sub(q3);
    let wt: i64 = length_raw(top_edge);
    let wb: i64 = length_raw(bottom_edge);
    let width: i64 = if wt >= wb {
        wt
    } else {
        wb
    };
    proof {
        lemma_len_edge_bound(vpt(top_edge));
        lemma_len_edge_bound(vpt(bottom_edge));
    }
    let right_edge: Vec3Fx = q0.sub(q2);
    let hdot: i128 = dot_raw(right_edge, up_dir);
    proof {
        lemma_abs_mul_le(right_edge.x as int, up_dir.x as int, 2 * (DIST_LIM as int), SCALE as int);
        lemma_abs_mul_le(right_edge.y as int, up_dir.y as int, 2 * (DIST_LIM as int), SCALE as int);
        lemma_abs_mul_le(right_edge.z as int, up_dir.z as int, 2 * (DIST_LIM as int), SCALE as int);
        lemma_tdiv_abs_le(hdot as int, SCALE as int, 6 * ((DIST_LIM as int) * (SCALE as int)));
        lemma_tdiv_bounds(hdot as int, SCALE as int);
    }
    let hq: i128 = div_trunc_pos(hdot, SCALE as i128);
    let height: i64 = if hq < 0 {
        (-hq) as i64
    } else {
        hq as i64
    };
    Some(
        FrustumIntersection {
            top_right: q0,
            top_left: q1,
            bottom_right: q2,
            bottom_left: q3,
            center,
            up_dir,
            width,
            height,
        },
    )
}

/// PLANE CONTAINMENT for one corner seed: a corner the intersector
/// accepts lies on the grid plane, within one raw unit per normal
/// component.
proof fn lemma_corner_on_plane(cam: CameraFx, g: GridPlane, sx: int, sy: int)
    requires
        corner_seed(cam, g, sx, sy) is Some,
    ensures
        ({
            let up = vpt(g.pose.rotation.cy);
            let po = vpt(g.pose.translation);
            let c = corner_seed(cam, g, sx, sy).unwrap();
            -(abs(up.x) + abs(up.y) + abs(up.z)) <= pdot(up, c) - pdot(up, po) <= abs(up.x) + abs(
                up.y,
            ) + abs(up.z)
        }),
{
    reveal(corner_seed);
    let m = cam.world_from_ndc;
    let pn = Pt3 { x: sx, y: sy, z: NDC_DEPTH_A as int };
    let pf = Pt3 { x: sx, y: sy, z: NDC_DEPTH_B as int };
    let near = mat4_out_i(m, pn);
    let dir = psub(mat4_out_i(m, pf), near);
    let up = vpt(g.pose.rotation.cy);
    let po = vpt(g.pose.translation);
    crate::plane::lemma_plane_containment(
        near,
        dir,
        po,
        up,
        crate::plane::hit_i(near, dir, po, up),
    );
}

/// PLANE CONTAINMENT. All corners carried by a returned intersection lie
/// on the grid plane within one raw unit per normal component; whenever
/// at least three corner rays hit, every resolved corner exists.
pub proof fn lemma_corners_on_plane(cam: CameraFx, g: GridPlane, i: int)
    requires
        0 <= i < 4,
        valid_corners(cam, g) >= 3,
    ensures
        corner_resolved(cam, g, i) is Some,
        ({
            let up = vpt(g.pose.rotation.cy);
            let po = vpt(g.pose.translation);
            let c = corner_resolved(cam, g, i).unwrap();
            -(abs(up.x) + abs(up.y) + abs(up.z)) <= pdot(up, c) - pdot(up, po) <= abs(up.x) + abs(
                up.y,
            ) + abs(up.z)
        }),
{
    if corner_at(cam, g, i) is Some {
        lemma_corner_on_plane(cam, g, seed_x(i), seed_y(cam, g, i));
    } else {
        let j: int = partner(i);
        assert(corner_at(cam, g, j) is Some);
        lemma_corner_on_plane(cam, g, seed_x(j), seed_y(cam, g, j));
    }
}

/// The mirror of a model point across the vertical plane `x = 0`.
pub open spec fn mirror_x(p: Pt3) -> Pt3 {
    Pt3 { x: -p.x, y: p.y, z: p.z }
}

/// A projection is left-right symmetric when the NDC x coordinate feeds
/// world x alone and nothing else feeds it: mirrored seeds then unproject
/// to mirrored world points.
pub open spec fn projection_symmetric(m: Mat4Fx) -> bool {
    &&& m.c0.y == 0
    &&& m.c0.z == 0
    &&& m.c0.w == 0
    &&& m.c1.x == 0
    &&& m.c2.x == 0
    &&& m.c3.x == 0
}

/// Under a left-right symmetric projection over a plane whose normal has
/// no x component, mirrored seeds give mirrored corners: one exists
/// exactly when the other does.
proof fn lemma_corner_mirror(cam: CameraFx, g: GridPlane, sx: int, sy: int)
    requires
        projection_symmetric(cam.world_from_ndc),
        g.pose.rotation.cy.x == 0,
    ensures
        corner_seed(cam, g, -sx, sy) is Some <==> corner_seed(cam, g, sx, sy) is Some,
        corner_seed(cam, g, sx, sy) matches Some(c) ==> corner_seed(cam, g, -sx, sy) == Some(
            mirror_x(c),
        ),
{
    reveal(corner_seed);
    let m = cam.world_from_ndc;
    let pn = Pt3 { x: sx, y: sy, z: NDC_DEPTH_A as int };
    let pf = Pt3 { x: sx, y: sy, z: NDC_DEPTH_B as int };
    let qn = Pt3 { x: -sx, y: sy, z: NDC_DEPTH_A as int };
    let qf = Pt3 { x: -sx, y: sy, z: NDC_DEPTH_B as int };
    crate::fixed::lemma_mul_neg(m.c0.x as int, sx);
    crate::fixed::lemma_mul_neg(m.c0.y as int, sx);
    crate::fixed::lemma_mul_neg(m.c0.z as int, sx);
    crate::fixed::lemma_mul_neg(m.c0.w as int, sx);
    assert(mat4_num_x_i(m, qn) == -mat4_num_x_i(m, pn));
    assert(mat4_num_y_i(m, qn) == mat4_num_y_i(m, pn));
    assert(mat4_num_z_i(m, qn) == mat4_num_z_i(m, pn));
    assert(mat4_w_i(m, qn) == mat4_w_i(m, pn));
    assert(mat4_num_x_i(m, qf) == -mat4_num_x_i(m, pf));
    assert(mat4_num_y_i(m, qf) == mat4_num_y_i(m, pf));
    assert(mat4_num_z_i(m, qf) == mat4_num_z_i(m, pf));
    assert(mat4_w_i(m, qf) == mat4_w_i(m, pf));
    if mat4_w_i(m, pn) != 0 && mat4_w_i(m, pf) != 0 {
        lemma_sdiv_neg(mat4_num_x_i(m, pn) * (SCALE as int), mat4_w_i(m, pn));
        lemma_sdiv_neg(mat4_num_x_i(m, pf) * (SCALE as int), mat4_w_i(m, pf));
        let near = mat4_out_i(m, pn);
        let far = mat4_out_i(m, pf);
        assert(mat4_out_i(m, qn) == mirror_x(near));
        assert(mat4_out_i(m, qf) == mirror_x(far));
        assert(mat4_ok_i(m, qn) <==> mat4_ok_i(m, pn));
        assert(mat4_ok_i(m, qf) <==> mat4_ok_i(m, pf));
        if mat4_ok_i(m, pn) && mat4_ok_i(m, pf) {
            let dir = psub(far, near);
            let mdir = psub(mirror_x(far), mirror_x(near));
            assert(mdir == mirror_x(dir));
            let up = vpt(g.pose.rotation.cy);
            let po = vpt(g.pose.translation);
            assert(ray_den_i(mdir, up) == ray_den_i(dir, up));
            if ray_den_i(dir, up) != 0 {
                let den = ray_den_i(dir, up);
                assert(crate::plane::ray_num_i(mirror_x(near), po, up) == crate::plane::ray_num_i(
                    near,
                    po,
                    up,
                ));
                let hn = crate::plane::hit_num_i(near, dir, po, up);
                let hm = crate::plane::hit_num_i(mirror_x(near), mirror_x(dir), po, up);
                crate::fixed::lemma_mul_neg(near.x, den);
                crate::fixed::lemma_mul_neg(
                    crate::plane::ray_num_i(near, po, up),
                    dir.x,
                );
                assert(hm.x == (-near.x) * den + crate::plane::ray_num_i(near, po, up) * (-dir.x));
                assert(hm == mirror_x(hn));
                lemma_sdiv_neg(hn.x, den);
                assert(hit_i(mirror_x(near), mirror_x(dir), po, up) == mirror_x(
                    hit_i(near, dir, po, up),
                ));
            }
        }
    }
}

/// QUAD SYMMETRY. Under a left-right symmetric (non-skewed) projection of
/// a plane whose normal has no sideways component — a camera looking
/// straight down satisfies both — a full quadrilateral is itself
/// left-right symmetric, and its two diagonals have exactly equal squared
/// lengths.
pub proof fn lemma_quad_symmetry(cam: CameraFx, g: GridPlane)
    requires
        projection_symmetric(cam.world_from_ndc),
        g.pose.rotation.cy.x == 0,
        valid_corners(cam, g) == 4,
    ensures
        corner_resolved(cam, g, 1).unwrap() == mirror_x(corner_resolved(cam, g, 0).unwrap()),
        corner_resolved(cam, g, 3).unwrap() == mirror_x(corner_resolved(cam, g, 2).unwrap()),
        ({
            let q0 = corner_resolved(cam, g, 0).unwrap();
            let q1 = corner_resolved(cam, g, 1).unwrap();
            let q2 = corner_resolved(cam, g, 2).unwrap();
            let q3 = corner_resolved(cam, g, 3).unwrap();
            norm2i(q0.x - q3.x, q0.y - q3.y, q0.z - q3.z) == norm2i(
                q1.x - q2.x,
                q1.y - q2.y,
                q1.z - q2.z,
            )
        }),
{
    lemma_corner_mirror(cam, g, seed_x(0), seed_y(cam, g, 0));
    lemma_corner_mirror(cam, g, seed_x(2), seed_y(cam, g, 2));
    assert(seed_x(1) == -seed_x(0) && seed_y(cam, g, 1) == seed_y(cam, g, 0));
    assert(seed_x(3) == -seed_x(2) && seed_y(cam, g, 3) == seed_y(cam, g, 2));
    let q0 = corner_resolved(cam, g, 0).unwrap();
    let q1 = corner_resolved(cam, g, 1).unwrap();
    let q2 = corner_resolved(cam, g, 2).unwrap();
    let q3 = corner_resolved(cam, g, 3).unwrap();
    assert(q1 == mirror_x(q0));
    assert(q3 == mirror_x(q2));
    assert((q1.x - q2.x) == -(q0.x - q3.x));
    assert((q1.x - q2.x) * (q1.x - q2.x) == (q0.x - q3.x) * (q0.x - q3.x)) by (nonlinear_arith)
        requires
            (q1.x - q2.x) == -(q0.x - q3.x),
    ;
}

/// The raw length of an edge between two in-range corners stays within
/// four times the corner range.
proof fn lemma_len_edge_bound(e: Pt3)
    requires
        pbounded(e, 2 * (DIST_LIM as int)),
    ensures
        0 <= len3i(e.x, e.y, e.z) <= 4 * (DIST_LIM as int),
{
    crate::num::lemma_isqrt_bounds((e.x * e.x + e.y * e.y + e.z * e.z) as nat);
    lemma_abs_mul_le(e.x, e.x, 2 * (DIST_LIM as int), 2 * (DIST_LIM as int));
    lemma_abs_mul_le(e.y, e.y, 2 * (DIST_LIM as int), 2 * (DIST_LIM as int));
    lemma_abs_mul_le(e.z, e.z, 2 * (DIST_LIM as int), 2 * (DIST_LIM as int));
    assert(e.x * e.x >= 0 && e.y * e.y >= 0 && e.z * e.z >= 0) by (nonlinear_arith);
    let l: int = len3i(e.x, e.y, e.z);
    assert(l <= 4 * (DIST_LIM as int)) by (nonlinear_arith)
        requires
            l >= 0,
            l * l <= e.x * e.x + e.y * e.y + e.z * e.z,
            e.x * e.x <= (2 * (DIST_LIM as int)) * (2 * (DIST_LIM as int)),
            e.y * e.y <= (2 * (DIST_LIM as int)) * (2 * (DIST_LIM as int)),
            e.z * e.z <= (2 * (DIST_LIM as int)) * (2 * (DIST_LIM as int)),
            (DIST_LIM as int) >= 0,
    ;
}

} // verus!
