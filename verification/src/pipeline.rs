//! The per-frame pipeline for one camera and one grid instance, and the
//! small per-frame checks around it.
//!
//! Order within a frame is fixed: the distant fade point is always
//! computed; the frustum intersection and the shadow camera only for a
//! shadow-enabled grid, the latter only from a successful intersection.
//! Everything here is recomputed from the frame's camera snapshot and
//! discarded at the end of the frame.

use vstd::prelude::*;
use crate::vec3::{Vec3Fx, bounded3, dot_raw, pdot, psub, vpt};
use crate::fixed::WORLD_LIM;
use crate::grid::{GridPose, pose_wf, GridPlane, grid_wf, CameraFx, camera_wf};
use crate::fade::{compute_distant_grid_point, distant_point_spec};
use crate::frustum::{FrustumIntersection, compute_intersection, valid_corners,
    intersection_matches};
use crate::shadow::{ShadowCamera, build_shadow_camera, shadow_ok, shadow_matches};

verus! {

/// Everything one frame derives for one grid instance.
#[derive(Clone, Copy, Debug, PartialEq, Eq, Structural)]
pub struct FrameOutput {
    /// The world-space fade anchor handed to the grid shader.
    pub distant_point: Vec3Fx,
    /// The frustum / plane quadrilateral; absent when shadows are off or
    /// the intersection was skipped this frame.
    pub intersection: Option<FrustumIntersection>,
    /// The fitted shadow camera; absent whenever the intersection is, or
    /// when its basis is degenerate.
    pub shadow: Option<ShadowCamera>,
}

/// Whether the camera stands clear of the grid plane: the exact inner
/// product of the plane normal with the offset from the plane origin to
/// the point is nonzero. Arithmetic here is exact, so no epsilon guard is
/// needed around zero.
pub fn plane_check(pose: GridPose, point: Vec3Fx) -> (r: bool)
    requires
        pose_wf(pose),
        bounded3(point, WORLD_LIM as int),
    ensures
        r == (pdot(vpt(pose.rotation.cy), psub(vpt(pose.translation), vpt(point))) != 0),
{
    let d: i128 = dot_raw(pose.rotation.cy, pose.translation.sub(point));
    d != 0
}

/// Run the whole per-frame pipeline for one camera and one grid instance.
pub fn process_grid_frame(cam: CameraFx, grid: GridPlane) -> (r: FrameOutput)
    requires
        camera_wf(cam),
        grid_wf(grid),
    ensures
        r.distant_point.x == distant_point_spec(cam.position, cam.back, grid).0,
        r.distant_point.y == distant_point_spec(cam.position, cam.back, grid).1,
        r.distant_point.z == distant_point_spec(cam.position, cam.back, grid).2,
        r.intersection is Some <==> (grid.shadow_enabled && valid_corners(cam, grid) >= 3),
        r.intersection matches Some(fi) ==> {
            &&& intersection_matches(cam, grid, fi)
            &&& (r.shadow is Some <==> shadow_ok(fi, grid))
            &&& (r.shadow matches Some(sc) ==> shadow_matches(fi, grid, sc))
        },
        r.intersection is None ==> r.shadow is None,
{
    let distant_point: Vec3Fx = compute_distant_grid_point(cam.position, cam.back, grid);
    if !grid.shadow_enabled {
        return FrameOutput { distant_point, intersection: None, shadow: None };
    }
    let intersection: Option<FrustumIntersection> = compute_intersection(cam, grid);
    let shadow: Option<ShadowCamera> = match intersection {
        Some(fi) => build_shadow_camera(fi, grid),
        None => None,
    };
    FrameOutput { distant_point, intersection, shadow }
}

/// Fit the shadow texture to the window's aspect ratio: the longer texture
/// side takes the configured maximum, the shorter side is scaled by the
/// window's ratio, rounding down.
pub fn shadow_texture_size(window_width: u32, window_height: u32, max_texture_size: u32) -> (r: (
    u32,
    u32,
))
    requires
        window_width > 0,
        window_height > 0,
    ensures
        window_width < window_height ==> r.0 == (max_texture_size * window_width)
            / (window_height as int) && r.1 == max_texture_size,
        window_width >= window_height ==> r.0 == max_texture_size && r.1 == (max_texture_size
            * window_height) / (window_width as int),
{
    if window_width < window_height {
        proof {
            lemma_scaled_side_fits(
                max_texture_size as int,
                window_width as int,
                window_height as int,
            );
        }
        let t: u64 = (max_texture_size as u64) * (window_width as u64) / (window_height as u64);
        ((t as u32), max_texture_size)
    } else {
        proof {
            lemma_scaled_side_fits(
                max_texture_size as int,
                window_height as int,
                window_width as int,
            );
        }
        let t: u64 = (max_texture_size as u64) * (window_height as u64) / (window_width as u64);
        (max_texture_size, (t as u32))
    }
}

/// The scaled short texture side never exceeds the configured maximum.
proof fn lemma_scaled_side_fits(m: int, small: int, large: int)
    requires
        0 <= m <= 4294967295,
        0 < small <= large <= 4294967295,
    ensures
        0 <= (m * small) / large <= m,
        m * small < 18446744073709551616,
{
    assert(m * small < 18446744073709551616) by (nonlinear_arith)
        requires
            0 <= m <= 4294967295,
            0 <= small <= 4294967295,
    ;
    vstd::arithmetic::mul::lemma_mul_inequality(small, large, m);
    vstd::arithmetic::div_mod::lemma_div_is_ordered(small * m, large * m, large);
    vstd::arithmetic::div_mod::lemma_div_multiples_vanish(m, large);
    vstd::arithmetic::div_mod::lemma_div_pos_is_pos(m * small, large);
    assert(small * m == m * small) by (nonlinear_arith);
    assert(large * m == m * large) by (nonlinear_arith);
}

} // verus!
