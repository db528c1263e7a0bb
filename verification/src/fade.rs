//! The horizon fade solver and the distant grid point.
//!
//! The grid fades on a perceived, perspective-corrected distance, so the
//! ground offset that maps to "fully faded" satisfies the transcendental
//! equation `(1 - x/d) * sqrt(h^2 + x^2) + h*x/d = 0` in the camera height
//! `h` and the configured fade-out radius `d`. It is solved by a fixed
//! budget of two Newton iterations from the seed `x0 = d + h`; callers must
//! not expect more precision than that budget gives.

use vstd::prelude::*;
use vstd::math::abs;
use vstd::arithmetic::div_mod::lemma_div_of0;
use crate::num::{tdiv, sdiv, clamp_spec, isqrt_spec, isqrt, div_trunc, clamp_i128,
    lemma_isqrt_unique};
use crate::vec3::{Vec3Fx, bounded3, normalize3i, normalize};
use crate::mat::{Mat3Fx, mat3_bounded, mat3_apply, mat3_row_x, mat3_row_y, mat3_row_z, MAT3_V_LIM};
use crate::fixed::{SCALE, WORLD_LIM, UNIT_LIM, FADE_LIM, DIST_LIM, fxmul, fx_mul,
    lemma_abs_mul_le};
use crate::grid::{GridPlane, grid_wf};

verus! {

/// Bound on the square root of `h^2 + x^2` over the solver's domain.
pub const FADE_SQRT_LIM: i64 = 2199023255552;

/// `sqrt(h^2 + x^2)` in raw units: the scale squares and then roots away.
pub open spec fn fade_sqrt(h: int, x: int) -> int {
    isqrt_spec((h * h + x * x) as nat) as int
}

/// Numerator of `f(x) * d`, in raw-squared units:
/// `(d - x) * sqrt(h^2 + x^2) + h * x`.
pub open spec fn fade_fnum(h: int, d: int, x: int) -> int {
    (d - x) * fade_sqrt(h, x) + h * x
}

/// Numerator of `f'(x) * d * sqrt(h^2 + x^2)`, in raw-squared units:
/// `x * (d - x) + h * s - s^2` with `s = sqrt(h^2 + x^2)`.
pub open spec fn fade_gnum(h: int, d: int, x: int) -> int {
    x * (d - x) + h * fade_sqrt(h, x) - fade_sqrt(h, x) * fade_sqrt(h, x)
}

/// One Newton step `x - f(x)/f'(x)`, carried out on the two numerators so
/// that only a single truncating division happens; a vanishing derivative
/// keeps the iterate, and the result is clamped into the representable
/// range.
pub open spec fn fade_step_spec(h: int, d: int, x: int) -> int {
    if fade_gnum(h, d, x) == 0 {
        x
    } else {
        clamp_spec(
            x - sdiv(fade_fnum(h, d, x) * fade_sqrt(h, x), fade_gnum(h, d, x)),
            -(DIST_LIM as int),
            DIST_LIM as int,
        )
    }
}

/// The solved fade distance: two Newton steps from the seed `d + h`.
pub open spec fn solve_fade(h: int, d: int) -> int {
    fade_step_spec(h, d, fade_step_spec(h, d, d + h))
}

/// One executable Newton step.
fn fade_step(h: i64, d: i64, x: i64) -> (r: i64)
    requires
        0 <= h <= FADE_LIM,
        1 <= d <= FADE_LIM,
        -(DIST_LIM as int) <= x <= DIST_LIM as int,
    ensures
        r == fade_step_spec(h as int, d as int, x as int),
        -(DIST_LIM as int) <= r <= DIST_LIM as int,
{
    proof {
        lemma_abs_mul_le(h as int, h as int, FADE_LIM as int, FADE_LIM as int);
        lemma_abs_mul_le(x as int, x as int, DIST_LIM as int, DIST_LIM as int);
    }
    let hh: i128 = (h as i128) * (h as i128);
    let xx: i128 = (x as i128) * (x as i128);
    proof {
        assert(hh >= 0) by (nonlinear_arith)
            requires
                hh == (h as int) * (h as int),
        ;
        assert(xx >= 0) by (nonlinear_arith)
            requires
                xx == (x as int) * (x as int),
        ;
    }
    let s64: u64 = isqrt((hh + xx) as u128);
    proof {
        assert((FADE_SQRT_LIM as int) * (FADE_SQRT_LIM as int) > hh + xx);
        assert(s64 < FADE_SQRT_LIM) by (nonlinear_arith)
            requires
                (s64 as int) * (s64 as int) <= hh + xx,
                (FADE_SQRT_LIM as int) * (FADE_SQRT_LIM as int) > hh + xx,
                s64 >= 0,
        ;
        assert(s64 as int == fade_sqrt(h as int, x as int));
    }
    let s: i128 = s64 as i128;
    let dmx: i64 = d - x;
    proof {
        lemma_abs_mul_le(
            dmx as int,
            s as int,
            (FADE_LIM as int) + (DIST_LIM as int),
            FADE_SQRT_LIM as int,
        );
        lemma_abs_mul_le(h as int, x as int, FADE_LIM as int, DIST_LIM as int);
        lemma_abs_mul_le(
            x as int,
            dmx as int,
            DIST_LIM as int,
            (FADE_LIM as int) + (DIST_LIM as int),
        );
        lemma_abs_mul_le(h as int, s as int, FADE_LIM as int, FADE_SQRT_LIM as int);
        lemma_abs_mul_le(s as int, s as int, FADE_SQRT_LIM as int, FADE_SQRT_LIM as int);
    }
    let ff: i128 = (dmx as i128) * s + (h as i128) * (x as i128);
    let gg: i128 = (x as i128) * (dmx as i128) + (h as i128) * s - s * s;
    if gg == 0 {
        return x;
    }
    proof {
        lemma_abs_mul_le(
            ff as int,
            s as int,
            ((FADE_LIM as int) + (DIST_LIM as int)) * (FADE_SQRT_LIM as int) + (FADE_LIM as int)
                * (DIST_LIM as int),
            FADE_SQRT_LIM as int,
        );
    }
    let q: i128 = div_trunc(ff * s, gg);
    let xn: i128 = clamp_i128((x as i128) - q, -(DIST_LIM as i128), DIST_LIM as i128);
    xn as i64
}

/// Solve the fade equation by the fixed two-step Newton budget.
///
/// A camera exactly on the plane (`h == 0`) already has its root at the
/// seed, and the solver returns `d` unchanged there; in particular it never
/// divides by zero and the result is positive for every positive `d`.
pub fn solve_fade_distance(h: i64, d: i64) -> (r: i64)
    requires
        0 <= h <= FADE_LIM,
        1 <= d <= FADE_LIM,
    ensures
        r == solve_fade(h as int, d as int),
        -(DIST_LIM as int) <= r <= DIST_LIM as int,
        h == 0 ==> r == d,
{
    let x1: i64 = fade_step(h, d, d + h);
    let x2: i64 = fade_step(h, d, x1);
    proof {
        if h == 0 {
            lemma_fade_on_plane(d as int);
        }
    }
    x2
}

/// Raw inner product of a matrix column with integer components: one row of
/// a transposed-rotation application.
pub open spec fn coldot(c: Vec3Fx, x: int, y: int, z: int) -> int {
    (c.x as int) * x + (c.y as int) * y + (c.z as int) * z
}

/// The world-space point handed to the fade shader: the camera is carried
/// into the grid's local frame, the fade equation is solved for the local
/// height, and the solved distance is walked from the camera's ground
/// projection along its ground-projected backward direction, then carried
/// back to world space. The point lies in the grid plane by construction:
/// its local height is zero.
#[verifier::opaque]
pub open spec fn distant_point_spec(cam_pos: Vec3Fx, cam_back: Vec3Fx, g: GridPlane) -> (
    int,
    int,
    int,
) {
    let rot = g.pose.rotation;
    let relx: int = cam_pos.x - g.pose.translation.x;
    let rely: int = cam_pos.y - g.pose.translation.y;
    let relz: int = cam_pos.z - g.pose.translation.z;
    let lcx: int = tdiv(coldot(rot.cx, relx, rely, relz), SCALE as int);
    let lcy: int = tdiv(coldot(rot.cy, relx, rely, relz), SCALE as int);
    let lcz: int = tdiv(coldot(rot.cz, relx, rely, relz), SCALE as int);
    let dist: int = solve_fade(abs(lcy) as int, g.fadeout_distance as int);
    let lbx: int = tdiv(
        coldot(rot.cx, cam_back.x as int, cam_back.y as int, cam_back.z as int),
        SCALE as int,
    );
    let lbz: int = tdiv(
        coldot(rot.cz, cam_back.x as int, cam_back.y as int, cam_back.z as int),
        SCALE as int,
    );
    let dir: (int, int, int) = normalize3i(lbx, 0, lbz);
    let px: int = lcx + fxmul(dir.0, dist);
    let pz: int = lcz + fxmul(dir.2, dist);
    let wx: int = tdiv((rot.cx.x as int) * px + (rot.cz.x as int) * pz, SCALE as int)
        + g.pose.translation.x;
    let wy: int = tdiv((rot.cx.y as int) * px + (rot.cz.y as int) * pz, SCALE as int)
        + g.pose.translation.y;
    let wz: int = tdiv((rot.cx.z as int) * px + (rot.cz.z as int) * pz, SCALE as int)
        + g.pose.translation.z;
    (wx, wy, wz)
}

/// Compute the distant grid point for one camera and one grid instance.
/// Total over the whole input domain: degenerate heights resolve through
/// the Newton seed and no division by zero can occur.
pub fn compute_distant_grid_point(cam_pos: Vec3Fx, cam_back: Vec3Fx, grid: GridPlane) -> (r:
    Vec3Fx)
    requires
        bounded3(cam_pos, WORLD_LIM as int),
        bounded3(cam_back, UNIT_LIM as int),
        grid_wf(grid),
    ensures
        r.x == distant_point_spec(cam_pos, cam_back, grid).0,
        r.y == distant_point_spec(cam_pos, cam_back, grid).1,
        r.z == distant_point_spec(cam_pos, cam_back, grid).2,
        bounded3(r, 4 * (MAT3_V_LIM as int)),
{
    proof {
        reveal(distant_point_spec);
    }
    let rot: Mat3Fx = grid.pose.rotation;
    let rt: Mat3Fx = rot.transpose();
    let rel: Vec3Fx = cam_pos.sub(grid.pose.translation);
    proof {
        assert(mat3_bounded(rt, UNIT_LIM as int));
        lemma_abs_mul_le(rt.cx.x as int, rel.x as int, UNIT_LIM as int, 2 * (WORLD_LIM as int));
        lemma_abs_mul_le(rt.cy.x as int, rel.y as int, UNIT_LIM as int, 2 * (WORLD_LIM as int));
        lemma_abs_mul_le(rt.cz.x as int, rel.z as int, UNIT_LIM as int, 2 * (WORLD_LIM as int));
        lemma_abs_mul_le(rt.cx.y as int, rel.x as int, UNIT_LIM as int, 2 * (WORLD_LIM as int));
        lemma_abs_mul_le(rt.cy.y as int, rel.y as int, UNIT_LIM as int, 2 * (WORLD_LIM as int));
        lemma_abs_mul_le(rt.cz.y as int, rel.z as int, UNIT_LIM as int, 2 * (WORLD_LIM as int));
        lemma_abs_mul_le(rt.cx.z as int, rel.x as int, UNIT_LIM as int, 2 * (WORLD_LIM as int));
        lemma_abs_mul_le(rt.cy.z as int, rel.y as int, UNIT_LIM as int, 2 * (WORLD_LIM as int));
        lemma_abs_mul_le(rt.cz.z as int, rel.z as int, UNIT_LIM as int, 2 * (WORLD_LIM as int));
        crate::num::lemma_tdiv_abs_le(
            mat3_row_x(rt, rel),
            SCALE as int,
            6 * ((UNIT_LIM as int) * (WORLD_LIM as int)),
        );
        crate::num::lemma_tdiv_abs_le(
            mat3_row_y(rt, rel),
            SCALE as int,
            6 * ((UNIT_LIM as int) * (WORLD_LIM as int)),
        );
        crate::num::lemma_tdiv_abs_le(
            mat3_row_z(rt, rel),
            SCALE as int,
            6 * ((UNIT_LIM as int) * (WORLD_LIM as int)),
        );
    }
    let local_cam: Vec3Fx = mat3_apply(rt, rel);
    let h: i64 = if local_cam.y < 0 {
        -local_cam.y
    } else {
        local_cam.y
    };
    let dist: i64 = solve_fade_distance(h, grid.fadeout_distance);
    let local_back: Vec3Fx = mat3_apply(rt, cam_back);
    let planar: Vec3Fx = Vec3Fx { x: local_back.x, y: 0, z: local_back.z };
    let dir: Vec3Fx = normalize(planar);
    proof {
        lemma_abs_mul_le(dir.x as int, dist as int, SCALE as int, DIST_LIM as int);
        lemma_abs_mul_le(dir.z as int, dist as int, SCALE as int, DIST_LIM as int);
        crate::num::lemma_tdiv_abs_le(
            (dir.x as int) * (dist as int),
            SCALE as int,
            (SCALE as int) * (DIST_LIM as int),
        );
        crate::num::lemma_tdiv_abs_le(
            (dir.z as int) * (dist as int),
            SCALE as int,
            (SCALE as int) * (DIST_LIM as int),
        );
    }
    let ox: i64 = fx_mul(dir.x, dist);
    let oz: i64 = fx_mul(dir.z, dist);
    let lpt: Vec3Fx = Vec3Fx { x: local_cam.x + ox, y: 0, z: local_cam.z + oz };
    let world: Vec3Fx = mat3_apply(rot, lpt);
    let r: Vec3Fx = world.add(grid.pose.translation);
    proof {
        let relx: int = cam_pos.x - grid.pose.translation.x;
        let rely: int = cam_pos.y - grid.pose.translation.y;
        let relz: int = cam_pos.z - grid.pose.translation.z;
        assert(local_cam.x == tdiv(coldot(rot.cx, relx, rely, relz), SCALE as int));
        assert(local_cam.y == tdiv(coldot(rot.cy, relx, rely, relz), SCALE as int));
        assert(local_cam.z == tdiv(coldot(rot.cz, relx, rely, relz), SCALE as int));
        assert(h as int == abs(local_cam.y as int) as int);
        assert(local_back.x == tdiv(
            coldot(rot.cx, cam_back.x as int, cam_back.y as int, cam_back.z as int),
            SCALE as int,
        ));
        assert(local_back.z == tdiv(
            coldot(rot.cz, cam_back.x as int, cam_back.y as int, cam_back.z as int),
            SCALE as int,
        ));
        assert((dir.x as int, dir.y as int, dir.z as int) == normalize3i(
            local_back.x as int,
            0,
            local_back.z as int,
        ));
    }
    r
}

/// NEWTON SEED. With the camera exactly on the plane the seed is already
/// the root: for every positive bounded `d`, `solve_fade(0, d) == d`, a
/// finite positive value, and no step divides by zero.
pub proof fn lemma_fade_on_plane(d: int)
    requires
        1 <= d <= FADE_LIM,
    ensures
        solve_fade(0, d) == d,
        solve_fade(0, d) > 0,
{
    lemma_fade_step_fixed(d, d);
}

/// With the camera on the plane the seed `x == d` already evaluates
/// `f(d) = 0`, and the step keeps `d` exactly.
proof fn lemma_fade_step_fixed(d: int, x: int)
    requires
        1 <= d <= FADE_LIM,
        x == d,
    ensures
        fade_step_spec(0, d, x) == x,
        solve_fade(0, d) == d,
{
    assert((d * d) as nat == (0 * 0 + d * d) as nat);
    assert(d * d >= 1 && d * d < (d + 1) * (d + 1)) by (nonlinear_arith)
        requires
            d >= 1,
    ;
    lemma_isqrt_unique((d * d) as nat, d as nat);
    assert(fade_sqrt(0, d) == d);
    assert(fade_fnum(0, d, d) == (d - d) * d + 0 * d);
    assert((d - d) * d == 0) by (nonlinear_arith);
    assert(fade_gnum(0, d, d) == d * (d - d) + 0 * d - d * d);
    assert(d * (d - d) == 0) by (nonlinear_arith);
    assert(fade_gnum(0, d, d) == -(d * d));
    assert(fade_fnum(0, d, d) * fade_sqrt(0, d) == 0) by (nonlinear_arith)
        requires
            fade_fnum(0, d, d) == 0,
    ;
    assert(sdiv(0, -(d * d)) == tdiv(0, d * d));
    lemma_div_of0(d * d);
    assert(tdiv(0, d * d) == 0);
    assert(fade_step_spec(0, d, d) == clamp_spec(d - 0, -(DIST_LIM as int), DIST_LIM as int));
    assert(fade_step_spec(0, d, d) == d);
}

/// FADE MONOTONICITY, on the plane. With the camera on the plane the
/// solved distance equals `d`, so growing the fade radius never shrinks
/// the solved distance. (Off the plane the relationship is checked by
/// tests, not proved.)
pub proof fn lemma_fade_monotone_on_plane(d1: int, d2: int)
    requires
        1 <= d1 <= d2 <= FADE_LIM,
    ensures
        solve_fade(0, d1) <= solve_fade(0, d2),
{
    lemma_fade_on_plane(d1);
    lemma_fade_on_plane(d2);
}

} // verus!
