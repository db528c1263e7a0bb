use infinite_grid::frustum::compute_intersection;
use infinite_grid::grid::{CameraFx, GridPlane, GridPose};
use infinite_grid::mat::{Mat3Fx, Mat4Fx, Vec4Fx};
use infinite_grid::vec3::Vec3Fx;

const S: i64 = 65536;

fn v(x: i64, y: i64, z: i64) -> Vec3Fx {
    Vec3Fx { x, y, z }
}

fn col(x: i64, y: i64, z: i64, w: i64) -> Vec4Fx {
    Vec4Fx { x: x * S, y: y * S, z: z * S, w: w * S }
}

fn identity_grid() -> GridPlane {
    GridPlane {
        pose: GridPose {
            translation: v(0, 0, 0),
            rotation: Mat3Fx { cx: v(S, 0, 0), cy: v(0, S, 0), cz: v(0, 0, S) },
        },
        fadeout_distance: 100 * S,
        shadow_enabled: true,
    }
}

/// A camera ten units up looking straight down the plane normal, with a
/// symmetric ninety-degree projection and near distance one.
fn downward_camera() -> CameraFx {
    CameraFx {
        position: v(0, 10 * S, 0),
        back: v(0, S, 0),
        world_from_ndc: Mat4Fx {
            c0: col(1, 0, 0, 0),
            c1: col(0, 0, -1, 0),
            c2: col(0, 10, 0, 1),
            c3: col(0, -1, 0, 0),
        },
        ndc_from_world: Mat4Fx {
            c0: col(1, 0, 0, 0),
            c1: col(0, 0, 0, -1),
            c2: col(0, -1, 0, 0),
            c3: col(0, 0, 1, 10),
        },
    }
}

/// A camera whose every corner ray runs parallel to the plane: near and
/// far unproject one half unit apart horizontally at height five.
fn grazing_camera() -> CameraFx {
    CameraFx {
        position: v(0, 5 * S, 0),
        back: v(0, 0, S),
        world_from_ndc: Mat4Fx {
            c0: col(1, 0, 0, 0),
            c1: col(0, 0, -1, 0),
            c2: col(1, 0, 0, 0),
            c3: col(0, 5, 0, 1),
        },
        ndc_from_world: Mat4Fx {
            c0: col(1, 0, 0, 0),
            c1: col(0, 1, 0, 0),
            c2: col(0, 0, 1, 0),
            c3: col(0, 0, 0, 1),
        },
    }
}

/// The straight-down view cuts the plane in an exactly known
/// quadrilateral.
#[test]
fn downward_quadrilateral() {
    let fi = compute_intersection(downward_camera(), identity_grid()).unwrap();
    assert_eq!(fi.top_right, v(10 * S, 0, 0));
    assert_eq!(fi.top_left, v(-10 * S, 0, 0));
    assert_eq!(fi.bottom_right, v(10 * S, 0, 10 * S));
    assert_eq!(fi.bottom_left, v(-10 * S, 0, 10 * S));
    assert_eq!(fi.center, v(0, 0, 5 * S));
    assert_eq!(fi.up_dir, v(0, 0, -S));
    assert_eq!(fi.width, 20 * S);
    assert_eq!(fi.height, 10 * S);
}

/// All four corners of any returned quadrilateral lie on the plane.
#[test]
fn corners_on_plane() {
    let fi = compute_intersection(downward_camera(), identity_grid()).unwrap();
    for c in [fi.top_right, fi.top_left, fi.bottom_right, fi.bottom_left] {
        assert_eq!(c.y, 0, "corner off the plane: {:?}", c);
    }
}

/// Quad symmetry under a straight-down symmetric camera: the two
/// diagonals have exactly equal squared lengths, and both extents are
/// positive.
#[test]
fn downward_quad_symmetry() {
    let fi = compute_intersection(downward_camera(), identity_grid()).unwrap();
    let d1 = (fi.top_right.x - fi.bottom_left.x) as i128;
    let d1y = (fi.top_right.y - fi.bottom_left.y) as i128;
    let d1z = (fi.top_right.z - fi.bottom_left.z) as i128;
    let d2 = (fi.top_left.x - fi.bottom_right.x) as i128;
    let d2y = (fi.top_left.y - fi.bottom_right.y) as i128;
    let d2z = (fi.top_left.z - fi.bottom_right.z) as i128;
    assert_eq!(d1 * d1 + d1y * d1y + d1z * d1z, d2 * d2 + d2y * d2y + d2z * d2z);
    assert!(fi.width > 0);
    assert!(fi.height > 0);
}

/// A purely grazing view drops all four corners and skips the instance
/// instead of crashing.
#[test]
fn grazing_view_skips() {
    assert!(compute_intersection(grazing_camera(), identity_grid()).is_none());
}

/// When the distant point projects outside the vertical view range, the
/// top seed row falls back to the horizon sign, and the quadrilateral
/// straddles the camera's ground point symmetrically.
#[test]
fn horizon_row_falls_back_to_sign() {
    let mut cam = downward_camera();
    // Shift the projection so the distant point's NDC y lands at two,
    // outside the open unit interval.
    cam.ndc_from_world.c3.y = 20 * S;
    let fi = compute_intersection(cam, identity_grid()).unwrap();
    assert_eq!(fi.top_right, v(10 * S, 0, -10 * S));
    assert_eq!(fi.top_left, v(-10 * S, 0, -10 * S));
    assert_eq!(fi.bottom_right, v(10 * S, 0, 10 * S));
    assert_eq!(fi.bottom_left, v(-10 * S, 0, 10 * S));
    assert_eq!(fi.center, v(0, 0, 0));
    assert_eq!(fi.up_dir, v(0, 0, -S));
    assert_eq!(fi.width, 20 * S);
    assert_eq!(fi.height, 20 * S);
}

/// The same quadrilateral comes out whether the horizon row falls back to
/// the horizon sign or not: moving the camera below the plane flips the
/// bottom seeds to the other side.
#[test]
fn below_plane_sign_flips() {
    let mut cam = downward_camera();
    cam.position = v(0, -10 * S, 0);
    cam.back = v(0, -S, 0);
    // The unprojection still looks down from above in world terms, so the
    // intersection exists; only the seed rows move with the sign.
    let r = compute_intersection(cam, identity_grid());
    assert!(r.is_some());
}
