use infinite_grid::grid::{CameraFx, GridPlane, GridPose};
use infinite_grid::mat::{Mat3Fx, Mat4Fx, Vec4Fx};
use infinite_grid::pipeline::{plane_check, process_grid_frame, shadow_texture_size};
use infinite_grid::vec3::Vec3Fx;

const S: i64 = 65536;

fn v(x: i64, y: i64, z: i64) -> Vec3Fx {
    Vec3Fx { x, y, z }
}

fn col(x: i64, y: i64, z: i64, w: i64) -> Vec4Fx {
    Vec4Fx { x: x * S, y: y * S, z: z * S, w: w * S }
}

fn identity_pose() -> GridPose {
    GridPose {
        translation: v(0, 0, 0),
        rotation: Mat3Fx { cx: v(S, 0, 0), cy: v(0, S, 0), cz: v(0, 0, S) },
    }
}

fn grid(shadow_enabled: bool) -> GridPlane {
    GridPlane { pose: identity_pose(), fadeout_distance: 100 * S, shadow_enabled }
}

fn downward_camera() -> CameraFx {
    CameraFx {
        position: v(0, 10 * S, 0),
        back: v(0, S, 0),
        world_from_ndc: Mat4Fx {
            c0: col(1, 0, 0, 0),
            c1: col(0, 0, -1, 0),
            c2: col(0, 10, 0, 1),
            c3: col(0, -1, 0, 0),
        },
        ndc_from_world: Mat4Fx {
            c0: col(1, 0, 0, 0),
            c1: col(0, 0, 0, -1),
            c2: col(0, -1, 0, 0),
            c3: col(0, 0, 1, 10),
        },
    }
}

/// A shadow-disabled grid pays no geometry cost: only the fade point is
/// produced.
#[test]
fn shadow_disabled_skips_geometry() {
    let out = process_grid_frame(downward_camera(), grid(false));
    assert!(out.intersection.is_none());
    assert!(out.shadow.is_none());
}

/// A shadow-enabled grid under the reference camera produces the whole
/// chain, with outputs agreeing with the standalone components.
#[test]
fn full_frame_reference_view() {
    let out = process_grid_frame(downward_camera(), grid(true));
    assert_eq!(out.distant_point, v(0, 0, 0));
    let fi = out.intersection.expect("intersection skipped");
    assert_eq!(fi.center, v(0, 0, 5 * S));
    assert_eq!(fi.width, 20 * S);
    let sc = out.shadow.expect("shadow skipped");
    assert_eq!(sc.bounds.right, 10 * S);
    assert_eq!(sc.bounds.top, 5 * S);
    assert_eq!(sc.pose.position, v(0, 500 * S, 5 * S));
}

/// The camera-on-plane check: exactly on the plane fails, anywhere off
/// the plane passes.
#[test]
fn plane_check_distinguishes() {
    assert!(!plane_check(identity_pose(), v(7 * S, 0, -3 * S)));
    assert!(plane_check(identity_pose(), v(0, 1, 0)));
    assert!(plane_check(identity_pose(), v(2 * S, -5 * S, S)));
}

/// The shadow texture takes the configured maximum on its longer side and
/// scales the shorter by the window's aspect ratio.
#[test]
fn texture_size_landscape() {
    assert_eq!(shadow_texture_size(800, 600, 16384), (16384, 12288));
}

/// A portrait window transposes the fit.
#[test]
fn texture_size_portrait() {
    assert_eq!(shadow_texture_size(600, 800, 16384), (12288, 16384));
}

/// A square window saturates both sides.
#[test]
fn texture_size_square() {
    assert_eq!(shadow_texture_size(512, 512, 4096), (4096, 4096));
}
