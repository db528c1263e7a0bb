use infinite_grid::frustum::FrustumIntersection;
use infinite_grid::grid::{GridPlane, GridPose};
use infinite_grid::mat::Mat3Fx;
use infinite_grid::shadow::build_shadow_camera;
use infinite_grid::vec3::Vec3Fx;

const S: i64 = 65536;

fn v(x: i64, y: i64, z: i64) -> Vec3Fx {
    Vec3Fx { x, y, z }
}

fn identity_grid() -> GridPlane {
    GridPlane {
        pose: GridPose {
            translation: v(0, 0, 0),
            rotation: Mat3Fx { cx: v(S, 0, 0), cy: v(0, S, 0), cz: v(0, 0, S) },
        },
        fadeout_distance: 100 * S,
        shadow_enabled: true,
    }
}

/// The quadrilateral of the straight-down reference view.
fn reference_intersection() -> FrustumIntersection {
    FrustumIntersection {
        top_right: v(10 * S, 0, 0),
        top_left: v(-10 * S, 0, 0),
        bottom_right: v(10 * S, 0, 10 * S),
        bottom_left: v(-10 * S, 0, 10 * S),
        center: v(0, 0, 5 * S),
        up_dir: v(0, 0, -S),
        width: 20 * S,
        height: 10 * S,
    }
}

/// The orthographic half-extents equal exactly half the intersection's
/// width and height, with no padding: the box is the minimal symmetric
/// fit.
#[test]
fn orthographic_bounds_fit() {
    let sc = build_shadow_camera(reference_intersection(), identity_grid()).unwrap();
    assert_eq!(sc.bounds.right, 10 * S);
    assert_eq!(sc.bounds.left, -10 * S);
    assert_eq!(sc.bounds.top, 5 * S);
    assert_eq!(sc.bounds.bottom, -5 * S);
}

/// Odd raw extents still halve symmetrically.
#[test]
fn orthographic_bounds_odd_extents() {
    let mut fi = reference_intersection();
    fi.width = 7;
    fi.height = 3;
    let sc = build_shadow_camera(fi, identity_grid()).unwrap();
    assert_eq!(sc.bounds.right, 3);
    assert_eq!(sc.bounds.left, -3);
    assert_eq!(sc.bounds.top, 1);
    assert_eq!(sc.bounds.bottom, -1);
}

/// The shadow camera sits five hundred units above the centre along the
/// plane normal and looks back down with the intersection's up direction.
#[test]
fn pose_reference_view() {
    let sc = build_shadow_camera(reference_intersection(), identity_grid()).unwrap();
    assert_eq!(sc.pose.position, v(0, 500 * S, 5 * S));
    assert_eq!(sc.pose.back, v(0, S, 0));
    assert_eq!(sc.pose.right, v(S, 0, 0));
    assert_eq!(sc.pose.up, v(0, 0, -S));
}

/// For the reference view the collapse basis is the identity, and so is
/// its inverse.
#[test]
fn collapse_reference_view() {
    let sc = build_shadow_camera(reference_intersection(), identity_grid()).unwrap();
    assert_eq!(sc.collapse.cx, v(S, 0, 0));
    assert_eq!(sc.collapse.cy, v(0, S, 0));
    assert_eq!(sc.collapse.cz, v(0, 0, S));
}

/// An up direction parallel to the plane normal makes the look-at and
/// collapse bases degenerate; the fit is skipped, not propagated as a
/// numerical fault.
#[test]
fn degenerate_basis_skipped() {
    let mut fi = reference_intersection();
    fi.up_dir = v(0, S, 0);
    assert!(build_shadow_camera(fi, identity_grid()).is_none());
}
