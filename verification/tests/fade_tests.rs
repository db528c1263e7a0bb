use infinite_grid::fade::{compute_distant_grid_point, solve_fade_distance};
use infinite_grid::grid::{GridPlane, GridPose};
use infinite_grid::mat::Mat3Fx;
use infinite_grid::vec3::Vec3Fx;

const S: i64 = 65536;

fn v(x: i64, y: i64, z: i64) -> Vec3Fx {
    Vec3Fx { x, y, z }
}

fn identity_rotation() -> Mat3Fx {
    Mat3Fx { cx: v(S, 0, 0), cy: v(0, S, 0), cz: v(0, 0, S) }
}

fn identity_grid(fadeout_distance: i64) -> GridPlane {
    GridPlane {
        pose: GridPose { translation: v(0, 0, 0), rotation: identity_rotation() },
        fadeout_distance,
        shadow_enabled: true,
    }
}

/// A camera exactly on the plane keeps the Newton seed: the solver returns
/// the fade radius itself, finite and positive.
#[test]
fn solver_on_plane_returns_radius() {
    assert_eq!(solve_fade_distance(0, 6553600), 6553600);
    assert_eq!(solve_fade_distance(0, 1), 1);
    assert_eq!(solve_fade_distance(0, S), S);
    assert!(solve_fade_distance(0, 549755813888) == 549755813888);
}

/// Golden value for the reference scenario: camera ten units above the
/// plane, fade radius one hundred.
#[test]
fn solver_reference_height() {
    assert_eq!(solve_fade_distance(655360, 100 * S), 7206267);
}

/// Growing the fade radius at a fixed height never shrinks the solved
/// distance (sampled).
#[test]
fn solver_monotone_in_radius() {
    let h: i64 = 655360;
    let radii: [i64; 6] = [S, 10 * S, 50 * S, 100 * S, 200 * S, 500 * S];
    let mut prev: i64 = 0;
    for r in radii {
        let d = solve_fade_distance(h, r);
        assert!(d >= prev, "solved distance shrank at radius {r}");
        prev = d;
    }
    assert_eq!(prev, 33423235);
}

/// The solver result is positive for a range of heights.
#[test]
fn solver_positive_across_heights() {
    for h in [0i64, 1, S / 2, S, 10 * S, 1000 * S] {
        let d = solve_fade_distance(h, 100 * S);
        assert!(d > 0, "non-positive solved distance at height {h}");
    }
}

/// The reference scenario's distant point: on the plane, behind the
/// camera's ground projection at the solved distance.
#[test]
fn distant_point_reference_scenario() {
    let grid = identity_grid(100 * S);
    let cam_pos = v(0, 655360, 1310720);
    let cam_back = v(0, 29309, 58618);
    let p = compute_distant_grid_point(cam_pos, cam_back, grid);
    assert_eq!(p, v(0, 0, 8516987));
}

/// The distant point always lies in the grid plane: for an untranslated,
/// unrotated grid its height is exactly zero.
#[test]
fn distant_point_on_plane() {
    let grid = identity_grid(100 * S);
    let p = compute_distant_grid_point(v(3 * S, 7 * S, -2 * S), v(0, 0, S), grid);
    assert_eq!(p.y, 0);
}

/// A camera looking straight down has no ground direction to walk: the
/// distant point is its ground projection.
#[test]
fn distant_point_straight_down() {
    let grid = identity_grid(100 * S);
    let p = compute_distant_grid_point(v(4 * S, 10 * S, 9 * S), v(0, S, 0), grid);
    assert_eq!(p, v(4 * S, 0, 9 * S));
}

/// A translated grid shifts the distant point with it.
#[test]
fn distant_point_translated_grid() {
    let grid = GridPlane {
        pose: GridPose { translation: v(0, 2 * S, 0), rotation: identity_rotation() },
        fadeout_distance: 100 * S,
        shadow_enabled: false,
    };
    let p = compute_distant_grid_point(v(0, 2 * S + 655360, 1310720), v(0, 29309, 58618), grid);
    assert_eq!(p, v(0, 2 * S, 8516987));
}
