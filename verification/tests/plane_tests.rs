use infinite_grid::plane::{intersect_ray_plane, RayPlaneError};
use infinite_grid::vec3::Vec3Fx;

const S: i64 = 65536;

fn v(x: i64, y: i64, z: i64) -> Vec3Fx {
    Vec3Fx { x, y, z }
}

/// A ray cast straight down from above the plane hits it directly below.
#[test]
fn straight_hit() {
    let r = intersect_ray_plane(v(3 * S, 9 * S, -S), v(0, -S, 0), v(0, 0, 0), v(0, S, 0));
    assert_eq!(r, Ok(v(3 * S, 0, -S)));
}

/// A diagonal ray hits where its parameter says.
#[test]
fn diagonal_hit() {
    let r = intersect_ray_plane(v(S, 9 * S, 0), v(S, -S, 0), v(0, 0, 0), v(0, S, 0));
    assert_eq!(r, Ok(v(10 * S, 0, 0)));
}

/// A ray parallel to the plane is rejected as such.
#[test]
fn parallel_ray() {
    let r = intersect_ray_plane(v(0, 5 * S, 0), v(S, 0, S), v(0, 0, 0), v(0, S, 0));
    assert_eq!(r, Err(RayPlaneError::Parallel));
}

/// A grazing ray whose hit lies beyond the representable range is
/// rejected as out of range, not misreported.
#[test]
fn out_of_range_hit() {
    let r = intersect_ray_plane(
        v(0, S, 0),
        v(1099511627776, -1, 0),
        v(0, 0, 0),
        v(0, S, 0),
    );
    assert_eq!(r, Err(RayPlaneError::OutOfRange));
}

/// Plane containment on a tilted plane: the returned point satisfies the
/// plane equation within one raw unit per normal component.
#[test]
fn containment_tilted_plane() {
    let n = v(0, 46341, 46341);
    let po = v(2 * S, S, -3 * S);
    let ro = v(0, 12 * S, 5 * S);
    let rd = v(5000, -S, -7000);
    let c = intersect_ray_plane(ro, rd, po, n).unwrap();
    let lhs: i128 = (n.x as i128) * (c.x as i128) + (n.y as i128) * (c.y as i128)
        + (n.z as i128) * (c.z as i128);
    let rhs: i128 = (n.x as i128) * (po.x as i128) + (n.y as i128) * (po.y as i128)
        + (n.z as i128) * (po.z as i128);
    let tol: i128 = (n.x.abs() + n.y.abs() + n.z.abs()) as i128;
    assert!((lhs - rhs).abs() <= tol, "corner strays {} from the plane", (lhs - rhs).abs());
}

/// Containment also holds for a ray hitting from below the plane.
#[test]
fn containment_from_below() {
    let n = v(0, S, 0);
    let po = v(0, 4 * S, 0);
    let c = intersect_ray_plane(v(S, -6 * S, 0), v(3000, S, 500), po, n).unwrap();
    let lhs: i128 = (n.y as i128) * (c.y as i128);
    let rhs: i128 = (n.y as i128) * (po.y as i128);
    assert!((lhs - rhs).abs() <= (n.y.abs() as i128));
}
