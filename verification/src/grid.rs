//! The grid instance and the per-frame camera snapshot.

use vstd::prelude::*;
use crate::vec3::{Vec3Fx, bounded3};
use crate::mat::{Mat3Fx, Mat4Fx, mat3_bounded, mat4_bounded};
use crate::fixed::{WORLD_LIM, UNIT_LIM, FADE_LIM};

verus! {

/// A rigid placement: translation plus a rotation given by its column
/// matrix. The grid plane is the image of the local XZ plane; a uniform
/// scale of the pose would not move that plane, so none is carried here.
#[derive(Clone, Copy, Debug, PartialEq, Eq, Structural)]
pub struct GridPose {
    pub translation: Vec3Fx,
    pub rotation: Mat3Fx,
}

/// Well-formed pose: translation within world bounds, rotation entries
/// within one unit.
pub open spec fn pose_wf(p: GridPose) -> bool {
    &&& bounded3(p.translation, WORLD_LIM as int)
    &&& mat3_bounded(p.rotation, UNIT_LIM as int)
}

impl GridPose {
    /// The plane normal: the rotation's image of local +Y, its middle
    /// column.
    pub fn up(self) -> (r: Vec3Fx)
        ensures
            r == self.rotation.cy,
    {
        self.rotation.cy
    }
}

/// One infinite-grid instance.
#[derive(Clone, Copy, Debug, PartialEq, Eq, Structural)]
pub struct GridPlane {
    pub pose: GridPose,
    /// Radius at which the grid fades to the horizon; always positive.
    pub fadeout_distance: i64,
    /// When false, no shadow frustum is computed for this instance.
    pub shadow_enabled: bool,
}

/// Well-formed grid: valid pose and a positive, bounded fade-out radius.
pub open spec fn grid_wf(g: GridPlane) -> bool {
    &&& pose_wf(g.pose)
    &&& 1 <= g.fadeout_distance <= FADE_LIM
}

/// The per-frame snapshot of the primary camera: its position, its backward
/// unit vector, and the two homogeneous maps between world and normalised
/// device coordinates. The host supplies both directions; this engine never
/// inverts a projection itself.
#[derive(Clone, Copy, Debug, PartialEq, Eq, Structural)]
pub struct CameraFx {
    pub position: Vec3Fx,
    pub back: Vec3Fx,
    pub world_from_ndc: Mat4Fx,
    pub ndc_from_world: Mat4Fx,
}

/// Well-formed camera snapshot.
pub open spec fn camera_wf(c: CameraFx) -> bool {
    &&& bounded3(c.position, WORLD_LIM as int)
    &&& bounded3(c.back, UNIT_LIM as int)
    &&& mat4_bounded(c.world_from_ndc, WORLD_LIM as int)
    &&& mat4_bounded(c.ndc_from_world, WORLD_LIM as int)
}

} // verus!
