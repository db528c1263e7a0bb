//! Frustum/plane geometry engine for an infinite reference grid.
//!
//! Once per frame the engine determines where a camera's view frustum meets an
//! infinite ground plane, producing a finite quadrilateral that a shadow pass
//! can use as a tightly fitted orthographic frustum, and solves a horizon
//! fading equation by Newton iteration to pick the distance at which the grid
//! visually vanishes.
//!
//! All geometry is carried in fixed-point arithmetic: a scalar is an `i64`
//! holding `value * SCALE` with `SCALE = 65536`. Every operation is
//! deterministic, so each function's contract pins its result exactly.

pub mod num;
pub mod fixed;
pub mod vec3;
pub mod plane;
pub mod mat;
pub mod grid;
pub mod fade;
pub mod frustum;
pub mod shadow;
pub mod visibility;
pub mod pipeline;
