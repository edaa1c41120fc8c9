//! Decision and color logic of a path-tracing renderer: fixed-point radiance
//! values, their gamma-corrected 8-bit encoding, the choice of the nearest
//! intersection among the members of a scene, and the bounce budget of a path.

pub mod color;
pub mod hittable;
pub mod material;
pub mod tracer;
