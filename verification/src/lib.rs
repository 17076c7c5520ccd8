//! A small path tracer over fixed-point scalars.
//!
//! Every quantity is a signed 64-bit integer holding a real value scaled by
//! `fx::SCALE`; the scalar module proves exact quotient/product/root bounds,
//! and the geometric and rendering layers state their results as exact
//! functions of their inputs, so a render is a deterministic function of the
//! camera, the scene and the sampler seed.

pub mod fx;
pub mod rand;
pub mod vec3;
pub mod ray3;
pub mod shape;
pub mod object;
pub mod camera;
pub mod utils;
