//! A small CPU renderer built around a ray-tracing path tracer.
//!
//! All geometry and color arithmetic is carried out in binary fixed-point
//! (16 fractional bits, stored in `i64`), so that every numeric operation
//! has an exact mathematical model and the renderer can be verified end to
//! end: camera ray generation, ray/sphere intersection with a closest-hit
//! interval, material scattering (diffuse, metal, dielectric), sky gradient,
//! gamma correction, and the per-pixel accumulation loop.

pub mod camera;
pub mod color;
pub mod extensions;
pub mod hittable;
pub mod image;
pub mod interval;
pub mod material;
pub mod sphere;
pub mod random;
pub mod rasterization;
pub mod ray;
pub mod scalar;
pub mod vector;

use vstd::prelude::*;

verus! {

} // verus!
