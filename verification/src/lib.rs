//! A recursive ray tracer over fixed-point arithmetic.
//!
//! Every coordinate, color channel and ray parameter is a binary fixed-point
//! number: an `i64` raw value standing for `raw / SCALE` with `SCALE = 2^20`.
//! All geometry, scattering and the render loop are written over these plain
//! integers, so every function carries an exact contract.

#![verifier::loop_isolation(false)]

pub mod camera;
pub mod color;
pub mod fixed;
pub mod hittable;
pub mod laws;
pub mod material;
pub mod point3d;
pub mod ray;
pub mod render;
pub mod rng;
pub mod sphere;
pub mod trig;
