//! A path-tracing renderer over fixed-point arithmetic.
//!
//! Every scalar is an `i64` holding a value scaled by 2^16, so all of
//! the geometry, the material model and the Monte-Carlo integrator are
//! exact integer computations with contracts that pin down each result.
//! Rays are intersected against spheres, parallelograms, flat lists and
//! a bounding-volume hierarchy, with translation and rotation wrappers;
//! materials scatter diffusely, specularly, refractively, or emit; the
//! camera accumulates jittered samples per pixel from a seeded random
//! stream and assembles the finished image as text, byte for byte a
//! function of the scene and the seed.

pub mod camera;
pub mod fixed;
pub mod hittable;
pub mod material;
pub mod ray;
pub mod rng;
pub mod texture;
pub mod time_utils;
pub mod trig;
pub mod units;
pub mod vec3;
