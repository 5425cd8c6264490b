//! A Monte Carlo path tracer over fixed-point arithmetic.
//!
//! Scalars are `i64` raw values carrying 16 fractional bits (see `fixed`).
//! Every executable function is specified by an exact integer-level spec
//! function, so a render is a mathematical function of the scene, the camera
//! and the seed of the random generator.

pub mod aabb;
pub mod bvh_node;
pub mod camera;
pub mod color;
pub mod driver;
pub mod fixed;
pub mod hittable;
pub mod interval;
pub mod material;
pub mod ray;
pub mod rng;
pub mod sphere;
pub mod vec3;
