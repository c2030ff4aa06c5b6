//! A Monte Carlo ray tracer core over saturating fixed-point arithmetic.
//!
//! Scalars are `i64` values in units of `1 / fixed::SCALE`, so the real
//! number `1.0` is the scalar `fixed::SCALE`. Every arithmetic operation is
//! total: products and quotients truncate toward zero and all results
//! saturate to the window `[-fixed::LIM, fixed::LIM]`, and each operation's
//! contract states its result exactly. On top of this scalar type the crate
//! builds vectors, rays, spheres, materials, a camera, and the recursive
//! light-transport integrator, all verified.

pub mod camera;
pub mod color;
pub mod fixed;
pub mod hittable;
pub mod hittable_list;
pub mod material;
pub mod ray;
pub mod render;
pub mod sphere;
pub mod utils;
pub mod vec3;
