//! A Monte Carlo path tracer core, verified with Verus.
//!
//! Rays from a thin-lens camera are traced recursively through a scene of
//! analytic spheres; materials scatter them stochastically and a sky
//! gradient is the only light source. All geometry and radiance arithmetic
//! runs over a saturating Q31.32 fixed-point scalar whose operations carry
//! exact specifications, so every contract here is stated over plain
//! integers. Randomness flows through an explicitly seeded generator, which
//! makes a render a reproducible function of its seed. File and image
//! encoding, argument parsing and thread plumbing live outside the core.

pub mod camera;
pub mod colour;
pub mod fixed;
pub mod materials;
pub mod objects;
pub mod opts;
pub mod ratio;
pub mod ray;
pub mod render;
pub mod rng;
pub mod surface;
pub mod vec3;

pub use camera::Camera;
pub use colour::Colour;
pub use materials::Material;
pub use opts::Opts;
pub use ratio::Ratio;
pub use ray::Ray;
pub use ray::RayR3;
pub use surface::Surface;
pub use vec3::Vec3;
pub use vec3::VecR3;
