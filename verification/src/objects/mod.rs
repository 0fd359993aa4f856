//! Primitive geometric objects.

pub mod sphere;

pub use sphere::Sphere;
