//! Rays in 3-dimensional space.

use vstd::prelude::*;

use crate::fixed::fadd_s;
use crate::fixed::fmul_s;
use crate::vec3::Vec3;
use crate::vec3::v3;
use crate::vec3::vadd_s;
use crate::vec3::vscale_s;

verus! {

/// A Ray in 3D space
///
/// A line defined by an origin and a direction.
#[derive(Clone, Copy, PartialEq, Eq, Debug)]
pub struct Ray<T> {
    pub origin: Vec3<T>,
    pub direction: Vec3<T>,
}

/// A ray over the fixed-point scalar.
pub type RayR3 = Ray<i64>;

/// The point a ray reaches at parameter `t`: `origin + t * direction`.
pub open spec fn ray_at_s(r: Ray<i64>, t: int) -> Vec3<int> {
    vadd_s(v3(r.origin), vscale_s(v3(r.direction), t))
}

impl<T> Ray<T> {
    /// Create a new ray
    pub fn new(origin: Vec3<T>, direction: Vec3<T>) -> (r: Self)
        ensures
            r.origin == origin,
            r.direction == direction,
    {
        Self { origin, direction }
    }
}

impl Ray<i64> {
    /// The point at a specific offset along the ray.
    ///
    /// ray.at(t) = ray.origin + ray.direction * t
    pub fn at(&self, t: i64) -> (p: Vec3<i64>)
        ensures
            v3(p) == ray_at_s(*self, t as int),
    {
        self.origin.plus(self.direction.scaled(t))
    }
}

} // verus!
