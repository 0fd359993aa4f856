//! A Lambertian (matte) material.

use vstd::prelude::*;

use crate::colour::Colour;
use crate::ray::Ray;
use crate::ray::RayR3;
use crate::vec3::Vec3;
use crate::vec3::VecR3;
use crate::vec3::is_unit_sample;
use crate::vec3::near_zero_s;
use crate::vec3::random_unit_vector;
use crate::vec3::v3;
use crate::vec3::vadd_s;

verus! {

/// A Lambertian (matte) material
#[derive(Clone, Copy, PartialEq, Eq, Debug)]
pub struct Lambertian {
    pub colour: Colour,
}

/// Diffuse scattering always succeeds: the ray leaves the hit point along
/// the normal plus a random unit vector, falling back to the bare normal
/// when that sum degenerates; the attenuation is the fixed albedo.
pub open spec fn lambertian_post(
    l: Lambertian,
    point: Vec3<int>,
    normal: Vec3<int>,
    r: Option<(Colour, RayR3)>,
) -> bool {
    &&& r is Some
    &&& (r matches Some(p) ==> {
        &&& v3(p.0) == v3(l.colour)
        &&& v3(p.1.origin) == point
        &&& exists|u: Vec3<int>|
            #[trigger] is_unit_sample(u) && v3(p.1.direction) == (if near_zero_s(
                vadd_s(normal, u),
            ) {
                normal
            } else {
                vadd_s(normal, u)
            })
    })
}

impl Lambertian {
    /// Build a diffuse material with the given albedo.
    pub fn new(colour: Colour) -> (m: Self)
        ensures
            m.colour == colour,
    {
        Self { colour }
    }

    /// Scatter diffusely: never absorbs.
    pub fn scatter(
        &self,
        _ray: &RayR3,
        point: &VecR3,
        normal: &VecR3,
        _front_face: bool,
        rng: &mut rand::rngs::StdRng,
    ) -> (r: Option<(Colour, RayR3)>)
        ensures
            lambertian_post(*self, v3(*point), v3(*normal), r),
    {
        let ruv: VecR3 = random_unit_vector(rng);
        let candidate: VecR3 = normal.plus(ruv);
        let scatter_direction: VecR3 = if candidate.near_zero() {
            *normal
        } else {
            candidate
        };
        let scattered: RayR3 = Ray::new(*point, scatter_direction);
        let r = Some((self.colour, scattered));
        proof {
            let u = v3(ruv);
            assert(is_unit_sample(u) && v3(scatter_direction) == (if near_zero_s(
                vadd_s(v3(*normal), u),
            ) {
                v3(*normal)
            } else {
                vadd_s(v3(*normal), u)
            }));
        }
        r
    }
}

} // verus!
