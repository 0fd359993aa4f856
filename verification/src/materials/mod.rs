//! Surface materials: the scattering policies of the tracer.
//!
//! The set of materials is closed, so a material is a tagged variant and
//! scattering dispatches on the tag. Each policy consumes a hit and the
//! incident ray and produces an attenuation colour and a scattered ray, or
//! no result when the ray is absorbed.

pub mod lambertian;
pub mod metal;
pub mod transparent;

pub use lambertian::Lambertian;
pub use metal::Metal;
pub use transparent::Transparent;

use vstd::prelude::*;

use crate::colour::Colour;
use crate::colour::colour_wf;
use crate::fixed::ONE;
use crate::ray::RayR3;
use crate::vec3::Vec3;
use crate::vec3::VecR3;
use crate::vec3::v3;
use crate::vec3::vnormsq_s;

verus! {

/// A surface material
#[derive(Clone, Copy, PartialEq, Eq, Debug)]
pub enum Material {
    Lambertian(Lambertian),
    Metal(Metal),
    Transparent(Transparent),
}

/// The parameters of a material are well-formed: albedos are colours in
/// [0, 1], fuzz lies in [0, 1], and a refractive index is positive.
pub open spec fn material_wf(m: Material) -> bool {
    match m {
        Material::Lambertian(l) => colour_wf(v3(l.colour)),
        Material::Metal(mt) => colour_wf(v3(mt.colour)) && 0 <= mt.fuzz <= ONE,
        Material::Transparent(t) => t.refractive_index > 0,
    }
}

/// What scattering promises, by material.
pub open spec fn scatter_post(
    m: Material,
    ray: RayR3,
    point: Vec3<int>,
    normal: Vec3<int>,
    front_face: bool,
    r: Option<(Colour, RayR3)>,
) -> bool {
    match m {
        Material::Lambertian(l) => lambertian::lambertian_post(l, point, normal, r),
        Material::Metal(mt) => metal::metal_post(mt, ray, point, normal, r),
        Material::Transparent(t) => transparent::transparent_post(
            t,
            ray,
            point,
            normal,
            front_face,
            r,
        ),
    }
}

impl Material {
    /// Scatter a ray off of a surface intersection
    ///
    /// # Arguments
    ///
    /// * `ray` - The incident ray
    /// * `point` - The intersection point
    /// * `normal` - The intersection unit normal; oriented against `ray`
    /// * `front_face` - Whether the intersection is on the front side of the surface or back.
    /// * `rng` - The generator feeding the stochastic scattering choices.
    ///
    /// # Returns
    /// If a scatter occurs, returns an attenuation colour and the scattered ray.
    /// Returns None if the ray is absorbed.
    pub fn scatter(
        &self,
        ray: &RayR3,
        point: &VecR3,
        normal: &VecR3,
        front_face: bool,
        rng: &mut rand::rngs::StdRng,
    ) -> (r: Option<(Colour, RayR3)>)
        requires
            material_wf(*self),
            vnormsq_s(v3(ray.direction)) > 0,
        ensures
            scatter_post(*self, *ray, v3(*point), v3(*normal), front_face, r),
            r matches Some(p) ==> colour_wf(v3(p.0)) && v3(p.1.origin) == v3(*point),
    {
        match self {
            Material::Lambertian(l) => l.scatter(ray, point, normal, front_face, rng),
            Material::Metal(mt) => mt.scatter(ray, point, normal, front_face, rng),
            Material::Transparent(t) => t.scatter(ray, point, normal, front_face, rng),
        }
    }
}

} // verus!
