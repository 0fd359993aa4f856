//! A fully transparent refractive material.

use vstd::prelude::*;

use crate::colour::Colour;
use crate::fixed::ONE;
use crate::fixed::fadd;
use crate::fixed::fadd_s;
use crate::fixed::fdiv;
use crate::fixed::fdiv_s;
use crate::fixed::fmul;
use crate::fixed::fmul_s;
use crate::fixed::fneg;
use crate::fixed::fsub;
use crate::fixed::fsub_s;
use crate::fixed::lemma_fdiv_nonneg;
use crate::ray::Ray;
use crate::ray::RayR3;
use crate::vec3::Vec3;
use crate::vec3::VecR3;
use crate::vec3::refract_cos_s;
use crate::vec3::refract_dir_s;
use crate::vec3::refract_disc_s;
use crate::vec3::reflect_s;
use crate::vec3::v3;
use crate::vec3::vnormsq_s;
use crate::vec3::vunit_s;

verus! {

/// A fully transparent surface that always refracts when possible
#[derive(Clone, Copy, PartialEq, Eq, Debug)]
pub struct Transparent {
    pub refractive_index: i64,
}

/// The refraction ratio applied at a hit: the reciprocal of the index when
/// the ray enters the medium, the index itself when it leaves.
pub open spec fn transparent_ratio_s(t: Transparent, front_face: bool) -> int {
    if front_face {
        fdiv_s(ONE as int, t.refractive_index as int)
    } else {
        t.refractive_index as int
    }
}

/// Schlick's approximation for reflectance:
/// `r0 + (1 - r0) (1 - cos)^5` with `r0 = ((1 - eta) / (1 + eta))^2`.
pub open spec fn reflectance_s(cos_theta: int, eta: int) -> int {
    let r0 = fdiv_s(fsub_s(ONE as int, eta), fadd_s(ONE as int, eta));
    let r0sq = fmul_s(r0, r0);
    let omc = fsub_s(ONE as int, cos_theta);
    let p5 = fmul_s(fmul_s(fmul_s(fmul_s(omc, omc), omc), omc), omc);
    fadd_s(r0sq, fmul_s(fsub_s(ONE as int, r0sq), p5))
}

/// Refractive scattering always succeeds and never attenuates. The ray
/// refracts when the geometry permits it and a uniform draw does not fall
/// below the Schlick reflectance; otherwise it reflects.
pub open spec fn transparent_post(
    t: Transparent,
    ray: RayR3,
    point: Vec3<int>,
    normal: Vec3<int>,
    front_face: bool,
    r: Option<(Colour, RayR3)>,
) -> bool {
    let eta = transparent_ratio_s(t, front_face);
    let ud = vunit_s(v3(ray.direction));
    let cos = refract_cos_s(ud, normal);
    &&& r is Some
    &&& (r matches Some(p) ==> {
        &&& v3(p.0) == (Vec3::<int> { x: ONE as int, y: ONE as int, z: ONE as int })
        &&& v3(p.1.origin) == point
        &&& exists|draw: int|
            #[trigger] crate::fixed::unit_fraction(draw) && v3(p.1.direction) == (if refract_disc_s(
                ud,
                normal,
                eta,
            ) >= 0
                && draw >= reflectance_s(cos, eta) {
                refract_dir_s(ud, normal, eta)
            } else {
                reflect_s(ud, normal)
            })
    })
}

/// Schlick's approximation for reflectance.
fn reflectance(cos_theta: i64, eta: i64) -> (r: i64)
    requires
        eta >= 0,
    ensures
        r as int == reflectance_s(cos_theta as int, eta as int),
{
    let denom: i64 = fadd(ONE, eta);
    let r0: i64 = fdiv(fsub(ONE, eta), denom);
    let r0sq: i64 = fmul(r0, r0);
    let omc: i64 = fsub(ONE, cos_theta);
    let p5: i64 = fmul(fmul(fmul(fmul(omc, omc), omc), omc), omc);
    fadd(r0sq, fmul(fsub(ONE, r0sq), p5))
}

impl Transparent {
    /// Build a refractive material with the given index.
    pub fn new(refractive_index: i64) -> (t: Self)
        ensures
            t.refractive_index == refractive_index,
    {
        Self { refractive_index }
    }

    /// Scatter by refraction, falling back to reflection on total internal
    /// reflection or a reflectance draw; never absorbs, never attenuates.
    pub fn scatter(
        &self,
        ray: &RayR3,
        point: &VecR3,
        normal: &VecR3,
        front_face: bool,
        rng: &mut rand::rngs::StdRng,
    ) -> (r: Option<(Colour, RayR3)>)
        requires
            self.refractive_index > 0,
            vnormsq_s(v3(ray.direction)) > 0,
        ensures
            transparent_post(*self, *ray, v3(*point), v3(*normal), front_face, r),
            refract_disc_s(
                vunit_s(v3(ray.direction)),
                v3(*normal),
                transparent_ratio_s(*self, front_face),
            ) < 0 ==> (r matches Some(p) ==> v3(p.1.direction) == reflect_s(
                vunit_s(v3(ray.direction)),
                v3(*normal),
            )),
    {
        proof {
            lemma_fdiv_nonneg(ONE as int, self.refractive_index as int);
        }
        let refraction_ratio: i64 = if front_face {
            fdiv(ONE, self.refractive_index)
        } else {
            self.refractive_index
        };
        proof {
            crate::vec3::lemma_vnormsq_pos_idot(v3(ray.direction));
        }
        let unit_direction: VecR3 = ray.direction.as_unit();
        let md: i64 = fneg(unit_direction.dot(*normal));
        let cos_theta: i64 = if md > ONE {
            ONE
        } else {
            md
        };
        let ghost eta = refraction_ratio as int;
        let ghost ud = vunit_s(v3(ray.direction));
        let (new_direction, used_draw): (VecR3, i64) = match unit_direction.refract(
            *normal,
            refraction_ratio,
        ) {
            Some(refraction) => {
                let draw: i64 = crate::rng::next_fraction(rng);
                if draw >= reflectance(cos_theta, refraction_ratio) {
                    (refraction, draw)
                } else {
                    (unit_direction.reflect(*normal), draw)
                }
            },
            None => (unit_direction.reflect(*normal), 0),
        };
        let scatter: RayR3 = Ray::new(*point, new_direction);
        let r = Some((Vec3::new(ONE, ONE, ONE), scatter));
        proof {
            assert(refract_cos_s(ud, v3(*normal)) == cos_theta as int);
            assert(crate::fixed::unit_fraction(used_draw as int) && v3(new_direction) == (
            if refract_disc_s(
                ud,
                v3(*normal),
                eta,
            ) >= 0 && used_draw as int >= reflectance_s(refract_cos_s(ud, v3(*normal)), eta) {
                refract_dir_s(ud, v3(*normal), eta)
            } else {
                reflect_s(ud, v3(*normal))
            }));
        }
        r
    }
}

} // verus!
