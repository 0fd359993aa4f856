//! A reflective metal material.

use vstd::prelude::*;

use crate::colour::Colour;
use crate::colour::clamp;
use crate::colour::clamp_s;
use crate::fixed::ONE;
use crate::fixed::lemma_fmul_zero;
use crate::ray::Ray;
use crate::ray::RayR3;
use crate::vec3::Vec3;
use crate::vec3::VecR3;
use crate::vec3::is_unit_sample;
use crate::vec3::random_unit_vector;
use crate::vec3::reflect_s;
use crate::vec3::v3;
use crate::vec3::vadd_s;
use crate::vec3::vdot_s;
use crate::vec3::vnormsq_s;
use crate::vec3::vscale_s;
use crate::vec3::vunit_s;

verus! {

/// A reflective metal surface
#[derive(Clone, Copy, PartialEq, Eq, Debug)]
pub struct Metal {
    pub colour: Colour,
    pub fuzz: i64,
}

/// Metal scattering reflects the normalized incident direction, perturbed
/// by `fuzz` times a random unit vector; a perturbed direction that points
/// into the surface is absorbed, otherwise the attenuation is the albedo.
pub open spec fn metal_post(
    m: Metal,
    ray: RayR3,
    point: Vec3<int>,
    normal: Vec3<int>,
    r: Option<(Colour, RayR3)>,
) -> bool {
    exists|u: Vec3<int>|
        #[trigger] is_unit_sample(u) && {
            let d = vadd_s(
                reflect_s(vunit_s(v3(ray.direction)), normal),
                vscale_s(u, m.fuzz as int),
            );
            match r {
                None => vdot_s(d, normal) < 0,
                Some(p) => {
                    &&& vdot_s(d, normal) >= 0
                    &&& v3(p.0) == v3(m.colour)
                    &&& v3(p.1.origin) == point
                    &&& v3(p.1.direction) == d
                },
            }
        }
}

impl Metal {
    /// Build a metal material; the fuzz factor is clamped into [0, 1].
    pub fn new(colour: Colour, fuzz: i64) -> (m: Self)
        ensures
            m.colour == colour,
            m.fuzz as int == clamp_s(fuzz as int, 0, ONE as int),
    {
        Self { colour, fuzz: clamp(fuzz, 0, ONE) }
    }

    /// Scatter off the polished or fuzzed mirror; absorbs only when the
    /// perturbed reflection points into the surface. With zero fuzz the
    /// scattered direction obeys the mirror law exactly.
    pub fn scatter(
        &self,
        ray: &RayR3,
        point: &VecR3,
        normal: &VecR3,
        _front_face: bool,
        rng: &mut rand::rngs::StdRng,
    ) -> (r: Option<(Colour, RayR3)>)
        requires
            vnormsq_s(v3(ray.direction)) > 0,
        ensures
            metal_post(*self, *ray, v3(*point), v3(*normal), r),
            self.fuzz == 0 ==> (r matches Some(p) ==> v3(p.1.direction) == reflect_s(
                vunit_s(v3(ray.direction)),
                v3(*normal),
            )),
            self.fuzz == 0 ==> (r is None <==> vdot_s(
                reflect_s(vunit_s(v3(ray.direction)), v3(*normal)),
                v3(*normal),
            ) < 0),
    {
        proof {
            crate::vec3::lemma_vnormsq_pos_idot(v3(ray.direction));
        }
        let reflection: VecR3 = ray.direction.as_unit().reflect(*normal);
        let ruv: VecR3 = random_unit_vector(rng);
        let direction: VecR3 = reflection.plus(ruv.scaled(self.fuzz));
        proof {
            if self.fuzz == 0 {
                lemma_fmul_zero(v3(ruv).x);
                lemma_fmul_zero(v3(ruv).y);
                lemma_fmul_zero(v3(ruv).z);
            }
        }
        let r: Option<(Colour, RayR3)> = if direction.dot(*normal) < 0 {
            None
        } else {
            Some((self.colour, Ray::new(*point, direction)))
        };
        proof {
            let u = v3(ruv);
            let d = vadd_s(
                reflect_s(vunit_s(v3(ray.direction)), v3(*normal)),
                vscale_s(u, self.fuzz as int),
            );
            assert(is_unit_sample(u) && v3(direction) == d);
        }
        r
    }
}

} // verus!
