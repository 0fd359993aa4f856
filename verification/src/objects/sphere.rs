//! Spheres, the primitive shape of the tracer.

use vstd::prelude::*;

use crate::fixed::fadd;
use crate::fixed::fadd_s;
use crate::fixed::fdiv;
use crate::fixed::fdiv_s;
use crate::fixed::fmul;
use crate::fixed::fmul_s;
use crate::fixed::fneg;
use crate::fixed::fneg_s;
use crate::fixed::fsqrt;
use crate::fixed::fsqrt_s;
use crate::fixed::fsub;
use crate::fixed::fsub_s;
use crate::materials::Material;
use crate::ray::RayR3;
use crate::ray::ray_at_s;
use crate::surface::Intersection;
use crate::surface::SpecHit;
use crate::surface::hit_view;
use crate::surface::opt_hit_view;
use crate::vec3::VecR3;
use crate::vec3::v3;
use crate::vec3::vdiv_s;
use crate::vec3::vdot_s;
use crate::vec3::vneg_s;
use crate::vec3::vnormsq_s;
use crate::vec3::vsub_s;

verus! {

/// A Sphere
///
/// The radius is signed: a negative radius flips the outward normal, which
/// scene setup exploits to build hollow shells.
#[derive(Clone, Copy, Debug)]
pub struct Sphere {
    center: VecR3,
    radius: i64,
    material: Material,
}

/// The record a sphere hit at parameter `t` produces: the hit point, the
/// normal `(point - center) / radius` flipped to oppose the incident ray,
/// and the front-face flag.
pub open spec fn sphere_hit_record(sp: Sphere, ray: RayR3, t: int) -> SpecHit {
    let point = ray_at_s(ray, t);
    let outward = vdiv_s(vsub_s(point, v3(sp.center_s())), sp.radius_s() as int);
    let ff = vdot_s(v3(ray.direction), outward) < 0;
    SpecHit {
        t,
        point,
        normal: if ff {
            outward
        } else {
            vneg_s(outward)
        },
        front_face: ff,
        material: sp.material_s(),
    }
}

/// What intersecting a sphere returns: the quadratic in the ray parameter
/// is solved with the half-discriminant trick, the smaller root is tried
/// first, and a degenerate sphere or direction yields no hit.
pub open spec fn sphere_hit(sp: Sphere, ray: RayR3, t_min: int, t_max: int) -> Option<SpecHit> {
    let a = vnormsq_s(v3(ray.direction));
    if sp.radius_s() == 0 || a <= 0 {
        None
    } else {
        let rel = vsub_s(v3(ray.origin), v3(sp.center_s()));
        let half_b = vdot_s(v3(ray.direction), rel);
        let c = fsub_s(vnormsq_s(rel), fmul_s(sp.radius_s() as int, sp.radius_s() as int));
        let qd = fsub_s(fmul_s(half_b, half_b), fmul_s(a, c));
        if qd < 0 {
            None
        } else {
            let sq = fsqrt_s(qd);
            let t1 = fdiv_s(fsub_s(fneg_s(half_b), sq), a);
            let t2 = fdiv_s(fadd_s(fneg_s(half_b), sq), a);
            if t_min < t1 && t1 < t_max {
                Some(sphere_hit_record(sp, ray, t1))
            } else if t_min < t2 && t2 < t_max {
                Some(sphere_hit_record(sp, ray, t2))
            } else {
                None
            }
        }
    }
}

impl Sphere {
    /// Build a sphere from its center, signed radius and material.
    pub fn new(center: VecR3, radius: i64, material: Material) -> (s: Self)
        ensures
            s.center_s() == center,
            s.radius_s() == radius,
            s.material_s() == material,
    {
        Self { center, radius, material }
    }

    /// The center of the sphere.
    pub closed spec fn center_s(self) -> VecR3 {
        self.center
    }

    /// The signed radius of the sphere.
    pub closed spec fn radius_s(self) -> i64 {
        self.radius
    }

    /// The material of the sphere.
    pub closed spec fn material_s(self) -> Material {
        self.material
    }

    /// Intersect a ray with the sphere: the nearest root of the quadratic
    /// that lies strictly inside `(t_min, t_max)`, or no result.
    pub fn intersect(&self, ray: &RayR3, t_min: i64, t_max: i64) -> (r: Option<Intersection>)
        ensures
            opt_hit_view(r) == sphere_hit(*self, *ray, t_min as int, t_max as int),
    {
        if self.radius == 0 {
            return None;
        }
        let a: i64 = ray.direction.norm_squared();
        if a <= 0 {
            return None;
        }
        let rel_origin: VecR3 = ray.origin.minus(self.center);
        let half_b: i64 = ray.direction.dot(rel_origin);
        let c: i64 = fsub(rel_origin.norm_squared(), fmul(self.radius, self.radius));
        let quarter_discriminant: i64 = fsub(fmul(half_b, half_b), fmul(a, c));
        if quarter_discriminant < 0 {
            return None;
        }
        let half_sqrt_discriminant: i64 = fsqrt(quarter_discriminant);
        let neg_half_b: i64 = fneg(half_b);
        let t1: i64 = fdiv(fsub(neg_half_b, half_sqrt_discriminant), a);
        let t2: i64 = fdiv(fadd(neg_half_b, half_sqrt_discriminant), a);
        let t: i64 = if t_min < t1 && t1 < t_max {
            t1
        } else if t_min < t2 && t2 < t_max {
            t2
        } else {
            return None;
        };
        let point: VecR3 = ray.at(t);
        let outward_normal: VecR3 = point.minus(self.center).div_by(self.radius);
        let hit: Intersection = Intersection::from_front_normal(
            ray,
            t,
            point,
            outward_normal,
            self.material,
        );
        proof {
            assert(hit_view(hit) == sphere_hit_record(*self, *ray, t as int));
        }
        Some(hit)
    }
}

} // verus!
