//! Surfaces and ray-surface intersection queries.
//!
//! A surface answers the nearest valid hit of a ray within an open
//! parameter range. The set of primitive shapes is closed, so a surface is
//! a tagged variant; a whole scene is a vector of surfaces queried by a
//! linear scan that narrows the upper search bound as it goes.

use vstd::prelude::*;

use crate::materials::Material;
use crate::objects::sphere::Sphere;
use crate::objects::sphere::sphere_hit;
use crate::ray::RayR3;
use crate::vec3::Vec3;
use crate::vec3::VecR3;
use crate::vec3::v3;
use crate::vec3::vdot_s;
use crate::vec3::vneg_s;

verus! {

/// Details about a ray-surface intersection
#[derive(Clone, Copy, Debug)]
pub struct Intersection {
    /// The ray position at which the intersection occurs
    pub t: i64,
    /// The intersection point
    pub point: VecR3,
    /// The unit normal surface vector at the intersection point
    /// Points from the side of the surface that the ray enters.
    pub normal: VecR3,
    /// Whether the ray enters the front face or the back face of the surface.
    pub front_face: bool,
    /// The material of the struck surface.
    pub material: Material,
}

/// The mathematical view of an intersection record.
pub struct SpecHit {
    pub t: int,
    pub point: Vec3<int>,
    pub normal: Vec3<int>,
    pub front_face: bool,
    pub material: Material,
}

/// View an executable intersection record.
pub open spec fn hit_view(i: Intersection) -> SpecHit {
    SpecHit {
        t: i.t as int,
        point: v3(i.point),
        normal: v3(i.normal),
        front_face: i.front_face,
        material: i.material,
    }
}

/// View an optional intersection record.
pub open spec fn opt_hit_view(r: Option<Intersection>) -> Option<SpecHit> {
    match r {
        None => None,
        Some(i) => Some(hit_view(i)),
    }
}

impl Intersection {
    /// Construct an intersection using a normal pointing from the front face.
    pub fn from_front_normal(
        ray: &RayR3,
        t: i64,
        point: VecR3,
        front_normal: VecR3,
        material: Material,
    ) -> (r: Self)
        ensures
            r.t == t,
            r.point == point,
            r.material == material,
            r.front_face == (vdot_s(v3(ray.direction), v3(front_normal)) < 0),
            r.front_face ==> v3(r.normal) == v3(front_normal),
            !r.front_face ==> v3(r.normal) == vneg_s(v3(front_normal)),
    {
        let front_face: bool = ray.direction.dot(front_normal) < 0;
        let normal: VecR3 = if front_face {
            front_normal
        } else {
            front_normal.negated()
        };
        Self { t, point, normal, front_face, material }
    }
}

/// A surface in 3-dimensional space: a closed set of primitive shapes.
///
/// Supports checking for intersection with a ray.
#[derive(Clone, Copy, Debug)]
pub enum Surface {
    Sphere(Sphere),
}

/// The surface's parameters are well-formed.
pub open spec fn surface_wf(s: Surface) -> bool {
    match s {
        Surface::Sphere(sp) => crate::materials::material_wf(sp.material_s()),
    }
}

/// What intersecting one surface returns.
pub open spec fn surf_hit(s: Surface, ray: RayR3, t_min: int, t_max: int) -> Option<SpecHit> {
    match s {
        Surface::Sphere(sp) => sphere_hit(sp, ray, t_min, t_max),
    }
}

impl Surface {
    /// Intersect a ray with the surface.
    ///
    /// Returns the first intersection that occurs strictly between t_min
    /// and t_max.
    pub fn intersect(&self, ray: &RayR3, t_min: i64, t_max: i64) -> (r: Option<Intersection>)
        ensures
            opt_hit_view(r) == surf_hit(*self, *ray, t_min as int, t_max as int),
    {
        match self {
            Surface::Sphere(sp) => sp.intersect(ray, t_min, t_max),
        }
    }
}

/// One step of the scan: surfaces from `i` on, with the best hit so far in
/// `cur` and the search bound already narrowed to `t_max`.
pub open spec fn scene_hit_from(
    s: Seq<Surface>,
    ray: RayR3,
    t_min: int,
    i: int,
    t_max: int,
    cur: Option<SpecHit>,
) -> Option<SpecHit>
    decreases s.len() - i,
{
    if i < 0 || i >= s.len() {
        cur
    } else {
        match surf_hit(s[i], ray, t_min, t_max) {
            None => scene_hit_from(s, ray, t_min, i + 1, t_max, cur),
            Some(h) => scene_hit_from(s, ray, t_min, i + 1, h.t, Some(h)),
        }
    }
}

/// The nearest hit of a whole scene: scan every surface, narrowing the
/// upper bound to the closest accepted hit as the scan goes.
pub open spec fn scene_hit(s: Seq<Surface>, ray: RayR3, t_min: int, t_max: int) -> Option<
    SpecHit,
> {
    scene_hit_from(s, ray, t_min, 0, t_max, None)
}

/// Every surface of the scene is well-formed.
pub open spec fn world_wf(s: Seq<Surface>) -> bool {
    forall|k: int| 0 <= k < s.len() ==> surface_wf(#[trigger] s[k])
}

/// A hit produced by the scan of a well-formed scene carries a well-formed
/// material, and can only exist when the ray's direction has a positive
/// squared norm.
pub proof fn lemma_scene_hit_props(
    s: Seq<Surface>,
    ray: RayR3,
    t_min: int,
    i: int,
    t_max: int,
    cur: Option<SpecHit>,
)
    requires
        world_wf(s),
        cur matches Some(h) ==> crate::materials::material_wf(h.material),
        cur is Some ==> crate::vec3::vnormsq_s(v3(ray.direction)) > 0,
    ensures
        scene_hit_from(s, ray, t_min, i, t_max, cur) matches Some(h) ==> {
            &&& crate::materials::material_wf(h.material)
            &&& crate::vec3::vnormsq_s(v3(ray.direction)) > 0
        },
    decreases s.len() - i,
{
    if 0 <= i < s.len() {
        match surf_hit(s[i], ray, t_min, t_max) {
            None => {
                lemma_scene_hit_props(s, ray, t_min, i + 1, t_max, cur);
            },
            Some(h) => {
                assert(surface_wf(s[i]));
                lemma_scene_hit_props(s, ray, t_min, i + 1, h.t, Some(h));
            },
        }
    }
}

/// A hit of the scan lies strictly inside the original search range.
pub proof fn lemma_scene_hit_t_range(
    s: Seq<Surface>,
    ray: RayR3,
    t_min: int,
    i: int,
    t_max: int,
    cur: Option<SpecHit>,
    orig: int,
)
    requires
        t_max <= orig,
        cur matches Some(h) ==> t_min < h.t < orig,
    ensures
        scene_hit_from(s, ray, t_min, i, t_max, cur) matches Some(h) ==> t_min < h.t < orig,
    decreases s.len() - i,
{
    if 0 <= i < s.len() {
        match surf_hit(s[i], ray, t_min, t_max) {
            None => {
                lemma_scene_hit_t_range(s, ray, t_min, i + 1, t_max, cur, orig);
            },
            Some(h) => {
                lemma_scene_hit_t_range(s, ray, t_min, i + 1, h.t, Some(h), orig);
            },
        }
    }
}

/// Intersect a ray with a collection of surfaces
pub fn intersect_surfaces(surfaces: &Vec<Surface>, ray: &RayR3, t_min: i64, t_max: i64) -> (r:
    Option<Intersection>)
    ensures
        opt_hit_view(r) == scene_hit(surfaces@, *ray, t_min as int, t_max as int),
        r matches Some(h) ==> t_min < h.t < t_max,
{
    let mut closest: Option<Intersection> = None;
    let mut cur_max: i64 = t_max;
    let n: usize = surfaces.len();
    let mut idx: usize = 0;
    while idx < n
        invariant
            idx <= n,
            n == surfaces@.len(),
            scene_hit(surfaces@, *ray, t_min as int, t_max as int) == scene_hit_from(
                surfaces@,
                *ray,
                t_min as int,
                idx as int,
                cur_max as int,
                opt_hit_view(closest),
            ),
        decreases n - idx,
    {
        match surfaces[idx].intersect(ray, t_min, cur_max) {
            Some(h) => {
                cur_max = h.t;
                closest = Some(h);
            },
            None => {},
        }
        idx = idx + 1;
    }
    proof {
        lemma_scene_hit_t_range(
            surfaces@,
            *ray,
            t_min as int,
            0,
            t_max as int,
            None,
            t_max as int,
        );
    }
    closest
}

} // verus!
