//! The camera: an immutable viewing basis that produces rays on demand,
//! with thin-lens depth-of-field sampling.

use vstd::prelude::*;

use crate::fixed::ONE;
use crate::fixed::TWO;
use crate::fixed::abs_i;
use crate::fixed::fadd;
use crate::fixed::fadd_s;
use crate::fixed::fdiv;
use crate::fixed::fdiv_s;
use crate::fixed::fmul;
use crate::fixed::fmul_s;
use crate::fixed::fsub;
use crate::fixed::lemma_fdiv_nonneg;
use crate::fixed::lemma_fmul_abs_bound;
use crate::fixed::lemma_fmul_zero;
use crate::ray::RayR3;
use crate::vec3::RETRY_CAP;
use crate::vec3::Vec3;
use crate::vec3::VecR3;
use crate::vec3::v3;
use crate::vec3::vadd_s;
use crate::vec3::vcross_s;
use crate::vec3::vdiv_s;
use crate::vec3::vnormsq_s;
use crate::vec3::vscale_s;
use crate::vec3::vsub_s;
use crate::vec3::vunit_s;

verus! {

/// The camera: an immutable basis derived once from scene setup.
#[derive(Clone, Copy, Debug)]
pub struct Camera {
    origin: VecR3,
    lower_left_corner: VecR3,
    horizontal: VecR3,
    vertical: VecR3,
    u: VecR3,
    v: VecR3,
    lens_radius: i64,
}

/// The backward axis of the viewing basis: from the target to the eye.
pub open spec fn cam_w_s(lookfrom: VecR3, lookat: VecR3) -> Vec3<int> {
    vunit_s(vsub_s(v3(lookfrom), v3(lookat)))
}

/// The right axis of the viewing basis.
pub open spec fn cam_u_s(lookfrom: VecR3, lookat: VecR3, vup: VecR3) -> Vec3<int> {
    vunit_s(vcross_s(v3(vup), cam_w_s(lookfrom, lookat)))
}

/// The true-up axis of the viewing basis.
pub open spec fn cam_v_s(lookfrom: VecR3, lookat: VecR3, vup: VecR3) -> Vec3<int> {
    vcross_s(cam_w_s(lookfrom, lookat), cam_u_s(lookfrom, lookat, vup))
}

/// A camera's lens radius is never negative.
pub open spec fn camera_wf(c: Camera) -> bool {
    c.lens_radius_s() >= 0
}

/// Where a ray leaves the lens, given the sampled lens offsets.
pub open spec fn cam_ray_origin_s(c: Camera, dx: int, dy: int) -> Vec3<int> {
    vadd_s(v3(c.origin_s()), vadd_s(vscale_s(v3(c.u_s()), dx), vscale_s(v3(c.v_s()), dy)))
}

/// Where a ray points: through the viewport coordinate `(s, t)`, back from
/// the (possibly offset) origin.
pub open spec fn cam_ray_dir_s(c: Camera, s: int, t: int, origin: Vec3<int>) -> Vec3<int> {
    vsub_s(
        vadd_s(
            vadd_s(v3(c.lower_left_s()), vscale_s(v3(c.horizontal_s()), s)),
            vscale_s(v3(c.vertical_s()), t),
        ),
        origin,
    )
}

/// The ray is the camera's answer for viewport coordinate `(s, t)` and
/// some lens-disk sample: the origin is the eye offset along the basis by
/// the sample, and the direction runs from there through the viewport.
pub open spec fn cam_ray_post(c: Camera, s: int, t: int, r: RayR3) -> bool {
    exists|d: (i64, i64)|
        {
            &&& #[trigger] disk_sample(d, c.lens_radius_s() as int)
            &&& v3(r.origin) == cam_ray_origin_s(c, d.0 as int, d.1 as int)
            &&& v3(r.direction) == cam_ray_dir_s(
                c,
                s,
                t,
                cam_ray_origin_s(c, d.0 as int, d.1 as int),
            )
        }
}

/// The pair is some accepted draw from the unit disk, scaled by the lens
/// radius.
pub open spec fn disk_sample(p: (i64, i64), radius: int) -> bool {
    exists|x: int, y: int|
        {
            &&& #[trigger] fadd_s(fmul_s(x, x), fmul_s(y, y)) < ONE
            &&& abs_i(x) <= ONE
            &&& abs_i(y) <= ONE
            &&& p.0 as int == fmul_s(x, radius)
            &&& p.1 as int == fmul_s(y, radius)
        }
}

/// Sample a point from the uniform distribution on a disk of the given
/// radius, by rejection from the surrounding square. Falls back to the
/// disk's center if the retry budget is ever exhausted.
fn random_uniform_circle(radius: i64, rng: &mut rand::rngs::StdRng) -> (p: (i64, i64))
    requires
        radius >= 0,
    ensures
        disk_sample(p, radius as int),
        abs_i(p.0 as int) <= radius,
        abs_i(p.1 as int) <= radius,
        radius == 0 ==> p.0 == 0 && p.1 == 0,
{
    let mut tries: u64 = 0;
    while tries < RETRY_CAP
        invariant
            tries <= RETRY_CAP,
            radius >= 0,
        decreases RETRY_CAP - tries,
    {
        tries = tries + 1;
        let fx: i64 = crate::rng::next_fraction(rng);
        let fy: i64 = crate::rng::next_fraction(rng);
        let x: i64 = fsub(fadd(fx, fx), ONE);
        let y: i64 = fsub(fadd(fy, fy), ONE);
        if fadd(fmul(x, x), fmul(y, y)) < ONE {
            proof {
                lemma_fmul_abs_bound(x as int, radius as int);
                lemma_fmul_abs_bound(y as int, radius as int);
                if radius == 0 {
                    lemma_fmul_zero(x as int);
                    lemma_fmul_zero(y as int);
                }
            }
            let p: (i64, i64) = (fmul(x, radius), fmul(y, radius));
            proof {
                assert(fadd_s(fmul_s(x as int, x as int), fmul_s(y as int, y as int)) < ONE
                    && abs_i(x as int) <= ONE && abs_i(y as int) <= ONE && p.0 as int == fmul_s(
                    x as int,
                    radius as int,
                ) && p.1 as int == fmul_s(y as int, radius as int));
            }
            return p;
        }
    }
    let p: (i64, i64) = (0, 0);
    proof {
        lemma_fmul_zero(0);
        lemma_fmul_zero(radius as int);
        assert(fadd_s(fmul_s(0, 0), fmul_s(0, 0)) < ONE && abs_i(0int) <= ONE && p.0 as int
            == fmul_s(0, radius as int) && p.1 as int == fmul_s(0, radius as int));
    }
    p
}

impl Camera {
    /// The eye position.
    pub closed spec fn origin_s(self) -> VecR3 {
        self.origin
    }

    /// The bottom-left corner of the viewport, in world space.
    pub closed spec fn lower_left_s(self) -> VecR3 {
        self.lower_left_corner
    }

    /// The full-width viewport edge.
    pub closed spec fn horizontal_s(self) -> VecR3 {
        self.horizontal
    }

    /// The full-height viewport edge.
    pub closed spec fn vertical_s(self) -> VecR3 {
        self.vertical
    }

    /// The right axis.
    pub closed spec fn u_s(self) -> VecR3 {
        self.u
    }

    /// The true-up axis.
    pub closed spec fn v_s(self) -> VecR3 {
        self.v
    }

    /// The lens radius: half the aperture.
    pub closed spec fn lens_radius_s(self) -> i64 {
        self.lens_radius
    }

    /// Create a new camera
    ///
    /// # Arguments
    /// * `lookfrom` - Where the camera is located.
    /// * `lookat` - Where the camera is looking.
    /// * `vup` - Vertical up direction for the camera (will be projected onto viewport).
    /// * `tan_half_vfov` - The tangent of half the vertical field of view.
    /// * `aspect_ratio` - Ratio of width over height.
    /// * `aperture` - Diameter of the aperture; influences focus blur.
    /// * `focus_distance` - Distance at which objects are in focus.
    pub fn new(
        lookfrom: VecR3,
        lookat: VecR3,
        vup: VecR3,
        tan_half_vfov: i64,
        aspect_ratio: i64,
        aperture: i64,
        focus_distance: i64,
    ) -> (cam: Self)
        requires
            vnormsq_s(vsub_s(v3(lookfrom), v3(lookat))) > 0,
            vnormsq_s(vcross_s(v3(vup), cam_w_s(lookfrom, lookat))) > 0,
            aperture >= 0,
        ensures
            camera_wf(cam),
            cam.origin_s() == lookfrom,
            v3(cam.u_s()) == cam_u_s(lookfrom, lookat, vup),
            v3(cam.v_s()) == cam_v_s(lookfrom, lookat, vup),
            v3(cam.horizontal_s()) == vscale_s(
                vscale_s(
                    cam_u_s(lookfrom, lookat, vup),
                    fmul_s(aspect_ratio as int, fadd_s(tan_half_vfov as int, tan_half_vfov as int)),
                ),
                focus_distance as int,
            ),
            v3(cam.vertical_s()) == vscale_s(
                vscale_s(
                    cam_v_s(lookfrom, lookat, vup),
                    fadd_s(tan_half_vfov as int, tan_half_vfov as int),
                ),
                focus_distance as int,
            ),
            v3(cam.lower_left_s()) == vsub_s(
                vsub_s(
                    vsub_s(v3(lookfrom), vdiv_s(v3(cam.horizontal_s()), TWO as int)),
                    vdiv_s(v3(cam.vertical_s()), TWO as int),
                ),
                vscale_s(cam_w_s(lookfrom, lookat), focus_distance as int),
            ),
            cam.lens_radius_s() as int == fdiv_s(aperture as int, TWO as int),
    {
        let viewport_height: i64 = fadd(tan_half_vfov, tan_half_vfov);
        let viewport_width: i64 = fmul(aspect_ratio, viewport_height);

        let diff: VecR3 = lookfrom.minus(lookat);
        proof {
            crate::vec3::lemma_vnormsq_pos_idot(v3(diff));
        }
        let w: VecR3 = diff.as_unit();
        let crossed: VecR3 = vup.cross(w);
        proof {
            crate::vec3::lemma_vnormsq_pos_idot(v3(crossed));
        }
        let u: VecR3 = crossed.as_unit();
        let v: VecR3 = w.cross(u);

        let origin: VecR3 = lookfrom;
        let horizontal: VecR3 = u.scaled(viewport_width).scaled(focus_distance);
        let vertical: VecR3 = v.scaled(viewport_height).scaled(focus_distance);
        let lower_left_corner: VecR3 = origin.minus(horizontal.div_by(TWO)).minus(
            vertical.div_by(TWO),
        ).minus(w.scaled(focus_distance));
        let lens_radius: i64 = fdiv(aperture, TWO);
        proof {
            lemma_fdiv_nonneg(aperture as int, TWO as int);
        }

        Self { origin, horizontal, vertical, lower_left_corner, u, v, lens_radius }
    }

    /// Create a ray through a coordinate on the viewport.
    ///
    /// s in [0, 1] measures from the left to right side of the viewport.
    /// t in [0, 1] measures from the bottom to top of the viewport.
    /// The origin is jittered over the lens disk; a zero aperture is an
    /// exact pinhole.
    pub fn get_ray(&self, s: i64, t: i64, rng: &mut rand::rngs::StdRng) -> (r: RayR3)
        requires
            camera_wf(*self),
        ensures
            cam_ray_post(*self, s as int, t as int, r),
            self.lens_radius_s() == 0 ==> {
                &&& v3(r.origin) == cam_ray_origin_s(*self, 0, 0)
                &&& v3(r.direction) == cam_ray_dir_s(
                    *self,
                    s as int,
                    t as int,
                    cam_ray_origin_s(*self, 0, 0),
                )
            },
    {
        let (dx, dy): (i64, i64) = random_uniform_circle(self.lens_radius, rng);
        let offset: VecR3 = self.u.scaled(dx).plus(self.v.scaled(dy));

        let origin: VecR3 = self.origin.plus(offset);
        let direction: VecR3 = self.lower_left_corner.plus(self.horizontal.scaled(s)).plus(
            self.vertical.scaled(t),
        ).minus(origin);
        proof {
            assert(disk_sample((dx, dy), self.lens_radius_s() as int) && v3(origin)
                == cam_ray_origin_s(*self, dx as int, dy as int) && v3(direction)
                == cam_ray_dir_s(
                *self,
                s as int,
                t as int,
                cam_ray_origin_s(*self, dx as int, dy as int),
            ));
        }
        RayR3 { origin, direction }
    }
}

} // verus!
