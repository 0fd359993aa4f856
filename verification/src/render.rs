//! The radiance integrator and the per-pixel sampling loop.

use vstd::prelude::*;

use crate::camera::Camera;
use crate::camera::cam_ray_post;
use crate::camera::camera_wf;
use crate::colour::Colour;
use crate::colour::Rgb8;
use crate::colour::clamp;
use crate::colour::clamp_s;
use crate::colour::colour_wf;
use crate::colour::fx_to_u8_s;
use crate::colour::to_rgb8;
use crate::fixed::ONE;
use crate::fixed::TWO;
use crate::fixed::fadd;
use crate::fixed::fadd_s;
use crate::fixed::fdiv;
use crate::fixed::fdiv_s;
use crate::fixed::fmul_s;
use crate::fixed::fsqrt;
use crate::fixed::fsqrt_s;
use crate::fixed::fsub;
use crate::fixed::fsub_s;
use crate::fixed::lemma_fdiv_le_one;
use crate::fixed::lemma_fmul_frac_bound;
use crate::fixed::lemma_fmul_one;
use crate::fixed::unit_fraction;
use crate::ray::RayR3;
use crate::surface::Surface;
use crate::surface::intersect_surfaces;
use crate::surface::lemma_scene_hit_props;
use crate::surface::scene_hit;
use crate::surface::world_wf;
use crate::vec3::Vec3;
use crate::vec3::VecR3;
use crate::vec3::v3;
use crate::vec3::vadd_s;
use crate::vec3::vscale_s;
use crate::vec3::vunit_s;
use crate::vec3::vmul_s;
use crate::vec3::vnormsq_s;

verus! {

/// The lower bound of every scene query: a ray never re-intersects the
/// surface it just left closer than this (about 0.001), which prevents
/// shadow acne from representation error at the ray's own origin.
pub const T_MIN_EPS: i64 = 4294967;

/// The red channel of the sky's horizon colour (0.5).
pub const SKY_BLUE_X: i64 = 0x8000_0000;

/// The green channel of the sky's horizon colour (0.7).
pub const SKY_BLUE_Y: i64 = 3006477107;

/// The blue channel of the sky's horizon colour (1.0).
pub const SKY_BLUE_Z: i64 = 0x1_0000_0000;

/// The most samples a pixel accumulates, so sums stay exact.
pub const SAMPLES_CAP: u32 = 1048576;

/// The largest image dimension, so viewport coordinates stay exact.
pub const DIM_CAP: u32 = 1048576;

/// The static sky gradient, the only light source: white at the bottom of
/// the direction's vertical range, sky blue at the top, black only for a
/// degenerate direction.
pub open spec fn sky_colour_s(dir: Vec3<int>) -> Vec3<int> {
    if vnormsq_s(dir) <= 0 {
        Vec3 { x: 0, y: 0, z: 0 }
    } else {
        let uy = vunit_s(dir).y;
        let tt = clamp_s(fdiv_s(fadd_s(uy, ONE as int), TWO as int), 0, ONE as int);
        vadd_s(
            vscale_s(Vec3 { x: ONE as int, y: ONE as int, z: ONE as int }, fsub_s(ONE as int, tt)),
            vscale_s(
                Vec3 { x: SKY_BLUE_X as int, y: SKY_BLUE_Y as int, z: SKY_BLUE_Z as int },
                tt,
            ),
        )
    }
}

/// Evaluate the sky gradient for a ray direction.
fn sky_colour(direction: VecR3) -> (c: Colour)
    ensures
        v3(c) == sky_colour_s(v3(direction)),
        colour_wf(v3(c)),
{
    let nsq: i64 = direction.norm_squared();
    if nsq <= 0 {
        return Vec3::new(0, 0, 0);
    }
    proof {
        crate::vec3::lemma_vnormsq_pos_idot(v3(direction));
    }
    let unit_direction: VecR3 = direction.as_unit();
    let tt: i64 = clamp(fdiv(fadd(unit_direction.y, ONE), TWO), 0, ONE);
    let white: Colour = Vec3::new(ONE, ONE, ONE);
    let blue: Colour = Vec3::new(SKY_BLUE_X, SKY_BLUE_Y, SKY_BLUE_Z);
    let c: Colour = white.scaled(fsub(ONE, tt)).plus(blue.scaled(tt));
    proof {
        lemma_fmul_one(fsub_s(ONE as int, tt as int));
        lemma_fmul_frac_bound(SKY_BLUE_X as int, tt as int);
        lemma_fmul_frac_bound(SKY_BLUE_Y as int, tt as int);
        lemma_fmul_frac_bound(SKY_BLUE_Z as int, tt as int);
    }
    c
}

/// What the integrator returns for one ray: black when the bounce budget
/// is spent; the sky gradient on a miss; and on a hit, for some scatter
/// outcome that the struck material's contract allows, either black on
/// absorption or the attenuation multiplied elementwise into a colour the
/// recursion could itself have returned for the scattered ray.
pub open spec fn radiance_post(world: Seq<Surface>, ray: RayR3, depth: int, c: Vec3<int>) -> bool
    decreases depth,
{
    &&& colour_wf(c)
    &&& (depth <= 0 ==> c == (Vec3::<int> { x: 0, y: 0, z: 0 }))
    &&& (depth > 0 ==> (match scene_hit(world, ray, T_MIN_EPS as int, i64::MAX as int) {
        None => c == sky_colour_s(v3(ray.direction)),
        Some(h) => (exists|sc: Option<(Colour, RayR3)>|
            {
                &&& #[trigger] crate::materials::scatter_post(
                    h.material,
                    ray,
                    h.point,
                    h.normal,
                    h.front_face,
                    sc,
                )
                &&& (match sc {
                    None => c == (Vec3::<int> { x: 0, y: 0, z: 0 }),
                    Some(pair) => (exists|rec: Vec3<int>|
                        #![trigger vmul_s(v3(pair.0), rec)]
                        {
                            &&& radiance_post(world, pair.1, depth - 1, rec)
                            &&& c == vmul_s(v3(pair.0), rec)
                        }),
                })
            }),
    }))
}

/// The depth-bounded recursive radiance estimate of one ray.
///
/// Depth zero is black: the bounce budget is spent. Otherwise the nearest
/// hit past the acne bound scatters; a successful scatter filters the
/// recursive estimate by the attenuation, absorption is black, and a miss
/// falls through to the sky gradient. Every channel of the estimate stays
/// in [0, 1].
pub fn ray_colour(ray: &RayR3, world: &Vec<Surface>, depth: u32, rng: &mut rand::rngs::StdRng) -> (c:
    Colour)
    requires
        world_wf(world@),
    ensures
        colour_wf(v3(c)),
        radiance_post(world@, *ray, depth as int, v3(c)),
    decreases depth,
{
    // Exceeded ray bounce limit; no more light is gathered
    if depth == 0 {
        return Vec3::new(0, 0, 0);
    }
    match intersect_surfaces(world, ray, T_MIN_EPS, i64::MAX) {
        Some(intersection) => {
            proof {
                lemma_scene_hit_props(
                    world@,
                    *ray,
                    T_MIN_EPS as int,
                    0,
                    i64::MAX as int,
                    None,
                );
            }
            let sc: Option<(Colour, RayR3)> = intersection.material.scatter(
                ray,
                &intersection.point,
                &intersection.normal,
                intersection.front_face,
                rng,
            );
            let out: Colour = match sc {
                Some((colour, scatter)) => {
                    let rec: Colour = ray_colour(&scatter, world, depth - 1, rng);
                    let filtered: Colour = colour.elementwise_mul(rec);
                    proof {
                        lemma_fmul_frac_bound(v3(colour).x, v3(rec).x);
                        lemma_fmul_frac_bound(v3(colour).y, v3(rec).y);
                        lemma_fmul_frac_bound(v3(colour).z, v3(rec).z);
                        assert(radiance_post(world@, scatter, depth as int - 1, v3(rec)));
                        assert(v3(filtered) == vmul_s(v3(colour), v3(rec)));
                    }
                    filtered
                },
                None => Vec3::new(0, 0, 0),
            };
            proof {
                let h = crate::surface::hit_view(intersection);
                assert(crate::materials::scatter_post(
                    h.material,
                    *ray,
                    h.point,
                    h.normal,
                    h.front_face,
                    sc,
                ));
                assert(radiance_post(world@, *ray, depth as int, v3(out)));
            }
            out
        },
        None => sky_colour(ray.direction),
    }
}

/// The pixel is the clamped 8-bit quantization of the gamma-corrected
/// average colour `avg`, whose channels lie in [0, 1].
pub open spec fn pixel_from_avg(p: Rgb8, avg: Vec3<int>) -> bool {
    &&& colour_wf(avg)
    &&& p.r as int == fx_to_u8_s(fsqrt_s(avg.x))
    &&& p.g as int == fx_to_u8_s(fsqrt_s(avg.y))
    &&& p.b as int == fx_to_u8_s(fsqrt_s(avg.z))
}

/// A jittered viewport coordinate: pixel index `i` of `n`, plus a
/// fractional offset `d`, over the pixel grid's extent.
pub open spec fn jitter_coord_s(i: int, n: int, d: int) -> int
    recommends
        n >= 2,
{
    fdiv_s(fadd_s(i * (ONE as int), d), (n - 1) * (ONE as int))
}

/// One radiance sample of the pixel at column `xi` and flipped row `yf`:
/// for some pair of jitter draws, the colour is a radiance estimate for a
/// camera ray through the jittered viewport coordinates.
pub open spec fn sample_estimate(
    cam: Camera,
    world: Seq<Surface>,
    xi: int,
    yf: int,
    width: int,
    height: int,
    depth: int,
    c: Vec3<int>,
) -> bool {
    exists|du: int, dv: int, ray: RayR3|
        {
            &&& unit_fraction(du)
            &&& unit_fraction(dv)
            &&& #[trigger] cam_ray_post(
                cam,
                jitter_coord_s(xi, width, du),
                jitter_coord_s(yf, height, dv),
                ray,
            )
            &&& radiance_post(world, ray, depth, c)
        }
}

/// The saturating componentwise sum of a sequence of colours.
pub open spec fn csum(cs: Seq<Vec3<int>>) -> Vec3<int>
    decreases cs.len(),
{
    if cs.len() == 0 {
        Vec3 { x: 0, y: 0, z: 0 }
    } else {
        vadd_s(csum(cs.drop_last()), cs.last())
    }
}

/// The average of a sequence of colours over `samples` draws.
pub open spec fn avg_of(cs: Seq<Vec3<int>>, samples: u32) -> Vec3<int>
    recommends
        samples >= 1,
{
    let s = csum(cs);
    Vec3 {
        x: fdiv_s(s.x, (samples as int) * (ONE as int)),
        y: fdiv_s(s.y, (samples as int) * (ONE as int)),
        z: fdiv_s(s.z, (samples as int) * (ONE as int)),
    }
}

/// The pixel at `(x, y)` is the clamped quantization of the gamma-corrected
/// average of `samples` radiance samples, each an estimate for a jittered
/// camera ray of that pixel.
pub open spec fn pixel_post(
    cam: Camera,
    world: Seq<Surface>,
    x: u32,
    y: u32,
    width: u32,
    height: u32,
    samples: u32,
    depth: u32,
    p: Rgb8,
) -> bool {
    exists|cs: Seq<Vec3<int>>|
        #![trigger avg_of(cs, samples)]
        {
            &&& cs.len() == samples as int
            &&& (forall|i: int|
                0 <= i < cs.len() ==> sample_estimate(
                    cam,
                    world,
                    x as int,
                    (height - 1 - y) as int,
                    width as int,
                    height as int,
                    depth as int,
                    #[trigger] cs[i],
                ))
            &&& pixel_from_avg(p, avg_of(cs, samples))
        }
}

/// One pixel's multi-sample estimate: samples are jittered inside the
/// pixel footprint, traced, averaged, gamma-corrected with an exponent of
/// two, and quantized with clamping.
#[verifier::loop_isolation(false)]
pub fn render_pixel(
    camera: &Camera,
    world: &Vec<Surface>,
    x: u32,
    y: u32,
    width: u32,
    height: u32,
    samples_per_pixel: u32,
    max_depth: u32,
    rng: &mut rand::rngs::StdRng,
) -> (p: Rgb8)
    requires
        world_wf(world@),
        camera_wf(*camera),
        2 <= width <= DIM_CAP,
        2 <= height <= DIM_CAP,
        x < width,
        y < height,
        1 <= samples_per_pixel <= SAMPLES_CAP,
    ensures
        pixel_post(*camera, world@, x, y, width, height, samples_per_pixel, max_depth, p),
{
    let wden: i64 = ((width - 1) as i64) * ONE;
    let hden: i64 = ((height - 1) as i64) * ONE;
    let xfx: i64 = (x as i64) * ONE;
    let yfx: i64 = ((height - 1 - y) as i64) * ONE;
    let mut acc: Colour = Vec3::new(0, 0, 0);
    let mut sample: u32 = 0;
    let ghost mut cs: Seq<Vec3<int>> = Seq::empty();
    while sample < samples_per_pixel
        invariant
            sample <= samples_per_pixel,
            0 <= acc.x <= (sample as int) * (ONE as int),
            0 <= acc.y <= (sample as int) * (ONE as int),
            0 <= acc.z <= (sample as int) * (ONE as int),
            cs.len() == sample as int,
            v3(acc) == csum(cs),
            forall|i: int|
                0 <= i < cs.len() ==> sample_estimate(
                    *camera,
                    world@,
                    x as int,
                    (height - 1 - y) as int,
                    width as int,
                    height as int,
                    max_depth as int,
                    #[trigger] cs[i],
                ),
        decreases samples_per_pixel - sample,
    {
        // (u, v) measure from the bottom left corner
        let du: i64 = crate::rng::next_fraction(rng);
        let dv: i64 = crate::rng::next_fraction(rng);
        let su: i64 = fdiv(fadd(xfx, du), wden);
        let sv: i64 = fdiv(fadd(yfx, dv), hden);
        let ray: RayR3 = camera.get_ray(su, sv, rng);
        let c: Colour = ray_colour(&ray, world, max_depth, rng);
        proof {
            assert((sample as int) * (ONE as int) + (ONE as int) == ((sample + 1) as int) * (
            ONE as int)) by (nonlinear_arith);
            assert(su as int == jitter_coord_s(x as int, width as int, du as int));
            assert(sv as int == jitter_coord_s((height - 1 - y) as int, height as int, dv as int));
            assert(cam_ray_post(
                *camera,
                jitter_coord_s(x as int, width as int, du as int),
                jitter_coord_s((height - 1 - y) as int, height as int, dv as int),
                ray,
            ));
            assert(sample_estimate(
                *camera,
                world@,
                x as int,
                (height - 1 - y) as int,
                width as int,
                height as int,
                max_depth as int,
                v3(c),
            ));
        }
        let ghost prev = cs;
        acc = acc.plus(c);
        sample = sample + 1;
        proof {
            cs = cs.push(v3(c));
            assert(cs.drop_last() == prev);
            assert(cs.last() == v3(c));
            assert(csum(cs) == vadd_s(csum(prev), v3(c)));
            assert forall|i: int| 0 <= i < cs.len() implies sample_estimate(
                *camera,
                world@,
                x as int,
                (height - 1 - y) as int,
                width as int,
                height as int,
                max_depth as int,
                #[trigger] cs[i],
            ) by {
                if i < prev.len() {
                    assert(cs[i] == prev[i]);
                } else {
                    assert(cs[i] == v3(c));
                }
            }
        }
    }
    let denom: i64 = (samples_per_pixel as i64) * ONE;
    proof {
        assert((samples_per_pixel as int) * (ONE as int) <= 0x10_0000_0000_0000_0000i128)
            by (nonlinear_arith)
            requires
                samples_per_pixel <= SAMPLES_CAP,
        ;
        assert((sample as int) * (ONE as int) == denom);
        lemma_fdiv_le_one(acc.x as int, denom as int);
        lemma_fdiv_le_one(acc.y as int, denom as int);
        lemma_fdiv_le_one(acc.z as int, denom as int);
    }
    let avg: Colour = acc.div_by(denom);
    // Gamma-correct for gamma=2
    let gamma: Colour = Vec3::new(fsqrt(avg.x), fsqrt(avg.y), fsqrt(avg.z));
    let p: Rgb8 = to_rgb8(gamma);
    proof {
        assert(v3(avg) == avg_of(cs, samples_per_pixel));
        assert(pixel_from_avg(p, avg_of(cs, samples_per_pixel)));
    }
    p
}

/// The cell at flat row-major index `i` of a frame satisfies the
/// per-pixel contract for its own coordinates.
pub open spec fn cell_post(
    cam: Camera,
    world: Seq<Surface>,
    i: int,
    width: u32,
    height: u32,
    samples: u32,
    depth: u32,
    p: Rgb8,
) -> bool
    recommends
        width >= 1,
{
    pixel_post(
        cam,
        world,
        (i % (width as int)) as u32,
        (i / (width as int)) as u32,
        width,
        height,
        samples,
        depth,
        p,
    )
}

/// Render a whole frame sequentially with one seeded generator: the
/// result is a function of the scene, the camera, the dimensions and the
/// seed alone, so a fixed seed reproduces the image bit for bit. Pixels
/// are produced in row-major order, top row first, and each cell is a
/// multi-sample estimate of its own pixel.
#[verifier::loop_isolation(false)]
pub fn render(
    world: &Vec<Surface>,
    camera: &Camera,
    width: u32,
    height: u32,
    samples_per_pixel: u32,
    max_depth: u32,
    seed: u64,
) -> (buf: Vec<Rgb8>)
    requires
        world_wf(world@),
        camera_wf(*camera),
        2 <= width <= DIM_CAP,
        2 <= height <= DIM_CAP,
        1 <= samples_per_pixel <= SAMPLES_CAP,
    ensures
        buf@.len() == (width as int) * (height as int),
        forall|i: int|
            0 <= i < buf@.len() ==> cell_post(
                *camera,
                world@,
                i,
                width,
                height,
                samples_per_pixel,
                max_depth,
                #[trigger] buf@[i],
            ),
{
    let mut rng: rand::rngs::StdRng = crate::rng::rng_from_seed(seed);
    let mut buf: Vec<Rgb8> = Vec::new();
    let mut yy: u32 = 0;
    while yy < height
        invariant
            yy <= height,
            buf@.len() == (yy as int) * (width as int),
            forall|i: int|
                0 <= i < buf@.len() ==> cell_post(
                    *camera,
                    world@,
                    i,
                    width,
                    height,
                    samples_per_pixel,
                    max_depth,
                    #[trigger] buf@[i],
                ),
        decreases height - yy,
    {
        let mut xx: u32 = 0;
        while xx < width
            invariant
                xx <= width,
                yy < height,
                buf@.len() == (yy as int) * (width as int) + (xx as int),
                forall|i: int|
                    0 <= i < buf@.len() ==> cell_post(
                        *camera,
                        world@,
                        i,
                        width,
                        height,
                        samples_per_pixel,
                        max_depth,
                        #[trigger] buf@[i],
                    ),
            decreases width - xx,
        {
            let p: Rgb8 = render_pixel(
                camera,
                world,
                xx,
                yy,
                width,
                height,
                samples_per_pixel,
                max_depth,
                &mut rng,
            );
            let ghost prev = buf@;
            buf.push(p);
            proof {
                assert(buf@ == prev.push(p));
                vstd::arithmetic::div_mod::lemma_fundamental_div_mod_converse_mod(
                    prev.len() as int,
                    width as int,
                    yy as int,
                    xx as int,
                );
                vstd::arithmetic::div_mod::lemma_fundamental_div_mod_converse_div(
                    prev.len() as int,
                    width as int,
                    yy as int,
                    xx as int,
                );
                assert forall|i: int| 0 <= i < buf@.len() implies cell_post(
                    *camera,
                    world@,
                    i,
                    width,
                    height,
                    samples_per_pixel,
                    max_depth,
                    #[trigger] buf@[i],
                ) by {
                    if i < prev.len() {
                        assert(buf@[i] == prev[i]);
                    } else {
                        assert(buf@[i] == p);
                        assert((i % (width as int)) as u32 == xx);
                        assert((i / (width as int)) as u32 == yy);
                    }
                }
            }
            xx = xx + 1;
        }
        proof {
            assert((yy as int) * (width as int) + (width as int) == ((yy + 1) as int) * (
            width as int)) by (nonlinear_arith);
        }
        yy = yy + 1;
    }
    proof {
        assert((height as int) * (width as int) == (width as int) * (height as int))
            by (nonlinear_arith);
    }
    buf
}

/// Some pair names the cell `k`.
pub open spec fn covers_cell(rs: Seq<(usize, Rgb8)>, k: int) -> bool {
    exists|j: int| 0 <= j < rs.len() && (#[trigger] rs[j]).0 == k
}

/// The unordered `(flat index, pixel)` pairs cover every cell of a buffer
/// of the given size exactly once.
pub open spec fn perfect_cover(rs: Seq<(usize, Rgb8)>, total: int) -> bool {
    &&& rs.len() == total
    &&& forall|j: int| 0 <= j < rs.len() ==> (#[trigger] rs[j]).0 < total
    &&& forall|j1: int, j2: int|
        0 <= j1 < j2 < rs.len() ==> (#[trigger] rs[j1]).0 != (#[trigger] rs[j2]).0
    &&& forall|k: int| 0 <= k < total ==> #[trigger] covers_cell(rs, k)
}

/// Reassemble a frame from per-pixel results that arrive in arbitrary
/// order, as a parallel driver collects them: each pair carries the flat
/// row-major index it belongs to. Succeeds exactly when the pairs cover
/// every cell once; each cell then holds the pixel that named it.
#[verifier::loop_isolation(false)]
pub fn assemble_pixels(results: &Vec<(usize, Rgb8)>, width: u32, height: u32) -> (r: Option<
    Vec<Rgb8>,
>)
    requires
        (width as int) * (height as int) <= usize::MAX,
    ensures
        r is Some <==> perfect_cover(results@, (width as int) * (height as int)),
        r matches Some(buf) ==> {
            &&& buf@.len() == (width as int) * (height as int)
            &&& forall|j: int|
                0 <= j < results@.len() ==> buf@[(#[trigger] results@[j]).0 as int]
                    == results@[j].1
        },
{
    let total: usize = (width as usize) * (height as usize);
    if results.len() != total {
        return None;
    }
    let mut buf: Vec<Rgb8> = Vec::new();
    let mut seen: Vec<bool> = Vec::new();
    let mut k: usize = 0;
    while k < total
        invariant
            k <= total,
            buf@.len() == k,
            seen@.len() == k,
            forall|i: int| 0 <= i < k ==> !(#[trigger] seen@[i]),
        decreases total - k,
    {
        buf.push(Rgb8 { r: 0, g: 0, b: 0 });
        seen.push(false);
        k = k + 1;
    }
    let mut j: usize = 0;
    while j < results.len()
        invariant
            j <= results@.len(),
            buf@.len() == total,
            seen@.len() == total,
            forall|i: int|
                0 <= i < total ==> ((#[trigger] seen@[i]) <==> exists|j0: int|
                    0 <= j0 < j && (#[trigger] results@[j0]).0 == i),
            forall|j0: int|
                0 <= j0 < j ==> (#[trigger] results@[j0]).0 < total && buf@[results@[j0].0 as int]
                    == results@[j0].1,
            forall|j1: int, j2: int|
                0 <= j1 < j2 < j ==> (#[trigger] results@[j1]).0 != (#[trigger] results@[j2]).0,
        decreases results@.len() - j,
    {
        let (idx, pixel): (usize, Rgb8) = results[j];
        if idx >= total {
            proof {
                assert(!perfect_cover(results@, total as int));
            }
            return None;
        }
        if seen[idx] {
            proof {
                let j1 = choose|j0: int| 0 <= j0 < j && (#[trigger] results@[j0]).0 == idx;
                assert(results@[j1].0 == results@[j as int].0);
                assert(!perfect_cover(results@, total as int));
            }
            return None;
        }
        buf.set(idx, pixel);
        seen.set(idx, true);
        j = j + 1;
    }
    let mut k2: usize = 0;
    while k2 < total
        invariant
            k2 <= total,
            seen@.len() == total,
            forall|i: int|
                0 <= i < total ==> ((#[trigger] seen@[i]) <==> exists|j0: int|
                    0 <= j0 < results@.len() && (#[trigger] results@[j0]).0 == i),
            forall|i: int| 0 <= i < k2 ==> #[trigger] seen@[i],
        decreases total - k2,
    {
        if !seen[k2] {
            proof {
                assert(!covers_cell(results@, k2 as int));
                assert(!perfect_cover(results@, total as int));
            }
            return None;
        }
        k2 = k2 + 1;
    }
    proof {
        assert forall|k: int| 0 <= k < total implies #[trigger] covers_cell(results@, k) by {
            assert(seen@[k]);
        }
        assert(perfect_cover(results@, total as int));
    }
    Some(buf)
}

} // verus!
