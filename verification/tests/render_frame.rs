//! The integrator, the pixel pipeline and frame assembly.

use rand::rngs::StdRng;
use rand::SeedableRng;
use raytracer::colour::{fx_to_u8, to_rgb8, Rgb8};
use raytracer::fixed::ONE;
use raytracer::materials::{Lambertian, Material};
use raytracer::objects::Sphere;
use raytracer::render::{assemble_pixels, ray_colour, render, SKY_BLUE_X, SKY_BLUE_Y, SKY_BLUE_Z};
use raytracer::surface::Surface;
use raytracer::{Camera, Ratio, Ray, Vec3};

fn v(x: i64, y: i64, z: i64) -> Vec3<i64> {
    Vec3::new(x, y, z)
}

fn one_sphere_world() -> Vec<Surface> {
    let albedo = v(ONE / 2, ONE / 2, ONE / 2);
    let sphere = Sphere::new(v(0, 0, -ONE), ONE / 2, Material::Lambertian(Lambertian::new(albedo)));
    vec![Surface::Sphere(sphere)]
}

fn pinhole_camera() -> Camera {
    Camera::new(v(0, 0, 0), v(0, 0, -ONE), v(0, ONE, 0), ONE, ONE, 0, ONE)
}

#[test]
fn depth_zero_is_black() {
    let world = one_sphere_world();
    let ray = Ray::new(v(0, 0, 0), v(0, 0, -ONE));
    let mut rng = StdRng::seed_from_u64(21);
    let c = ray_colour(&ray, &world, 0, &mut rng);
    assert_eq!(c, v(0, 0, 0));
}

#[test]
fn miss_returns_the_sky_gradient() {
    let world: Vec<Surface> = vec![];
    let mut rng = StdRng::seed_from_u64(22);
    let up = Ray::new(v(0, 0, 0), v(0, ONE, 0));
    assert_eq!(ray_colour(&up, &world, 5, &mut rng), v(SKY_BLUE_X, SKY_BLUE_Y, SKY_BLUE_Z));
    let down = Ray::new(v(0, 0, 0), v(0, -ONE, 0));
    assert_eq!(ray_colour(&down, &world, 5, &mut rng), v(ONE, ONE, ONE));
}

#[test]
fn fixed_seed_render_is_bit_identical() {
    let world = one_sphere_world();
    let camera = pinhole_camera();
    let first = render(&world, &camera, 2, 2, 1, 1, 77);
    let second = render(&world, &camera, 2, 2, 1, 1, 77);
    assert_eq!(first.len(), 4);
    assert_eq!(first, second);
}

#[test]
fn render_fills_the_whole_grid() {
    let world = one_sphere_world();
    let camera = pinhole_camera();
    let buf = render(&world, &camera, 4, 3, 1, 2, 5);
    assert_eq!(buf.len(), 12);
}

#[test]
fn pinhole_camera_center_ray_is_exact() {
    let camera = pinhole_camera();
    let mut rng = StdRng::seed_from_u64(23);
    let ray = camera.get_ray(ONE / 2, ONE / 2, &mut rng);
    assert_eq!(ray.origin, v(0, 0, 0));
    assert_eq!(ray.direction, v(0, 0, -ONE));
    let corner = camera.get_ray(0, 0, &mut rng);
    assert_eq!(corner.origin, v(0, 0, 0));
    assert_eq!(corner.direction, v(-ONE, -ONE, -ONE));
}

#[test]
fn quantization_clamps_and_scales() {
    assert_eq!(fx_to_u8(0), 0);
    assert_eq!(fx_to_u8(-ONE), 0);
    assert_eq!(fx_to_u8(ONE / 4), 64);
    assert_eq!(fx_to_u8(ONE / 2), 128);
    assert_eq!(fx_to_u8(ONE), 255);
    assert_eq!(fx_to_u8(i64::MAX), 255);
    let p = to_rgb8(v(0, ONE / 2, ONE));
    assert_eq!((p.r, p.g, p.b), (0, 128, 255));
}

#[test]
fn ratio_converts_dimensions() {
    assert_eq!(Ratio::new(16, 9).a_to_b(400), 225);
    assert_eq!(Ratio::new(3, 2).a_to_b(300), 200);
    assert_eq!(Ratio::new(1, 1).a_to_b(123), 123);
}

#[test]
fn assemble_accepts_a_permutation() {
    let px = |n: u8| Rgb8 { r: n, g: n, b: n };
    let results = vec![(3usize, px(3)), (0usize, px(0)), (2usize, px(2)), (1usize, px(1))];
    let buf = assemble_pixels(&results, 2, 2).expect("a permutation covers the grid");
    assert_eq!(buf.len(), 4);
    for (k, p) in buf.iter().enumerate() {
        assert_eq!(p.r as usize, k);
    }
}

#[test]
fn assemble_rejects_duplicates_and_gaps() {
    let px = |n: u8| Rgb8 { r: n, g: n, b: n };
    let dup = vec![(0usize, px(0)), (0usize, px(1)), (2usize, px(2)), (3usize, px(3))];
    assert!(assemble_pixels(&dup, 2, 2).is_none());
    let out_of_range = vec![(0usize, px(0)), (1usize, px(1)), (2usize, px(2)), (4usize, px(4))];
    assert!(assemble_pixels(&out_of_range, 2, 2).is_none());
    let short = vec![(0usize, px(0))];
    assert!(assemble_pixels(&short, 2, 2).is_none());
}

#[test]
fn one_bounce_into_a_diffuse_sphere_is_black() {
    // A single bounce budget: the hit scatters, the recursive call runs out
    // of depth and contributes nothing, and the attenuation multiplies zero.
    let world = one_sphere_world();
    let ray = Ray::new(v(0, 0, 0), v(0, 0, -ONE));
    let mut rng = StdRng::seed_from_u64(24);
    assert_eq!(ray_colour(&ray, &world, 1, &mut rng), v(0, 0, 0));
}

#[test]
fn radiance_channels_stay_in_unit_range() {
    let world = one_sphere_world();
    let mut rng = StdRng::seed_from_u64(25);
    for k in 0..50 {
        let dir = v(ONE / 8 * (k % 9 - 4), ONE / 8 * (k % 7 - 3), -ONE);
        let c = ray_colour(&Ray::new(v(0, 0, 0), dir), &world, 8, &mut rng);
        assert!(0 <= c.x && c.x <= ONE);
        assert!(0 <= c.y && c.y <= ONE);
        assert!(0 <= c.z && c.z <= ONE);
    }
}

#[test]
fn assemble_accepts_any_order() {
    let total = 30usize;
    let mut results: Vec<(usize, Rgb8)> = Vec::new();
    for k in (0..total).rev() {
        let n = (k % 256) as u8;
        results.push((k, Rgb8 { r: n, g: 0, b: 0 }));
    }
    results.swap(3, 17);
    results.swap(0, 29);
    let buf = assemble_pixels(&results, 6, 5).expect("any order covers the grid");
    assert_eq!(buf.len(), total);
    for (k, p) in buf.iter().enumerate() {
        assert_eq!(p.r as usize, k % 256);
    }
}
