//! Ray-surface intersection geometry.

use raytracer::fixed::ONE;
use raytracer::materials::{Lambertian, Material, Transparent};
use raytracer::objects::Sphere;
use raytracer::render::T_MIN_EPS;
use raytracer::surface::{intersect_surfaces, Surface};
use raytracer::{Ray, Vec3};

fn v(x: i64, y: i64, z: i64) -> Vec3<i64> {
    Vec3::new(x, y, z)
}

fn grey() -> Material {
    Material::Lambertian(Lambertian::new(v(ONE / 2, ONE / 2, ONE / 2)))
}

#[test]
fn unit_sphere_hit_at_two() {
    let sphere = Sphere::new(v(0, 0, 0), ONE, grey());
    let ray = Ray::new(v(0, 0, 3 * ONE), v(0, 0, -ONE));
    let hit = sphere.intersect(&ray, T_MIN_EPS, i64::MAX).expect("the ray hits");
    assert_eq!(hit.t, 2 * ONE);
    assert_eq!(hit.point, v(0, 0, ONE));
    assert!(hit.front_face);
    assert_eq!(hit.normal, v(0, 0, ONE));
}

#[test]
fn unit_sphere_far_root_at_four() {
    let sphere = Sphere::new(v(0, 0, 0), ONE, grey());
    let ray = Ray::new(v(0, 0, 3 * ONE), v(0, 0, -ONE));
    let hit = sphere.intersect(&ray, 3 * ONE, i64::MAX).expect("the far root is in range");
    assert_eq!(hit.t, 4 * ONE);
    assert_eq!(hit.point, v(0, 0, -ONE));
    assert!(!hit.front_face);
    assert_eq!(hit.normal, v(0, 0, ONE));
}

#[test]
fn ray_aimed_away_misses() {
    let sphere = Sphere::new(v(0, 0, 0), ONE, grey());
    let ray = Ray::new(v(0, 0, 3 * ONE), v(0, 0, ONE));
    assert!(sphere.intersect(&ray, T_MIN_EPS, i64::MAX).is_none());
    let sideways = Ray::new(v(0, 0, 3 * ONE), v(0, ONE, 0));
    assert!(sideways.at(0) == v(0, 0, 3 * ONE));
    assert!(sphere.intersect(&sideways, T_MIN_EPS, i64::MAX).is_none());
}

#[test]
fn hit_outside_range_is_rejected() {
    let sphere = Sphere::new(v(0, 0, 0), ONE, grey());
    let ray = Ray::new(v(0, 0, 3 * ONE), v(0, 0, -ONE));
    assert!(sphere.intersect(&ray, T_MIN_EPS, ONE).is_none());
    assert!(sphere.intersect(&ray, 5 * ONE, 8 * ONE).is_none());
}

#[test]
fn hollow_shell_struck_from_inside() {
    let glass = Material::Transparent(Transparent::new(3 * ONE / 2));
    let outer = Sphere::new(v(0, 0, 0), ONE / 2, glass);
    let inner_radius: i64 = -1717986918; // -0.4
    let inner = Sphere::new(v(0, 0, 0), inner_radius, glass);
    let world = vec![Surface::Sphere(outer), Surface::Sphere(inner)];
    let start: i64 = 1932735283; // 0.45, between the two radii
    let ray = Ray::new(v(0, 0, start), v(0, 0, -ONE));
    let hit = intersect_surfaces(&world, &ray, T_MIN_EPS, i64::MAX).expect("the shell is struck");
    // The inner, negative-radius sphere is nearest, about 0.05 away.
    let expected_t = start - (-inner_radius);
    assert!((hit.t - expected_t).abs() < 16);
    assert!(!hit.front_face);
    assert!(hit.normal.z > 0);
    assert!(matches!(hit.material, Material::Transparent(_)));
}

#[test]
fn scene_returns_nearest_of_two() {
    let near = Sphere::new(v(0, 0, 0), ONE, grey());
    let far = Sphere::new(v(0, 0, -10 * ONE), ONE, grey());
    let world = vec![Surface::Sphere(far), Surface::Sphere(near)];
    let ray = Ray::new(v(0, 0, 3 * ONE), v(0, 0, -ONE));
    let hit = intersect_surfaces(&world, &ray, T_MIN_EPS, i64::MAX).expect("something is struck");
    assert_eq!(hit.t, 2 * ONE);
}

#[test]
fn empty_scene_misses() {
    let world: Vec<Surface> = vec![];
    let ray = Ray::new(v(0, 0, 0), v(0, 0, -ONE));
    assert!(intersect_surfaces(&world, &ray, T_MIN_EPS, i64::MAX).is_none());
}
