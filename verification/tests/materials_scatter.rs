//! The scattering policies of the three materials.

use rand::rngs::StdRng;
use rand::SeedableRng;
use raytracer::fixed::ONE;
use raytracer::materials::{Lambertian, Material, Metal, Transparent};
use raytracer::{Ray, Vec3};

fn v(x: i64, y: i64, z: i64) -> Vec3<i64> {
    Vec3::new(x, y, z)
}

#[test]
fn lambertian_never_absorbs() {
    let albedo = v(ONE / 2, ONE / 4, ONE);
    let material = Lambertian::new(albedo);
    let ray = Ray::new(v(0, 0, ONE), v(0, 0, -ONE));
    let point = v(0, 0, 0);
    let normal = v(0, 0, ONE);
    let mut rng = StdRng::seed_from_u64(11);
    for _ in 0..100 {
        let (attenuation, scattered) =
            material.scatter(&ray, &point, &normal, true, &mut rng).expect("diffuse scatters");
        assert_eq!(attenuation, albedo);
        assert_eq!(scattered.origin, point);
    }
}

#[test]
fn transparent_never_absorbs_and_never_attenuates() {
    let material = Transparent::new(3 * ONE / 2);
    let ray = Ray::new(v(0, 0, ONE), v(0, 0, -ONE));
    let point = v(0, 0, 0);
    let normal = v(0, 0, ONE);
    let mut rng = StdRng::seed_from_u64(12);
    for _ in 0..100 {
        let (attenuation, scattered) =
            material.scatter(&ray, &point, &normal, true, &mut rng).expect("glass scatters");
        assert_eq!(attenuation, v(ONE, ONE, ONE));
        assert_eq!(scattered.origin, point);
    }
}

#[test]
fn metal_with_zero_fuzz_obeys_the_mirror_law() {
    let albedo = v(ONE / 2, ONE / 2, ONE / 2);
    let material = Metal::new(albedo, 0);
    let ray = Ray::new(v(0, 0, ONE), v(0, 0, -ONE));
    let point = v(0, 0, 0);
    let normal = v(0, 0, ONE);
    let mut rng = StdRng::seed_from_u64(13);
    let (attenuation, scattered) =
        material.scatter(&ray, &point, &normal, true, &mut rng).expect("the mirror reflects");
    assert_eq!(attenuation, albedo);
    assert_eq!(scattered.origin, point);
    assert_eq!(scattered.direction, v(0, 0, ONE));
}

#[test]
fn metal_absorbs_a_reflection_into_the_surface() {
    let material = Metal::new(v(ONE, ONE, ONE), 0);
    let ray = Ray::new(v(0, 0, ONE), v(0, 0, -ONE));
    let point = v(0, 0, 0);
    let normal = v(0, 0, -ONE);
    let mut rng = StdRng::seed_from_u64(14);
    assert!(material.scatter(&ray, &point, &normal, false, &mut rng).is_none());
}

#[test]
fn metal_new_clamps_fuzz() {
    let albedo = v(ONE, ONE, ONE);
    assert_eq!(Metal::new(albedo, 3 * ONE).fuzz, ONE);
    assert_eq!(Metal::new(albedo, -7).fuzz, 0);
    assert_eq!(Metal::new(albedo, ONE / 2).fuzz, ONE / 2);
}

#[test]
fn material_enum_dispatches() {
    let ray = Ray::new(v(0, 0, ONE), v(0, 0, -ONE));
    let point = v(0, 0, 0);
    let normal = v(0, 0, ONE);
    let mut rng = StdRng::seed_from_u64(15);
    let diffuse = Material::Lambertian(Lambertian::new(v(ONE / 2, ONE / 2, ONE / 2)));
    assert!(diffuse.scatter(&ray, &point, &normal, true, &mut rng).is_some());
    let glass = Material::Transparent(Transparent::new(3 * ONE / 2));
    assert!(glass.scatter(&ray, &point, &normal, true, &mut rng).is_some());
    let mirror = Material::Metal(Metal::new(v(ONE, ONE, ONE), 0));
    let (_, scattered) = mirror.scatter(&ray, &point, &normal, true, &mut rng).expect("reflects");
    assert_eq!(scattered.direction, v(0, 0, ONE));
}
