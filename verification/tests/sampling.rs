//! Statistical checks of the stochastic samplers.

use rand::rngs::StdRng;
use rand::SeedableRng;
use raytracer::colour;
use raytracer::fixed::ONE;
use raytracer::vec3::random_unit_vector;

#[test]
fn unit_vectors_have_unit_norm() {
    let mut rng = StdRng::seed_from_u64(42);
    let draws = 20000;
    let mut sums = [0.0f64; 3];
    for _ in 0..draws {
        let u = random_unit_vector(&mut rng);
        let x = u.x as f64 / ONE as f64;
        let y = u.y as f64 / ONE as f64;
        let z = u.z as f64 / ONE as f64;
        let norm_squared = x * x + y * y + z * z;
        assert!((norm_squared - 1.0).abs() < 1e-9);
        sums[0] += x;
        sums[1] += y;
        sums[2] += z;
    }
    for s in sums {
        assert!((s / draws as f64).abs() < 0.05);
    }
}

#[test]
fn random_colour_channels_are_fractions() {
    let mut rng = StdRng::seed_from_u64(3);
    for _ in 0..200 {
        let c = colour::random(&mut rng);
        assert!(0 <= c.x && c.x < ONE);
        assert!(0 <= c.y && c.y < ONE);
        assert!(0 <= c.z && c.z < ONE);
    }
}

#[test]
fn random_range_stays_in_range() {
    let mut rng = StdRng::seed_from_u64(4);
    let low = ONE / 2;
    let high = ONE;
    for _ in 0..200 {
        let c = colour::random_range(&mut rng, low, high);
        assert!(low <= c.x && c.x <= high);
        assert!(low <= c.y && c.y <= high);
        assert!(low <= c.z && c.z <= high);
    }
}
