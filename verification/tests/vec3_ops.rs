//! Vector algebra over the fixed-point scalar.

use raytracer::fixed::{fadd, fdiv, fmul, fneg, fsqrt, fsub, ONE, TWO};
use raytracer::Vec3;

const HALF: i64 = ONE / 2;

fn v(x: i64, y: i64, z: i64) -> Vec3<i64> {
    Vec3::new(x, y, z)
}

#[test]
fn fixed_ops_exact_values() {
    assert_eq!(fadd(ONE, ONE), TWO);
    assert_eq!(fsub(TWO, ONE), ONE);
    assert_eq!(fneg(ONE), -ONE);
    assert_eq!(fmul(HALF, HALF), ONE / 4);
    assert_eq!(fmul(TWO, 3 * ONE), 6 * ONE);
    assert_eq!(fdiv(ONE, TWO), HALF);
    assert_eq!(fdiv(3 * ONE, TWO), 3 * ONE / 2);
    assert_eq!(fsqrt(ONE / 4), HALF);
    assert_eq!(fsqrt(4 * ONE), TWO);
    assert_eq!(fsqrt(0), 0);
}

#[test]
fn fixed_ops_saturate() {
    assert_eq!(fadd(i64::MAX, ONE), i64::MAX);
    assert_eq!(fsub(i64::MIN, ONE), i64::MIN);
    assert_eq!(fneg(i64::MIN), i64::MAX);
    assert_eq!(fmul(i64::MAX, i64::MAX), i64::MAX);
    assert_eq!(fmul(i64::MIN, i64::MAX), i64::MIN);
}

#[test]
fn dot_product_exact() {
    let a = v(ONE, 2 * ONE, 3 * ONE);
    let b = v(4 * ONE, 5 * ONE, 6 * ONE);
    assert_eq!(a.dot(b), 32 * ONE);
    assert_eq!(b.dot(a), 32 * ONE);
}

#[test]
fn cross_product_exact() {
    let x = v(ONE, 0, 0);
    let y = v(0, ONE, 0);
    let z = v(0, 0, ONE);
    assert_eq!(x.cross(y), z);
    assert_eq!(y.cross(z), x);
    assert_eq!(y.cross(x), v(0, 0, -ONE));
}

#[test]
fn elementwise_mul_exact() {
    let a = v(HALF, ONE, 0);
    let b = v(HALF, ONE / 4, ONE);
    assert_eq!(a.elementwise_mul(b), v(ONE / 4, ONE / 4, 0));
}

#[test]
fn vector_sums_and_scaling() {
    let a = v(ONE, -ONE, TWO);
    let b = v(ONE, ONE, -ONE);
    assert_eq!(a.plus(b), v(TWO, 0, ONE));
    assert_eq!(a.minus(b), v(0, -TWO, 3 * ONE));
    assert_eq!(a.negated(), v(-ONE, ONE, -TWO));
    assert_eq!(a.scaled(TWO), v(TWO, -TWO, 4 * ONE));
    assert_eq!(a.div_by(TWO), v(HALF, -HALF, ONE));
}

#[test]
fn norm_of_pythagorean_triple() {
    let a = v(3 * ONE, 4 * ONE, 0);
    assert_eq!(a.norm_squared(), 25 * ONE);
    assert_eq!(a.norm(), 5 * ONE);
}

#[test]
fn as_unit_axis_exact() {
    let a = v(0, 0, -5 * ONE);
    assert_eq!(a.as_unit(), v(0, 0, -ONE));
}

#[test]
fn as_unit_triple_rounded() {
    let u = v(3 * ONE, 4 * ONE, 0).as_unit();
    assert_eq!(u, v(2576980378, 3435973837, 0));
    let nsq = (u.x as f64 / ONE as f64).powi(2) + (u.y as f64 / ONE as f64).powi(2);
    assert!((nsq - 1.0).abs() < 1e-9);
}

#[test]
fn near_zero_threshold() {
    assert!(v(0, 65535, -65535).near_zero());
    assert!(!v(65536, 0, 0).near_zero());
    assert!(!v(0, 0, -65536).near_zero());
}

#[test]
fn reflect_axis_exact() {
    let incident = v(0, 0, -ONE);
    let n = v(0, 0, ONE);
    assert_eq!(incident.reflect(n), v(0, 0, ONE));
}

#[test]
fn reflect_preserves_norm_and_negates_normal_component() {
    let vv = v(3 * ONE, -4 * ONE, 12 * ONE);
    let n = v(0, 0, ONE);
    let r = vv.reflect(n);
    assert_eq!(r, v(3 * ONE, -4 * ONE, -12 * ONE));
    assert_eq!(r.norm_squared(), vv.norm_squared());
    assert_eq!(r.norm(), vv.norm());
    assert_eq!(r.dot(n), -vv.dot(n));
}

#[test]
fn refract_total_internal_reflection() {
    let u = v(ONE, 0, -ONE).as_unit();
    let n = v(0, 0, ONE);
    assert!(u.refract(n, 2 * ONE).is_none());
}

#[test]
fn refract_bends_toward_normal() {
    let u = v(ONE, 0, -ONE).as_unit();
    let n = v(0, 0, ONE);
    let r = u.refract(n, HALF).expect("refraction is possible");
    assert_eq!(r, v(1518500250, 0, -4017574027));
}

#[test]
fn refract_straight_on_is_exact() {
    let u = v(0, 0, -ONE);
    let n = v(0, 0, ONE);
    let r = u.refract(n, 3 * ONE / 2).expect("refraction is possible");
    assert_eq!(r, v(0, 0, -ONE));
}
