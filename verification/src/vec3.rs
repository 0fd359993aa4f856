//! 3-dimensional vectors over the fixed-point scalar.
//!
//! The same type serves as a point, a direction and a linear-light colour.
//! Executable arithmetic is pinned, component by component, to the exact
//! fixed-point specification functions of `crate::fixed`; the specification
//! level works on `Vec3<int>`, reached from an executable vector through
//! the `v3` view.

use vstd::prelude::*;

use crate::fixed::ONE;
use crate::fixed::abs_i;
use crate::fixed::fadd;
use crate::fixed::fadd_s;
use crate::fixed::fdiv;
use crate::fixed::fdiv_s;
use crate::fixed::fmul;
use crate::fixed::fmul_s;
use crate::fixed::fneg;
use crate::fixed::fneg_s;
use crate::fixed::fsqrt;
use crate::fixed::fsqrt_s;
use crate::fixed::fsub;
use crate::fixed::fsub_s;

verus! {

/// 3-dimensional vector
#[derive(Clone, Copy, PartialEq, Eq, Debug)]
pub struct Vec3<T> {
    pub x: T,
    pub y: T,
    pub z: T,
}

/// A vector of fixed-point scalars.
pub type VecR3 = Vec3<i64>;

/// Components below this magnitude (about 1.5e-5, the fixed-point analogue
/// of the usual tiny float threshold) count as zero when a scatter
/// direction degenerates.
pub const NEAR_ZERO: i64 = 0x1_0000;

/// Rejection sampling keeps draws whose squared norm exceeds a quarter, so
/// normalizing never amplifies the representation error much.
pub const SHELL_MIN: i64 = 0x4000_0000;

/// The mathematical view of an executable vector.
pub open spec fn v3(v: Vec3<i64>) -> Vec3<int> {
    Vec3 { x: v.x as int, y: v.y as int, z: v.z as int }
}

/// Componentwise fixed-point addition.
pub open spec fn vadd_s(a: Vec3<int>, b: Vec3<int>) -> Vec3<int> {
    Vec3 { x: fadd_s(a.x, b.x), y: fadd_s(a.y, b.y), z: fadd_s(a.z, b.z) }
}

/// Componentwise fixed-point subtraction.
pub open spec fn vsub_s(a: Vec3<int>, b: Vec3<int>) -> Vec3<int> {
    Vec3 { x: fsub_s(a.x, b.x), y: fsub_s(a.y, b.y), z: fsub_s(a.z, b.z) }
}

/// Componentwise fixed-point negation.
pub open spec fn vneg_s(a: Vec3<int>) -> Vec3<int> {
    Vec3 { x: fneg_s(a.x), y: fneg_s(a.y), z: fneg_s(a.z) }
}

/// Fixed-point scaling by a scalar.
pub open spec fn vscale_s(a: Vec3<int>, t: int) -> Vec3<int> {
    Vec3 { x: fmul_s(a.x, t), y: fmul_s(a.y, t), z: fmul_s(a.z, t) }
}

/// Fixed-point division by a scalar.
pub open spec fn vdiv_s(a: Vec3<int>, t: int) -> Vec3<int>
    recommends
        t != 0,
{
    Vec3 { x: fdiv_s(a.x, t), y: fdiv_s(a.y, t), z: fdiv_s(a.z, t) }
}

/// Componentwise (Hadamard) fixed-point product.
pub open spec fn vmul_s(a: Vec3<int>, b: Vec3<int>) -> Vec3<int> {
    Vec3 { x: fmul_s(a.x, b.x), y: fmul_s(a.y, b.y), z: fmul_s(a.z, b.z) }
}

/// Fixed-point inner product.
pub open spec fn vdot_s(a: Vec3<int>, b: Vec3<int>) -> int {
    fadd_s(fadd_s(fmul_s(a.x, b.x), fmul_s(a.y, b.y)), fmul_s(a.z, b.z))
}

/// Fixed-point cross product.
pub open spec fn vcross_s(a: Vec3<int>, b: Vec3<int>) -> Vec3<int> {
    Vec3 {
        x: fsub_s(fmul_s(a.y, b.z), fmul_s(a.z, b.y)),
        y: fsub_s(fmul_s(a.z, b.x), fmul_s(a.x, b.z)),
        z: fsub_s(fmul_s(a.x, b.y), fmul_s(a.y, b.x)),
    }
}

/// Fixed-point squared norm.
pub open spec fn vnormsq_s(a: Vec3<int>) -> int {
    vdot_s(a, a)
}

/// Normalization: each component divided by the rounded square root of
/// the exact squared norm.
pub open spec fn vunit_s(a: Vec3<int>) -> Vec3<int>
    recommends
        idot(a, a) > 0,
{
    vdiv_s(a, crate::fixed::sqrt_round(idot(a, a)))
}

/// Fixed-point reflection of `v` across the normal `n`.
pub open spec fn reflect_s(v: Vec3<int>, n: Vec3<int>) -> Vec3<int> {
    vsub_s(v, vscale_s(n, fadd_s(vdot_s(v, n), vdot_s(v, n))))
}

/// All components are below the degeneracy threshold.
pub open spec fn near_zero_s(a: Vec3<int>) -> bool {
    abs_i(a.x) < NEAR_ZERO && abs_i(a.y) < NEAR_ZERO && abs_i(a.z) < NEAR_ZERO
}

/// The incidence cosine used by refraction: `-dot(v, n)` capped at one.
pub open spec fn refract_cos_s(v: Vec3<int>, n: Vec3<int>) -> int {
    let c = fneg_s(vdot_s(v, n));
    if c > ONE { ONE as int } else { c }
}

/// The discriminant of Snell's law: `1 - eta^2 (1 - cos^2)`. Negative
/// exactly when refraction is geometrically impossible.
pub open spec fn refract_disc_s(v: Vec3<int>, n: Vec3<int>, eta: int) -> int {
    let c = refract_cos_s(v, n);
    fsub_s(ONE as int, fmul_s(fmul_s(eta, eta), fsub_s(ONE as int, fmul_s(c, c))))
}

/// The refracted direction: `eta (v + cos n) - sqrt(disc) n`.
pub open spec fn refract_dir_s(v: Vec3<int>, n: Vec3<int>, eta: int) -> Vec3<int>
    recommends
        refract_disc_s(v, n, eta) >= 0,
{
    let c = refract_cos_s(v, n);
    let perp = vscale_s(vadd_s(v, vscale_s(n, c)), eta);
    vsub_s(perp, vscale_s(n, fsqrt_s(refract_disc_s(v, n, eta))))
}

/// A draw accepted by the rejection sampler: every component is a scaled
/// fraction in [-1, 1) and the squared norm lies inside the shell.
pub open spec fn in_shell(c: Vec3<int>) -> bool {
    &&& -(ONE as int) <= c.x < ONE
    &&& -(ONE as int) <= c.y < ONE
    &&& -(ONE as int) <= c.z < ONE
    &&& SHELL_MIN < vnormsq_s(c) < ONE
}

/// `u` is the normalization of some draw the rejection sampler accepts.
pub open spec fn is_unit_sample(u: Vec3<int>) -> bool {
    exists|c: Vec3<int>| in_shell(c) && u == vunit_s(c)
}

impl<T> Vec3<T> {
    pub fn new(x: T, y: T, z: T) -> (r: Self)
        ensures
            r.x == x,
            r.y == y,
            r.z == z,
    {
        Self { x, y, z }
    }
}

/// The fixed-point square of a value is never negative and never saturates
/// below zero.
pub proof fn lemma_fmul_sq_nonneg(x: int)
    ensures
        0 <= fmul_s(x, x) <= i64::MAX,
{
    assert(abs_i(x) * abs_i(x) >= 0) by (nonlinear_arith)
        requires
            abs_i(x) >= 0,
    ;
    assert(crate::fixed::rdiv(abs_i(x) * abs_i(x), ONE as int) >= 0) by (nonlinear_arith)
        requires
            abs_i(x) * abs_i(x) >= 0,
    ;
}

/// A squared norm lies within [0, i64::MAX].
pub proof fn lemma_vnormsq_bounds(a: Vec3<int>)
    ensures
        0 <= vnormsq_s(a) <= i64::MAX,
{
    lemma_fmul_sq_nonneg(a.x);
    lemma_fmul_sq_nonneg(a.y);
    lemma_fmul_sq_nonneg(a.z);
}

impl Vec3<i64> {
    /// Inner product
    pub fn dot(self, other: Vec3<i64>) -> (r: i64)
        ensures
            r as int == vdot_s(v3(self), v3(other)),
    {
        let p1: i64 = fmul(self.x, other.x);
        let p2: i64 = fmul(self.y, other.y);
        let p3: i64 = fmul(self.z, other.z);
        fadd(fadd(p1, p2), p3)
    }

    /// Elementwise multiplication
    pub fn elementwise_mul(self, other: Vec3<i64>) -> (r: Vec3<i64>)
        ensures
            v3(r) == vmul_s(v3(self), v3(other)),
    {
        Vec3 {
            x: fmul(self.x, other.x),
            y: fmul(self.y, other.y),
            z: fmul(self.z, other.z),
        }
    }

    /// Cross product
    pub fn cross(self, other: Vec3<i64>) -> (r: Vec3<i64>)
        ensures
            v3(r) == vcross_s(v3(self), v3(other)),
    {
        Vec3 {
            x: fsub(fmul(self.y, other.z), fmul(self.z, other.y)),
            y: fsub(fmul(self.z, other.x), fmul(self.x, other.z)),
            z: fsub(fmul(self.x, other.y), fmul(self.y, other.x)),
        }
    }

    /// Square of the Euclidean norm
    pub fn norm_squared(self) -> (r: i64)
        ensures
            r as int == vnormsq_s(v3(self)),
            r >= 0,
    {
        proof {
            lemma_vnormsq_bounds(v3(self));
        }
        self.dot(self)
    }

    /// Euclidean norm: the rounded square root of the exact squared norm,
    /// saturating at the representable range.
    pub fn norm(&self) -> (r: i64)
        ensures
            r as int == crate::fixed::sat64(crate::fixed::sqrt_round(idot(v3(*self), v3(*self)))),
            r >= 0,
    {
        let f: u128 = norm_wide(*self);
        if f > i64::MAX as u128 {
            i64::MAX
        } else {
            f as i64
        }
    }

    /// Rescale to have unit length (the caller guarantees a non-zero norm).
    pub fn as_unit(self) -> (r: Vec3<i64>)
        requires
            idot(v3(self), v3(self)) > 0,
        ensures
            v3(r) == vunit_s(v3(self)),
    {
        let f: u128 = norm_wide(self);
        proof {
            crate::fixed::lemma_sqrt_round_pos(idot(v3(self), v3(self)));
        }
        Vec3 { x: div_round_by(self.x, f), y: div_round_by(self.y, f), z: div_round_by(self.z, f) }
    }

    /// Check if all dimensions are close to zero.
    pub fn near_zero(&self) -> (r: bool)
        ensures
            r == near_zero_s(v3(*self)),
    {
        self.x < NEAR_ZERO && self.x > -NEAR_ZERO && self.y < NEAR_ZERO && self.y > -NEAR_ZERO
            && self.z < NEAR_ZERO && self.z > -NEAR_ZERO
    }

    /// Reflect across a normal
    pub fn reflect(self, normal: Vec3<i64>) -> (r: Vec3<i64>)
        ensures
            v3(r) == reflect_s(v3(self), v3(normal)),
    {
        let d: i64 = self.dot(normal);
        self.minus(normal.scaled(fadd(d, d)))
    }

    /// Refract through a surface with the given ratio of refractive
    /// indices, or report total internal reflection with no result.
    pub fn refract(self, normal: Vec3<i64>, eta_ratio: i64) -> (r: Option<Vec3<i64>>)
        ensures
            refract_disc_s(v3(self), v3(normal), eta_ratio as int) < 0 <==> r is None,
            r matches Some(d) ==> v3(d) == refract_dir_s(v3(self), v3(normal), eta_ratio as int),
    {
        let md: i64 = fneg(self.dot(normal));
        let c: i64 = if md > ONE { ONE } else { md };
        let ec: i64 = fmul(eta_ratio, eta_ratio);
        let disc: i64 = fsub(ONE, fmul(ec, fsub(ONE, fmul(c, c))));
        if disc < 0 {
            None
        } else {
            let perp: Vec3<i64> = self.plus(normal.scaled(c)).scaled(eta_ratio);
            Some(perp.minus(normal.scaled(fsqrt(disc))))
        }
    }

    /// Vector addition
    pub fn plus(self, other: Vec3<i64>) -> (r: Vec3<i64>)
        ensures
            v3(r) == vadd_s(v3(self), v3(other)),
    {
        Vec3 { x: fadd(self.x, other.x), y: fadd(self.y, other.y), z: fadd(self.z, other.z) }
    }

    /// Vector subtraction
    pub fn minus(self, other: Vec3<i64>) -> (r: Vec3<i64>)
        ensures
            v3(r) == vsub_s(v3(self), v3(other)),
    {
        Vec3 { x: fsub(self.x, other.x), y: fsub(self.y, other.y), z: fsub(self.z, other.z) }
    }

    /// Vector negation
    pub fn negated(self) -> (r: Vec3<i64>)
        ensures
            v3(r) == vneg_s(v3(self)),
    {
        Vec3 { x: fneg(self.x), y: fneg(self.y), z: fneg(self.z) }
    }

    /// Scalar multiplication
    pub fn scaled(self, t: i64) -> (r: Vec3<i64>)
        ensures
            v3(r) == vscale_s(v3(self), t as int),
    {
        Vec3 { x: fmul(self.x, t), y: fmul(self.y, t), z: fmul(self.z, t) }
    }

    /// Scalar division
    pub fn div_by(self, t: i64) -> (r: Vec3<i64>)
        requires
            t != 0,
        ensures
            v3(r) == vdiv_s(v3(self), t as int),
    {
        Vec3 { x: fdiv(self.x, t), y: fdiv(self.y, t), z: fdiv(self.z, t) }
    }
}

/// The exact square of one component, widened.
fn sq_wide(c: i64) -> (s: u128)
    ensures
        s as int == (c as int) * (c as int),
        s <= 0x4000_0000_0000_0000_0000_0000_0000_0000u128,
{
    proof {
        assert(0 <= (c as int) * (c as int) <= 0x8000_0000_0000_0000int
            * 0x8000_0000_0000_0000int) by (nonlinear_arith)
            requires
                abs_i(c as int) <= 0x8000_0000_0000_0000int,
        ;
        assert((c as int) * (c as int) == abs_i(c as int) * abs_i(c as int)) by (nonlinear_arith);
    }
    let w: i128 = (c as i128) * (c as i128);
    w as u128
}

/// The rounded square root of the exact squared norm, widened.
fn norm_wide(v: Vec3<i64>) -> (f: u128)
    ensures
        f as int == crate::fixed::sqrt_round(idot(v3(v), v3(v))),
{
    let xx: u128 = sq_wide(v.x) + sq_wide(v.y) + sq_wide(v.z);
    let fl: u128 = crate::fixed::isqrt128(xx);
    proof {
        crate::fixed::lemma_sqrt_floor_is(xx as int, fl as int);
    }
    if xx - fl * fl > fl {
        fl + 1
    } else {
        fl
    }
}

/// Divide one component by the widened norm, rounding to nearest and
/// saturating.
fn div_round_by(c: i64, f: u128) -> (r: i64)
    requires
        f >= 1,
    ensures
        r as int == fdiv_s(c as int, f as int),
{
    let m: u128 = crate::fixed::mag(c);
    let num: u128 = m * 0x1_0000_0000u128;
    let q: u128 = (num + f / 2) / f;
    crate::fixed::signed_sat(c < 0, q)
}

/// A positive fixed-point squared norm forces a positive exact one.
pub proof fn lemma_vnormsq_pos_idot(a: Vec3<int>)
    requires
        vnormsq_s(a) > 0,
    ensures
        idot(a, a) > 0,
{
    lemma_fmul_sq_nonneg(a.x);
    lemma_fmul_sq_nonneg(a.y);
    lemma_fmul_sq_nonneg(a.z);
    assert(a.x * a.x == abs_i(a.x) * abs_i(a.x)) by (nonlinear_arith);
    assert(a.y * a.y == abs_i(a.y) * abs_i(a.y)) by (nonlinear_arith);
    assert(a.z * a.z == abs_i(a.z) * abs_i(a.z)) by (nonlinear_arith);
    assert(a.x * a.x >= 0 && a.y * a.y >= 0 && a.z * a.z >= 0) by (nonlinear_arith);
    if fmul_s(a.x, a.x) > 0 {
        assert(abs_i(a.x) * abs_i(a.x) > 0);
    } else if fmul_s(a.y, a.y) > 0 {
        assert(abs_i(a.y) * abs_i(a.y) > 0);
    } else {
        assert(fmul_s(a.z, a.z) > 0);
        assert(abs_i(a.z) * abs_i(a.z) > 0);
    }
}

/// How many rejected draws the samplers tolerate before they fall back to
/// a fixed value. The shell is accepted with probability well over a third
/// per draw, so the cap is unreachable in practice; it makes termination
/// unconditional.
pub const RETRY_CAP: u64 = 65536;

/// The fallback direction of the sampler is the normalization of an
/// in-shell draw, so even that path returns a unit sample.
proof fn lemma_fallback_unit()
    ensures
        in_shell(Vec3::<int> { x: 0, y: 0, z: 0xC000_0000 }),
        vunit_s(Vec3::<int> { x: 0, y: 0, z: 0xC000_0000 }) == (Vec3::<
            int,
        > { x: 0, y: 0, z: ONE as int }),
{
    let c = Vec3::<int> { x: 0, y: 0, z: 0xC000_0000 };
    assert(0xC000_0000int * 0xC000_0000int == 0x9000_0000_0000_0000int) by (nonlinear_arith);
    assert(abs_i(0int) * abs_i(0int) == 0) by (nonlinear_arith)
        requires
            abs_i(0int) == 0,
    ;
    assert(0int * 0int == 0) by (nonlinear_arith);
    assert(fmul_s(0, 0) == 0);
    assert(fmul_s(0xC000_0000, 0xC000_0000) == 0x9000_0000);
    assert(vnormsq_s(c) == 0x9000_0000);
    assert(idot(c, c) == 0x9000_0000_0000_0000);
    assert(0xC000_0001int * 0xC000_0001int > 0x9000_0000_0000_0000int) by (nonlinear_arith);
    crate::fixed::lemma_sqrt_floor_is(0x9000_0000_0000_0000, 0xC000_0000);
    assert(crate::fixed::sqrt_round(0x9000_0000_0000_0000) == 0xC000_0000);
    assert(fdiv_s(0, 0xC000_0000) == 0);
    assert(fdiv_s(0xC000_0000, 0xC000_0000) == ONE);
}

/// Sample a direction uniformly over the sphere: draw components uniformly
/// in [-1, 1), keep the draw when its squared norm falls inside the shell,
/// and normalize it.
pub fn random_unit_vector(rng: &mut rand::rngs::StdRng) -> (r: Vec3<i64>)
    ensures
        is_unit_sample(v3(r)),
{
    let mut tries: u64 = 0;
    while tries < RETRY_CAP
        invariant
            tries <= RETRY_CAP,
        decreases RETRY_CAP - tries,
    {
        tries = tries + 1;
        let fx: i64 = crate::rng::next_fraction(rng);
        let fy: i64 = crate::rng::next_fraction(rng);
        let fz: i64 = crate::rng::next_fraction(rng);
        let v: Vec3<i64> = Vec3 {
            x: fsub(fadd(fx, fx), ONE),
            y: fsub(fadd(fy, fy), ONE),
            z: fsub(fadd(fz, fz), ONE),
        };
        let nsq: i64 = v.norm_squared();
        if SHELL_MIN < nsq && nsq < ONE {
            proof {
                lemma_vnormsq_pos_idot(v3(v));
            }
            let u: Vec3<i64> = v.as_unit();
            proof {
                assert(in_shell(v3(v)));
                assert(v3(u) == vunit_s(v3(v)));
            }
            return u;
        }
    }
    let u: Vec3<i64> = Vec3 { x: 0, y: 0, z: ONE };
    proof {
        lemma_fallback_unit();
        let c = Vec3::<int> { x: 0, y: 0, z: 0xC000_0000 };
        assert(in_shell(c) && v3(u) == vunit_s(c));
    }
    u
}

/// The exact inner product of integer vectors.
pub open spec fn idot(a: Vec3<int>, b: Vec3<int>) -> int {
    a.x * b.x + a.y * b.y + a.z * b.z
}

/// The exact reflection of `v` across `n`, carried out over the integers at
/// scale `w`: `n` of length `w` stands for the unit normal `n / w`, and the
/// result is the reflected vector times `w * w`.
pub open spec fn ireflect(v: Vec3<int>, n: Vec3<int>, w: int) -> Vec3<int> {
    Vec3 {
        x: v.x * w * w - 2 * idot(v, n) * n.x,
        y: v.y * w * w - 2 * idot(v, n) * n.y,
        z: v.z * w * w - 2 * idot(v, n) * n.z,
    }
}

/// Squaring a difference.
proof fn lemma_sq_diff(x: int, y: int) by (nonlinear_arith)
    ensures
        (x - y) * (x - y) == x * x - 2 * (x * y) + y * y,
{
}

/// Squaring a product, factor by factor.
proof fn lemma_pair_sq(p: int, q: int) by (nonlinear_arith)
    ensures
        (p * q) * (p * q) == (p * p) * (q * q),
{
}

/// Distributing one reflected component over a product.
proof fn lemma_reflect_term(a: int, b: int, c: int, w: int, d: int) by (nonlinear_arith)
    ensures
        (a * w * w - 2 * d * b) * c == (a * c) * (w * w) - (2 * d) * (b * c),
{
}

/// The square of one reflected component.
proof fn lemma_reflect_sq_term(a: int, b: int, w: int, d: int)
    ensures
        (a * w * w - 2 * d * b) * (a * w * w - 2 * d * b) == (a * a) * ((w * w) * (w * w)) - (4 * d)
            * ((a * b) * (w * w)) + (4 * (d * d)) * (b * b),
{
    let x = a * (w * w);
    let y = (2 * d) * b;
    assert(a * w * w == a * (w * w)) by (nonlinear_arith);
    lemma_sq_diff(x, y);
    lemma_pair_sq(a, w * w);
    lemma_pair_sq(2 * d, b);
    assert(((2 * d) * (2 * d)) * (b * b) == (4 * (d * d)) * (b * b)) by (nonlinear_arith);
    assert(2 * ((a * (w * w)) * ((2 * d) * b)) == (4 * d) * ((a * b) * (w * w)))
        by (nonlinear_arith);
}

/// Mirror law of reflection, at the level of the exact algebra: reflecting
/// any vector `v` across a unit normal (an integer vector `n` of length
/// `w`, standing for `n / w`) preserves the squared norm and negates the
/// component along the normal. The executable `reflect` computes the same
/// vector with each component rounded to the nearest representable value.
pub proof fn lemma_reflect_mirror(v: Vec3<int>, n: Vec3<int>, w: int)
    requires
        idot(n, n) == w * w,
    ensures
        idot(ireflect(v, n, w), n) == -(w * w) * idot(v, n),
        idot(ireflect(v, n, w), ireflect(v, n, w)) == (w * w) * (w * w) * idot(v, v),
{
    let d = idot(v, n);
    let s = idot(n, n);
    let r1 = ireflect(v, n, w);
    lemma_reflect_term(v.x, n.x, n.x, w, d);
    lemma_reflect_term(v.y, n.y, n.y, w, d);
    lemma_reflect_term(v.z, n.z, n.z, w, d);
    assert(idot(r1, n) == (v.x * n.x) * (w * w) - (2 * d) * (n.x * n.x) + ((v.y * n.y) * (w * w) - (
    2 * d) * (n.y * n.y)) + ((v.z * n.z) * (w * w) - (2 * d) * (n.z * n.z)));
    assert((v.x * n.x) * (w * w) + (v.y * n.y) * (w * w) + (v.z * n.z) * (w * w) == d * (w * w))
        by (nonlinear_arith)
        requires
            d == v.x * n.x + v.y * n.y + v.z * n.z,
    ;
    assert((2 * d) * (n.x * n.x) + (2 * d) * (n.y * n.y) + (2 * d) * (n.z * n.z) == (2 * d) * (w
        * w)) by (nonlinear_arith)
        requires
            n.x * n.x + n.y * n.y + n.z * n.z == w * w,
    ;
    assert(d * (w * w) - (2 * d) * (w * w) == -(w * w) * d) by (nonlinear_arith);
    lemma_reflect_sq_term(v.x, n.x, w, d);
    lemma_reflect_sq_term(v.y, n.y, w, d);
    lemma_reflect_sq_term(v.z, n.z, w, d);
    assert(idot(r1, r1) == (v.x * v.x) * ((w * w) * (w * w)) - (4 * d) * ((v.x * n.x) * (w * w)) + (
    4 * (d * d)) * (n.x * n.x) + ((v.y * v.y) * ((w * w) * (w * w)) - (4 * d) * ((v.y * n.y) * (w
        * w)) + (4 * (d * d)) * (n.y * n.y)) + ((v.z * v.z) * ((w * w) * (w * w)) - (4 * d) * ((v.z
        * n.z) * (w * w)) + (4 * (d * d)) * (n.z * n.z)));
    assert((v.x * v.x) * ((w * w) * (w * w)) + (v.y * v.y) * ((w * w) * (w * w)) + (v.z * v.z) * ((w
        * w) * (w * w)) == idot(v, v) * ((w * w) * (w * w))) by (nonlinear_arith)
        requires
            idot(v, v) == v.x * v.x + v.y * v.y + v.z * v.z,
    ;
    assert((4 * d) * ((v.x * n.x) * (w * w)) + (4 * d) * ((v.y * n.y) * (w * w)) + (4 * d) * ((v.z
        * n.z) * (w * w)) == (4 * d) * (d * (w * w))) by (nonlinear_arith)
        requires
            d == v.x * n.x + v.y * n.y + v.z * n.z,
    ;
    assert((4 * (d * d)) * (n.x * n.x) + (4 * (d * d)) * (n.y * n.y) + (4 * (d * d)) * (n.z * n.z)
        == (4 * (d * d)) * (w * w)) by (nonlinear_arith)
        requires
            n.x * n.x + n.y * n.y + n.z * n.z == w * w,
    ;
    assert(idot(v, v) * ((w * w) * (w * w)) - (4 * d) * (d * (w * w)) + (4 * (d * d)) * (w * w) == (
    w * w) * (w * w) * idot(v, v)) by (nonlinear_arith);
}

/// Mirror law of the executable arithmetic, for the canonical axis
/// normal: reflecting across `(0, 0, 1)` negates the third component
/// exactly, so the computed reflection keeps the fixed-point squared norm
/// and negates the fixed-point normal component. (The other axis normals
/// behave the same by symmetry; a general unit normal incurs rounding,
/// and the exact statement is `lemma_reflect_mirror`.)
pub proof fn lemma_reflect_mirror_axis(v: Vec3<i64>)
    requires
        abs_i(2 * (v.z as int)) <= i64::MAX,
    ensures
        reflect_s(v3(v), v3(Vec3::<i64> { x: 0, y: 0, z: ONE })) == (Vec3::<
            int,
        > { x: v.x as int, y: v.y as int, z: -(v.z as int) }),
        vnormsq_s(reflect_s(v3(v), v3(Vec3::<i64> { x: 0, y: 0, z: ONE }))) == vnormsq_s(v3(v)),
        vdot_s(reflect_s(v3(v), v3(Vec3::<i64> { x: 0, y: 0, z: ONE })), v3(Vec3::<
            i64,
        > { x: 0, y: 0, z: ONE })) == fneg_s(vdot_s(v3(v), v3(Vec3::<i64> { x: 0, y: 0, z: ONE }))),
{
    let n = v3(Vec3::<i64> { x: 0, y: 0, z: ONE });
    crate::fixed::lemma_fmul_zero(v.x as int);
    crate::fixed::lemma_fmul_zero(v.y as int);
    crate::fixed::lemma_fmul_one_signed(v.z as int);
    crate::fixed::lemma_fmul_one_signed(-(v.z as int));
    let d = vdot_s(v3(v), n);
    assert(d == v.z as int);
    crate::fixed::lemma_fmul_zero(fadd_s(d, d));
    crate::fixed::lemma_fmul_one_signed(fadd_s(d, d));
    assert(fmul_s(ONE as int, fadd_s(d, d)) == fmul_s(fadd_s(d, d), ONE as int)) by {
        assert(abs_i(ONE as int) * abs_i(fadd_s(d, d)) == abs_i(fadd_s(d, d)) * abs_i(
            ONE as int,
        )) by (nonlinear_arith);
    }
    let r = reflect_s(v3(v), n);
    assert(r == (Vec3::<int> { x: v.x as int, y: v.y as int, z: -(v.z as int) }));
    assert(abs_i(-(v.z as int)) == abs_i(v.z as int));
    assert(vdot_s(r, n) == -(v.z as int));
}

} // verus!
