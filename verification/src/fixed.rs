//! Q31.32 fixed-point arithmetic over `i64`.
//!
//! A raw value `r` stands for the real number `r / ONE`. Addition,
//! subtraction, negation, multiplication and division saturate at the `i64`
//! range instead of wrapping, so every operation is total (division still
//! needs a non-zero divisor). Multiplication and division round the exact
//! quotient to the nearest representable value, away from zero on ties;
//! the square root rounds to the nearest integer square root of the
//! widened radicand. Each executable operation is pinned to an exact
//! specification-level function, so callers can reason about results
//! without reopening the bodies.

use vstd::arithmetic::div_mod::lemma_div_is_ordered;
use vstd::arithmetic::div_mod::lemma_div_multiples_vanish_fancy;
use vstd::arithmetic::div_mod::lemma_div_pos_is_pos;
use vstd::arithmetic::mul::lemma_mul_is_commutative;
use vstd::prelude::*;

verus! {

/// The fixed-point representation of 1.
pub const ONE: i64 = 0x1_0000_0000;

/// The fixed-point representation of 2.
pub const TWO: i64 = 0x2_0000_0000;

/// Absolute value of a mathematical integer.
pub open spec fn abs_i(x: int) -> int {
    if x < 0 { -x } else { x }
}

/// Clamp a mathematical integer into the `i64` range.
pub open spec fn sat64(x: int) -> int {
    if x > i64::MAX {
        i64::MAX as int
    } else if x < i64::MIN {
        i64::MIN as int
    } else {
        x
    }
}

/// Reattach a sign to a non-negative magnitude.
pub open spec fn signed(neg: bool, m: int) -> int {
    if neg { -m } else { m }
}

/// Divide a non-negative integer by a positive one, rounding the exact
/// quotient to the nearest integer (ties away from zero).
pub open spec fn rdiv(x: int, y: int) -> int
    recommends
        x >= 0,
        y > 0,
{
    (x + y / 2) / y
}

/// Saturating fixed-point addition.
pub open spec fn fadd_s(a: int, b: int) -> int {
    sat64(a + b)
}

/// Saturating fixed-point subtraction.
pub open spec fn fsub_s(a: int, b: int) -> int {
    sat64(a - b)
}

/// Saturating fixed-point negation.
pub open spec fn fneg_s(a: int) -> int {
    sat64(-a)
}

/// Saturating fixed-point multiplication, rounded to nearest.
pub open spec fn fmul_s(a: int, b: int) -> int {
    sat64(signed((a < 0) != (b < 0), rdiv(abs_i(a) * abs_i(b), ONE as int)))
}

/// Saturating fixed-point division, rounded to nearest.
pub open spec fn fdiv_s(a: int, b: int) -> int
    recommends
        b != 0,
{
    sat64(signed((a < 0) != (b < 0), rdiv(abs_i(a) * (ONE as int), abs_i(b))))
}

/// `r` is the integer square root, rounded down, of the non-negative `x`.
pub open spec fn is_sqrt_floor(x: int, r: int) -> bool {
    0 <= r && r * r <= x && x < (r + 1) * (r + 1)
}

/// The integer square root (rounded down) of a non-negative integer.
pub open spec fn sqrt_floor(x: int) -> int
    recommends
        x >= 0,
{
    choose|r: int| is_sqrt_floor(x, r)
}

/// The integer square root rounded to the nearest integer.
pub open spec fn sqrt_round(x: int) -> int
    recommends
        x >= 0,
{
    let f = sqrt_floor(x);
    if x - f * f > f {
        f + 1
    } else {
        f
    }
}

/// Fixed-point square root of a non-negative value, rounded to the nearest
/// integer square root of the widened radicand.
pub open spec fn fsqrt_s(x: int) -> int
    recommends
        x >= 0,
{
    sqrt_round(x * (ONE as int))
}

/// A fixed-point fraction in [0, 1), as the uniform draws produce them.
pub open spec fn unit_fraction(d: int) -> bool {
    0 <= d < ONE
}

/// Dividing non-negative by positive stays non-negative.
pub proof fn lemma_fdiv_nonneg(a: int, b: int)
    requires
        a >= 0,
        b > 0,
    ensures
        fdiv_s(a, b) >= 0,
{
    lemma_div_pos_is_pos(a * (ONE as int) + b / 2, b);
}

/// Multiplying by zero gives zero.
pub proof fn lemma_fmul_zero(a: int)
    ensures
        fmul_s(a, 0) == 0,
        fmul_s(0, a) == 0,
{
    assert(abs_i(a) * abs_i(0int) == 0) by (nonlinear_arith);
    assert(abs_i(0int) * abs_i(a) == 0) by (nonlinear_arith);
    assert(rdiv(0, ONE as int) == 0);
}

/// Multiplying a representable non-negative value by one returns it.
pub proof fn lemma_fmul_one(a: int)
    requires
        0 <= a <= i64::MAX,
    ensures
        fmul_s(a, ONE as int) == a,
        fmul_s(ONE as int, a) == a,
{
    lemma_mul_is_commutative(a, ONE as int);
    lemma_div_multiples_vanish_fancy(a, (ONE as int) / 2, ONE as int);
    assert(rdiv(a * (ONE as int), ONE as int) == a);
    assert(rdiv((ONE as int) * a, ONE as int) == a);
}

/// Multiplying any representable value by one returns it.
pub proof fn lemma_fmul_one_signed(a: int)
    requires
        abs_i(a) <= i64::MAX,
    ensures
        fmul_s(a, ONE as int) == a,
{
    lemma_fmul_one(abs_i(a));
}

/// Multiplying a non-negative value by a fraction in [0, 1] shrinks it.
pub proof fn lemma_fmul_frac_bound(a: int, b: int)
    requires
        0 <= a <= ONE,
        0 <= b <= i64::MAX,
    ensures
        0 <= fmul_s(a, b) <= b,
        0 <= fmul_s(b, a) <= b,
{
    let half = (ONE as int) / 2;
    assert(0 <= a * b <= (ONE as int) * b) by (nonlinear_arith)
        requires
            0 <= a <= ONE as int,
            0 <= b,
    ;
    lemma_mul_is_commutative(a, b);
    lemma_div_pos_is_pos(a * b + half, ONE as int);
    lemma_div_is_ordered(a * b + half, (ONE as int) * b + half, ONE as int);
    lemma_mul_is_commutative(ONE as int, b);
    lemma_div_multiples_vanish_fancy(b, half, ONE as int);
    assert(rdiv((ONE as int) * b, ONE as int) == b);
    assert(0 <= rdiv(a * b, ONE as int) <= b);
}

/// Multiplying a value of magnitude at most one by a non-negative value
/// cannot grow past that value's magnitude.
pub proof fn lemma_fmul_abs_bound(a: int, b: int)
    requires
        abs_i(a) <= ONE,
        0 <= b <= i64::MAX,
    ensures
        abs_i(fmul_s(a, b)) <= b,
{
    let half = (ONE as int) / 2;
    assert(0 <= abs_i(a) * abs_i(b) <= (ONE as int) * b) by (nonlinear_arith)
        requires
            0 <= abs_i(a) <= ONE as int,
            abs_i(b) == b,
            0 <= b,
    ;
    lemma_div_pos_is_pos(abs_i(a) * abs_i(b) + half, ONE as int);
    lemma_div_is_ordered(abs_i(a) * abs_i(b) + half, (ONE as int) * b + half, ONE as int);
    lemma_mul_is_commutative(ONE as int, b);
    lemma_div_multiples_vanish_fancy(b, half, ONE as int);
    assert(0 <= rdiv(abs_i(a) * abs_i(b), ONE as int) <= b);
}

/// Dividing a non-negative value by a bound of it gives at most one.
pub proof fn lemma_fdiv_le_one(a: int, b: int)
    requires
        0 <= a <= b,
        0 < b,
    ensures
        0 <= fdiv_s(a, b) <= ONE,
{
    lemma_div_pos_is_pos(a * (ONE as int) + b / 2, b);
    assert(a * (ONE as int) <= b * (ONE as int)) by (nonlinear_arith)
        requires
            0 <= a <= b,
    ;
    lemma_div_is_ordered(a * (ONE as int) + b / 2, b * (ONE as int) + b / 2, b);
    lemma_mul_is_commutative(b, ONE as int);
    lemma_div_multiples_vanish_fancy(ONE as int, b / 2, b);
    assert(rdiv(b * (ONE as int), b) == ONE);
}

/// The magnitude of an `i64`, widened so that `i64::MIN` has one too.
pub(crate) fn mag(a: i64) -> (m: u128)
    ensures
        m as int == abs_i(a as int),
{
    if a >= 0 {
        a as u128
    } else {
        let n: i128 = -(a as i128);
        n as u128
    }
}

/// Narrow an `i128` into `i64`, saturating at the ends of the range.
fn sat_narrow(s: i128) -> (r: i64)
    ensures
        r as int == sat64(s as int),
{
    if s > i64::MAX as i128 {
        i64::MAX
    } else if s < i64::MIN as i128 {
        i64::MIN
    } else {
        s as i64
    }
}

/// Reattach a sign to a non-negative magnitude, saturating into `i64`.
pub(crate) fn signed_sat(neg: bool, m: u128) -> (r: i64)
    ensures
        r as int == sat64(signed(neg, m as int)),
{
    if neg {
        if m >= 0x8000_0000_0000_0000u128 {
            i64::MIN
        } else {
            -(m as i64)
        }
    } else {
        if m > i64::MAX as u128 {
            i64::MAX
        } else {
            m as i64
        }
    }
}

/// Saturating fixed-point addition.
pub fn fadd(a: i64, b: i64) -> (r: i64)
    ensures
        r as int == fadd_s(a as int, b as int),
{
    sat_narrow(a as i128 + b as i128)
}

/// Saturating fixed-point subtraction.
pub fn fsub(a: i64, b: i64) -> (r: i64)
    ensures
        r as int == fsub_s(a as int, b as int),
{
    sat_narrow(a as i128 - b as i128)
}

/// Saturating fixed-point negation.
pub fn fneg(a: i64) -> (r: i64)
    ensures
        r as int == fneg_s(a as int),
{
    sat_narrow(-(a as i128))
}

/// Saturating fixed-point multiplication, rounded to nearest.
pub fn fmul(a: i64, b: i64) -> (r: i64)
    ensures
        r as int == fmul_s(a as int, b as int),
{
    let ma: u128 = mag(a);
    let mb: u128 = mag(b);
    proof {
        assert(ma * mb <= 0x8000_0000_0000_0000u128 * 0x8000_0000_0000_0000u128)
            by (nonlinear_arith)
            requires
                ma <= 0x8000_0000_0000_0000u128,
                mb <= 0x8000_0000_0000_0000u128,
        ;
    }
    let p: u128 = ma * mb;
    let q: u128 = (p + 0x8000_0000u128) / 0x1_0000_0000u128;
    signed_sat((a < 0) != (b < 0), q)
}

/// Saturating fixed-point division, rounded to nearest.
pub fn fdiv(a: i64, b: i64) -> (r: i64)
    requires
        b != 0,
    ensures
        r as int == fdiv_s(a as int, b as int),
{
    let ma: u128 = mag(a);
    let mb: u128 = mag(b);
    let num: u128 = ma * 0x1_0000_0000u128;
    let q: u128 = (num + mb / 2) / mb;
    signed_sat((a < 0) != (b < 0), q)
}

/// The rounded-down integer square root, by bisection.
pub(crate) fn isqrt128(x: u128) -> (r: u128)
    ensures
        (r as int) * (r as int) <= x as int,
        (x as int) < ((r as int) + 1) * ((r as int) + 1),
        r <= 0xFFFF_FFFF_FFFF_FFFFu128,
{
    let mut lo: u128 = 0;
    let mut hi: u128 = 0x1_0000_0000_0000_0000u128;
    proof {
        assert((x as int) < 0x1_0000_0000_0000_0000int * 0x1_0000_0000_0000_0000int)
            by (nonlinear_arith)
            requires
                x <= u128::MAX,
        ;
    }
    while hi - lo > 1
        invariant
            lo < hi,
            hi <= 0x1_0000_0000_0000_0000u128,
            (lo as int) * (lo as int) <= x as int,
            (x as int) < (hi as int) * (hi as int),
        decreases hi - lo,
    {
        let mid: u128 = lo + (hi - lo) / 2;
        proof {
            assert((mid as int) * (mid as int) < 0x1_0000_0000_0000_0000int
                * 0x1_0000_0000_0000_0000int) by (nonlinear_arith)
                requires
                    mid < 0x1_0000_0000_0000_0000u128,
            ;
        }
        if mid * mid <= x {
            lo = mid;
        } else {
            hi = mid;
        }
    }
    lo
}

/// `sqrt_floor` picks out the unique rounded-down integer square root.
pub proof fn lemma_sqrt_floor_is(x: int, r: int)
    requires
        0 <= r,
        r * r <= x,
        x < (r + 1) * (r + 1),
    ensures
        sqrt_floor(x) == r,
{
    assert(is_sqrt_floor(x, r));
    let c = sqrt_floor(x);
    assert(is_sqrt_floor(x, c)) by {
        assert(exists|q: int| is_sqrt_floor(x, q));
    }
    if c < r {
        assert((c + 1) * (c + 1) <= r * r) by (nonlinear_arith)
            requires
                0 <= c,
                c < r,
        ;
        assert(false);
    }
    if r < c {
        assert((r + 1) * (r + 1) <= c * c) by (nonlinear_arith)
            requires
                0 <= r,
                r < c,
        ;
        assert(false);
    }
}

/// Every non-negative integer has a rounded-down integer square root.
pub proof fn lemma_sqrt_floor_exists(x: int)
    requires
        x >= 0,
    ensures
        is_sqrt_floor(x, sqrt_floor(x)),
    decreases x,
{
    if x == 0 {
        assert(is_sqrt_floor(0, 0));
    } else {
        lemma_sqrt_floor_exists(x - 1);
        let r = sqrt_floor(x - 1);
        if x < (r + 1) * (r + 1) {
            assert(is_sqrt_floor(x, r));
        } else {
            assert((r + 2) * (r + 2) > (r + 1) * (r + 1)) by (nonlinear_arith)
                requires
                    r >= 0,
            ;
            assert(is_sqrt_floor(x, r + 1));
        }
        assert(exists|q: int| is_sqrt_floor(x, q));
    }
}

/// The rounded square root of a value of at least one is at least one.
pub proof fn lemma_sqrt_round_pos(x: int)
    requires
        x >= 1,
    ensures
        sqrt_round(x) >= 1,
{
    lemma_sqrt_floor_exists(x);
    let f = sqrt_floor(x);
    if f == 0 {
        assert((f + 1) * (f + 1) == 1) by (nonlinear_arith)
            requires
                f == 0,
        ;
        assert(false);
    }
}

/// Fixed-point square root, rounded to nearest.
pub fn fsqrt(x: i64) -> (r: i64)
    requires
        x >= 0,
    ensures
        r as int == fsqrt_s(x as int),
        r >= 0,
{
    let xx: u128 = (x as u128) * 0x1_0000_0000u128;
    let f: u128 = isqrt128(xx);
    proof {
        lemma_sqrt_floor_is(xx as int, f as int);
        assert(f < 0x1_0000_0000_0000u128) by (nonlinear_arith)
            requires
                (f as int) * (f as int) <= xx as int,
                xx < 0x1_0000_0000_0000_0000_0000_0000u128,
        ;
    }
    let r0: u128 = if xx - f * f > f {
        f + 1
    } else {
        f
    };
    r0 as i64
}

} // verus!
