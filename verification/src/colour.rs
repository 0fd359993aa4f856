//! Colours in linear light, and their quantization to 8-bit channels.

use vstd::prelude::*;

use crate::fixed::ONE;
use crate::fixed::fadd_s;
use crate::fixed::fmul;
use crate::fixed::fmul_s;
use crate::fixed::fsub;
use crate::fixed::fsub_s;
use crate::fixed::lemma_fmul_frac_bound;
use crate::vec3::Vec3;
use crate::vec3::v3;

verus! {

/// An RGB colour: each channel is a fixed-point value, in linear light,
/// meant to lie in [0, 1].
pub type Colour = Vec3<i64>;

/// Channels are clamped to just below one before quantization, so a
/// channel of exactly one cannot overflow the 8-bit range. This is the
/// fixed-point value of 0.999.
pub const CLAMP_MAX: i64 = 4290672328;

/// Every channel of the colour lies in [0, 1].
pub open spec fn colour_wf(c: Vec3<int>) -> bool {
    0 <= c.x <= ONE && 0 <= c.y <= ONE && 0 <= c.z <= ONE
}

/// Clamp into an inclusive range.
pub open spec fn clamp_s(x: int, min: int, max: int) -> int {
    if x > max {
        max
    } else if x < min {
        min
    } else {
        x
    }
}

/// Clamp a value into an inclusive range.
pub fn clamp(x: i64, min: i64, max: i64) -> (r: i64)
    ensures
        r as int == clamp_s(x as int, min as int, max as int),
{
    if x > max {
        max
    } else if x < min {
        min
    } else {
        x
    }
}

/// A channel in [0, 1) scaled into the 8-bit range, after clamping.
pub open spec fn fx_to_u8_s(x: int) -> int {
    (clamp_s(x, 0, CLAMP_MAX as int) * 256) / (ONE as int)
}

/// Convert a fixed-point channel in [0, 1) to u8 with clamping.
pub fn fx_to_u8(x: i64) -> (r: u8)
    ensures
        r as int == fx_to_u8_s(x as int),
{
    let q: i64 = clamp(x, 0, CLAMP_MAX);
    let wide: i128 = (q as i128) * 256 / (ONE as i128);
    wide as u8
}

/// An 8-bit RGB triple, the form a finished pixel takes.
#[derive(Clone, Copy, PartialEq, Eq, Debug)]
pub struct Rgb8 {
    pub r: u8,
    pub g: u8,
    pub b: u8,
}

/// Quantize a colour: clamp each channel and scale it into 8 bits.
pub fn to_rgb8(c: Colour) -> (p: Rgb8)
    ensures
        p.r as int == fx_to_u8_s(c.x as int),
        p.g as int == fx_to_u8_s(c.y as int),
        p.b as int == fx_to_u8_s(c.z as int),
{
    Rgb8 { r: fx_to_u8(c.x), g: fx_to_u8(c.y), b: fx_to_u8(c.z) }
}

/// A colour whose channels are independent uniform fractions in [0, 1).
pub fn random(rng: &mut rand::rngs::StdRng) -> (c: Colour)
    ensures
        0 <= c.x < ONE,
        0 <= c.y < ONE,
        0 <= c.z < ONE,
{
    let r: i64 = crate::rng::next_fraction(rng);
    let g: i64 = crate::rng::next_fraction(rng);
    let b: i64 = crate::rng::next_fraction(rng);
    Vec3 { x: r, y: g, z: b }
}

/// A colour whose channels are independent uniform draws from
/// [low, high): each is `draw * (high - low) + low`.
pub fn random_range(rng: &mut rand::rngs::StdRng, low: i64, high: i64) -> (c: Colour)
    requires
        0 <= low <= high <= ONE,
    ensures
        low <= c.x <= high,
        low <= c.y <= high,
        low <= c.z <= high,
        exists|d: Vec3<int>|
            {
                &&& 0 <= d.x < ONE && 0 <= d.y < ONE && 0 <= d.z < ONE
                &&& c.x as int == fadd_s(fmul_s(d.x, fsub_s(high as int, low as int)), low as int)
                &&& c.y as int == fadd_s(fmul_s(d.y, fsub_s(high as int, low as int)), low as int)
                &&& c.z as int == fadd_s(fmul_s(d.z, fsub_s(high as int, low as int)), low as int)
            },
{
    let range: i64 = fsub(high, low);
    let dr: i64 = crate::rng::next_fraction(rng);
    let dg: i64 = crate::rng::next_fraction(rng);
    let db: i64 = crate::rng::next_fraction(rng);
    proof {
        lemma_fmul_frac_bound(dr as int, range as int);
        lemma_fmul_frac_bound(dg as int, range as int);
        lemma_fmul_frac_bound(db as int, range as int);
    }
    let c = Vec3 {
        x: crate::fixed::fadd(fmul(dr, range), low),
        y: crate::fixed::fadd(fmul(dg, range), low),
        z: crate::fixed::fadd(fmul(db, range), low),
    };
    proof {
        let d = Vec3::<int> { x: dr as int, y: dg as int, z: db as int };
        assert(0 <= d.x < ONE && 0 <= d.y < ONE && 0 <= d.z < ONE);
    }
    c
}

} // verus!
