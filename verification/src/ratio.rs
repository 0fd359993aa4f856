//! An exact integer ratio, used for aspect ratios such as 16:9.

use vstd::prelude::*;

verus! {

/// A ratio `a : b` of two integers.
#[derive(Clone, Copy, PartialEq, Eq, Debug)]
pub struct Ratio {
    a: u32,
    b: u32,
}

impl Ratio {
    /// Build the ratio `a : b`.
    pub fn new(a: u32, b: u32) -> (r: Self)
        requires
            a > 0,
            b > 0,
        ensures
            r.a_part() == a,
            r.b_part() == b,
    {
        Self { a, b }
    }

    /// The first component of the ratio.
    pub closed spec fn a_part(self) -> u32 {
        self.a
    }

    /// The second component of the ratio.
    pub closed spec fn b_part(self) -> u32 {
        self.b
    }

    /// Convert a quantity measured in `a`-units into `b`-units, rounding
    /// down: `x * b / a`.
    pub fn a_to_b(self, x: u32) -> (r: u32)
        requires
            self.a_part() > 0,
            x * self.b_part() / (self.a_part() as int) <= u32::MAX,
        ensures
            r == x * self.b_part() / (self.a_part() as int),
    {
        proof {
            assert((x as int) * (self.b as int) <= 0xFFFF_FFFFu64 * 0xFFFF_FFFFu64)
                by (nonlinear_arith)
                requires
                    0 <= x <= 0xFFFF_FFFFu64,
                    0 <= self.b <= 0xFFFF_FFFFu64,
            ;
        }
        let wide: u64 = (x as u64) * (self.b as u64) / (self.a as u64);
        wide as u32
    }
}

} // verus!
