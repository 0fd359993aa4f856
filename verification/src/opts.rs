//! Render options, as the configuration layer hands them to the core.

use vstd::prelude::*;

use crate::ratio::Ratio;

verus! {

/// The options a render is configured with. Parsing and validation happen
/// outside the core; a value of this type is assumed well-formed.
#[derive(Clone, Debug)]
pub struct Opts {
    /// Where the finished image is written (unused by the core itself).
    pub output: String,
    /// Ratio of image width over height.
    pub aspect_ratio: Ratio,
    /// Image width in pixels.
    pub width: u32,
    /// Independent samples accumulated per pixel.
    pub samples_per_pixel: u32,
    /// Maximum recursion depth of the integrator.
    pub max_depth: u32,
}

} // verus!
