use vstd::prelude::*;

verus! {

/// Denominator of the fixed-point weights and multipliers used throughout
/// the crate: a weight of `w` stands for the fraction `w / FIXED_ONE`.
pub const FIXED_ONE: u32 = 10000;

/// Half of [`FIXED_ONE`], the bias that turns truncating division by
/// `FIXED_ONE` into round-half-up.
pub const FIXED_HALF: u32 = 5000;

/// sRGB luminance weight of the red channel, in units of `1 / FIXED_ONE`.
pub const SRGB_LUMA_R: u32 = 2126;

/// sRGB luminance weight of the green channel, in units of `1 / FIXED_ONE`.
pub const SRGB_LUMA_G: u32 = 7152;

/// sRGB luminance weight of the blue channel, in units of `1 / FIXED_ONE`.
pub const SRGB_LUMA_B: u32 = 722;

} // verus!
