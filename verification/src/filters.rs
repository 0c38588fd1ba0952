//! Filter trait and built-in filters.
//!
//! Each filter is pure: it consumes an input raster by reference and
//! returns a freshly allocated raster without mutating the original.

use crate::color::{FIXED_ONE, SRGB_LUMA_B, SRGB_LUMA_G, SRGB_LUMA_R};
use crate::error::FilterError;
use crate::raster::{Img, Raster};
use vstd::prelude::*;

/// Ordered-dither (halftone) thresholding.
pub mod binarization;
/// Reusable 2-D convolution utilities for single-channel rasters.
pub mod convolution;
/// Grayscale conversion utilities.
pub mod grayscale;
/// Per-channel inversion utilities.
pub mod invert;
/// Sobel edge detection built on top of the convolution engine.
pub mod sobel;

verus! {

/// Generic trait for applying image filters.
///
/// A filter declares the channel count it consumes (`in_arity`) and the
/// one it produces (`out_arity`), and is total over every well-formed
/// raster of its input arity. Its whole behaviour is pinned down by
/// `spec_apply`, a function on image models.
pub trait Filter: Sized {
    /// Channel count of accepted inputs.
    spec fn in_arity(&self) -> int;

    /// Channel count of produced outputs.
    spec fn out_arity(&self) -> int;

    /// The filter's parameters are within range.
    spec fn valid(&self) -> bool;

    /// The input-to-output mapping this filter realises.
    spec fn spec_apply(&self, input: Img) -> Img;

    /// The declared input arity.
    fn input_arity(&self) -> (a: u8)
        ensures
            a as int == self.in_arity(),
    ;

    /// The declared output arity.
    fn output_arity(&self) -> (a: u8)
        ensures
            a as int == self.out_arity(),
    ;

    /// Transforms `input` into a fresh raster of the same dimensions,
    /// exactly as `spec_apply` describes.
    fn apply(&self, input: &Raster) -> (out: Raster)
        requires
            self.valid(),
            input.wf(),
            input@.channels == self.in_arity(),
        ensures
            out.wf(),
            out@ == self.spec_apply(input@),
            out@.channels == self.out_arity(),
            out@.width == input@.width,
            out@.height == input@.height,
    ;
}

/// Converts an RGB raster to grayscale using weighted channel luminance.
/// The weights are fixed-point, in units of `1 / color::FIXED_ONE`, and
/// must sum to at most one.
pub struct GrayscaleFilter {
    /// Red channel weight.
    pub red: u32,
    /// Green channel weight.
    pub green: u32,
    /// Blue channel weight.
    pub blue: u32,
}

impl GrayscaleFilter {
    /// Creates a grayscale filter with the given fixed-point channel
    /// weights. Rejects weights summing to more than one.
    pub fn new(red: u32, green: u32, blue: u32) -> (r: Result<GrayscaleFilter, FilterError>)
        ensures
            match r {
                Ok(f) => {
                    &&& f == (GrayscaleFilter { red, green, blue })
                    &&& red + green + blue <= FIXED_ONE
                },
                Err(e) => {
                    &&& e == FilterError::InvalidParameter
                    &&& red + green + blue > FIXED_ONE
                },
            },
    {
        if red as u64 + green as u64 + blue as u64 <= FIXED_ONE as u64 {
            Ok(GrayscaleFilter { red, green, blue })
        } else {
            Err(FilterError::InvalidParameter)
        }
    }
}

impl Filter for GrayscaleFilter {
    open spec fn in_arity(&self) -> int {
        3
    }

    open spec fn out_arity(&self) -> int {
        1
    }

    open spec fn valid(&self) -> bool {
        self.red + self.green + self.blue <= FIXED_ONE
    }

    open spec fn spec_apply(&self, input: Img) -> Img {
        grayscale::gray_map(input, self.red as int, self.green as int, self.blue as int)
    }

    fn input_arity(&self) -> u8 {
        3
    }

    fn output_arity(&self) -> u8 {
        1
    }

    fn apply(&self, input: &Raster) -> Raster {
        grayscale::grayscale(input, self.red, self.green, self.blue)
    }
}

/// Ordered-dither (Bayer matrix) halftone on luminance: converts to
/// grayscale with the sRGB weights, then thresholds to pure black and
/// white.
pub struct HalftoneFilter;

impl Filter for HalftoneFilter {
    open spec fn in_arity(&self) -> int {
        3
    }

    open spec fn out_arity(&self) -> int {
        1
    }

    open spec fn valid(&self) -> bool {
        true
    }

    open spec fn spec_apply(&self, input: Img) -> Img {
        binarization::dither_map(
            grayscale::gray_map(
                input,
                SRGB_LUMA_R as int,
                SRGB_LUMA_G as int,
                SRGB_LUMA_B as int,
            ),
        )
    }

    fn input_arity(&self) -> u8 {
        3
    }

    fn output_arity(&self) -> u8 {
        1
    }

    fn apply(&self, input: &Raster) -> Raster {
        let gray = grayscale::grayscale(input, SRGB_LUMA_R, SRGB_LUMA_G, SRGB_LUMA_B);
        binarization::halftoning(&gray)
    }
}

/// Ordered-dither halftone on a raster that is already single-channel:
/// thresholds the one luma channel against the tiled pattern, without
/// any grayscale reduction first.
pub struct DitherFilter;

impl Filter for DitherFilter {
    open spec fn in_arity(&self) -> int {
        1
    }

    open spec fn out_arity(&self) -> int {
        1
    }

    open spec fn valid(&self) -> bool {
        true
    }

    open spec fn spec_apply(&self, input: Img) -> Img {
        binarization::dither_map(input)
    }

    fn input_arity(&self) -> u8 {
        1
    }

    fn output_arity(&self) -> u8 {
        1
    }

    fn apply(&self, input: &Raster) -> Raster {
        binarization::halftoning(input)
    }
}

/// Per-channel inversion (negative) for RGB rasters.
pub struct InvertFilter;

impl Filter for InvertFilter {
    open spec fn in_arity(&self) -> int {
        3
    }

    open spec fn out_arity(&self) -> int {
        3
    }

    open spec fn valid(&self) -> bool {
        true
    }

    open spec fn spec_apply(&self, input: Img) -> Img {
        invert::invert_map(input)
    }

    fn input_arity(&self) -> u8 {
        3
    }

    fn output_arity(&self) -> u8 {
        3
    }

    fn apply(&self, input: &Raster) -> Raster {
        invert::invert_colors(input)
    }
}

/// Sobel edge detection (magnitude of gradient) for RGB rasters.
pub struct SobelFilter {
    /// Fixed-point intensity multiplier applied after normalization, in
    /// units of `1 / color::FIXED_ONE`.
    pub intensity: u32,
}

impl SobelFilter {
    /// Creates a Sobel filter with the given fixed-point intensity
    /// multiplier.
    pub fn new(intensity: u32) -> (f: SobelFilter)
        ensures
            f == (SobelFilter { intensity }),
    {
        SobelFilter { intensity }
    }
}

impl Filter for SobelFilter {
    open spec fn in_arity(&self) -> int {
        3
    }

    open spec fn out_arity(&self) -> int {
        1
    }

    open spec fn valid(&self) -> bool {
        true
    }

    open spec fn spec_apply(&self, input: Img) -> Img {
        sobel::sobel_map(input, self.intensity as int)
    }

    fn input_arity(&self) -> u8 {
        3
    }

    fn output_arity(&self) -> u8 {
        1
    }

    fn apply(&self, input: &Raster) -> Raster {
        sobel::sobel_edges(input, self.intensity)
    }
}

} // verus!
