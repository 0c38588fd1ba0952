use crate::color::{SRGB_LUMA_B, SRGB_LUMA_G, SRGB_LUMA_R};
use crate::filters::convolution::{
    conv_seq, convolve_gray, gradient_map, magnitude_to_luma_u8_scaled, Kernel,
};
use crate::filters::grayscale::{gray_map, grayscale};
use crate::raster::{Img, Raster};
use vstd::pervasive::unreached;
use vstd::prelude::*;

verus! {

/// The horizontal Sobel kernel, row-major.
pub open spec fn sobel_x_weights() -> Seq<i32> {
    seq![-1i32, 0i32, 1i32, -2i32, 0i32, 2i32, -1i32, 0i32, 1i32]
}

/// The vertical Sobel kernel, row-major.
pub open spec fn sobel_y_weights() -> Seq<i32> {
    seq![-1i32, -2i32, -1i32, 0i32, 0i32, 0i32, 1i32, 2i32, 1i32]
}

/// The Sobel edge map of an RGB image: grayscale reduction with the
/// sRGB luma weights, horizontal and vertical gradients, then the
/// normalized, intensity-scaled magnitude per pixel.
pub open spec fn sobel_map(img: Img, intensity: int) -> Img {
    let gray = gray_map(img, SRGB_LUMA_R as int, SRGB_LUMA_G as int, SRGB_LUMA_B as int);
    let gx = conv_seq(gray, sobel_x_weights(), 3);
    let gy = conv_seq(gray, sobel_y_weights(), 3);
    Img {
        width: img.width,
        height: img.height,
        channels: 1,
        data: gradient_map(gx, gy, intensity),
    }
}

fn sobel_x_kernel() -> (k: Kernel)
    ensures
        k.wf(),
        k.spec_size() == 3,
        k.spec_weights() == sobel_x_weights(),
{
    let mut wts: Vec<i32> = Vec::new();
    wts.push(-1);
    wts.push(0);
    wts.push(1);
    wts.push(-2);
    wts.push(0);
    wts.push(2);
    wts.push(-1);
    wts.push(0);
    wts.push(1);
    proof {
        assert(wts@ =~= sobel_x_weights());
    }
    match Kernel::new(3, wts) {
        Ok(k) => k,
        Err(_) => unreached(),
    }
}

fn sobel_y_kernel() -> (k: Kernel)
    ensures
        k.wf(),
        k.spec_size() == 3,
        k.spec_weights() == sobel_y_weights(),
{
    let mut wts: Vec<i32> = Vec::new();
    wts.push(-1);
    wts.push(-2);
    wts.push(-1);
    wts.push(0);
    wts.push(0);
    wts.push(0);
    wts.push(1);
    wts.push(2);
    wts.push(1);
    proof {
        assert(wts@ =~= sobel_y_weights());
    }
    match Kernel::new(3, wts) {
        Ok(k) => k,
        Err(_) => unreached(),
    }
}

/// Applies Sobel edge detection to an RGB raster: converts to grayscale
/// with the sRGB weights, convolves with the two Sobel kernels, and maps
/// the gradient magnitudes to an intensity-scaled single-channel raster.
/// `intensity` is fixed-point, in units of `1 / color::FIXED_ONE`.
pub fn sobel_edges(img: &Raster, intensity: u32) -> (out: Raster)
    requires
        img.wf(),
        img@.channels == 3,
    ensures
        out.wf(),
        out@ == sobel_map(img@, intensity as int),
        out@.width == img@.width,
        out@.height == img@.height,
        out@.channels == 1,
{
    let gray = grayscale(img, SRGB_LUMA_R, SRGB_LUMA_G, SRGB_LUMA_B);
    let kx = sobel_x_kernel();
    let ky = sobel_y_kernel();
    let gx = match convolve_gray(&gray, &kx) {
        Ok(v) => v,
        Err(_) => unreached(),
    };
    let gy = match convolve_gray(&gray, &ky) {
        Ok(v) => v,
        Err(_) => unreached(),
    };
    let w = gray.width();
    let h = gray.height();
    let res = magnitude_to_luma_u8_scaled(&gx, &gy, w, h, intensity);
    let out = match res {
        Ok(o) => o,
        Err(_) => unreached(),
    };
    proof {
        assert(out@ =~= sobel_map(img@, intensity as int));
    }
    out
}

} // verus!
