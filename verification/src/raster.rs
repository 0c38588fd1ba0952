use crate::error::FilterError;
use vstd::arithmetic::div_mod::lemma_fundamental_div_mod_converse;
use vstd::prelude::*;

verus! {

/// Mathematical model of a raster: a `width x height` grid of pixels with
/// `channels` 8-bit samples per pixel, stored row-major, channels
/// interleaved. The sample of pixel `(x, y)` in channel `c` sits at flat
/// index `channels * (y * width + x) + c`.
#[verifier::ext_equal]
pub ghost struct Img {
    pub width: int,
    pub height: int,
    pub channels: int,
    pub data: Seq<u8>,
}

impl Img {
    /// A well-formed image: positive dimensions, 1 or 3 channels, and
    /// storage of exactly `width * height * channels` samples.
    pub open spec fn wf(self) -> bool {
        &&& self.width >= 1
        &&& self.height >= 1
        &&& (self.channels == 1 || self.channels == 3)
        &&& self.data.len() == self.width * self.height * self.channels
    }

    /// The sample at column `x`, row `y`, channel `c`.
    pub open spec fn at(self, x: int, y: int, c: int) -> u8 {
        self.data[self.channels * (y * self.width + x) + c]
    }
}

/// Relates a pixel coordinate to its flat storage index: the index is in
/// bounds, and dividing it back out recovers the coordinate.
pub proof fn lemma_flat_index(w: int, h: int, ch: int, x: int, y: int, c: int)
    requires
        1 <= w,
        1 <= h,
        1 <= ch,
        0 <= x < w,
        0 <= y < h,
        0 <= c < ch,
    ensures
        0 <= y * w + x < w * h,
        0 <= ch * (y * w + x) + c < w * h * ch,
        (ch * (y * w + x) + c) / ch == y * w + x,
        (y * w + x) % w == x,
        (y * w + x) / w == y,
{
    let p = y * w + x;
    assert(0 <= p && p < w * h) by (nonlinear_arith)
        requires
            1 <= w,
            1 <= h,
            0 <= x < w,
            0 <= y < h,
            p == y * w + x,
    ;
    let idx = ch * p + c;
    assert(0 <= idx && idx < w * h * ch) by (nonlinear_arith)
        requires
            1 <= ch,
            0 <= p,
            p < w * h,
            0 <= c < ch,
            idx == ch * p + c,
    ;
    lemma_fundamental_div_mod_converse(idx, ch, p, c);
    lemma_fundamental_div_mod_converse(p, w, y, x);
}

/// An 8-bit raster image with 1 (luma) or 3 (RGB) interleaved channels.
/// The storage length always equals `width * height * channels`.
pub struct Raster {
    width: u32,
    height: u32,
    channels: u8,
    data: Vec<u8>,
}

impl View for Raster {
    type V = Img;

    closed spec fn view(&self) -> Img {
        Img {
            width: self.width as int,
            height: self.height as int,
            channels: self.channels as int,
            data: self.data@,
        }
    }
}

impl Raster {
    /// The raster upholds the storage invariant of its model.
    pub open spec fn wf(&self) -> bool {
        self@.wf()
    }

    /// Builds a raster from raw row-major samples. Rejects empty
    /// dimensions, a channel count other than 1 or 3, and storage whose
    /// length does not match `width * height * channels`.
    pub fn new(width: u32, height: u32, channels: u8, data: Vec<u8>) -> (r: Result<
        Raster,
        FilterError,
    >)
        ensures
            match r {
                Ok(img) => {
                    &&& img.wf()
                    &&& img@ == (Img {
                        width: width as int,
                        height: height as int,
                        channels: channels as int,
                        data: data@,
                    })
                },
                Err(e) => {
                    &&& e == FilterError::InvalidParameter
                    &&& !(width >= 1 && height >= 1 && (channels == 1 || channels == 3)
                        && data@.len() == width as int * height as int * channels as int)
                },
            },
    {
        let len = data.len();
        if width >= 1 && height >= 1 && (channels == 1 || channels == 3) {
            proof {
                assert((width as int) * (height as int) * (channels as int)
                    <= 0xffff_ffff * 0xffff_ffff * 3) by (nonlinear_arith)
                    requires
                        width <= 0xffff_ffffu32,
                        height <= 0xffff_ffffu32,
                        channels <= 3u8,
                ;
            }
            let need: u128 = width as u128 * height as u128 * channels as u128;
            if len as u128 == need {
                Ok(Raster { width, height, channels, data })
            } else {
                Err(FilterError::InvalidParameter)
            }
        } else {
            Err(FilterError::InvalidParameter)
        }
    }

    /// Builds a raster whose inputs are already known to satisfy the
    /// storage invariant.
    pub(crate) fn from_parts(width: u32, height: u32, channels: u8, data: Vec<u8>) -> (r: Raster)
        requires
            1 <= width,
            1 <= height,
            channels == 1 || channels == 3,
            data@.len() == width as int * height as int * channels as int,
        ensures
            r.wf(),
            r@ == (Img {
                width: width as int,
                height: height as int,
                channels: channels as int,
                data: data@,
            }),
    {
        Raster { width, height, channels, data }
    }

    /// The width in pixels.
    pub fn width(&self) -> (w: u32)
        ensures
            w as int == self@.width,
    {
        self.width
    }

    /// The height in pixels.
    pub fn height(&self) -> (h: u32)
        ensures
            h as int == self@.height,
    {
        self.height
    }

    /// The number of channels per pixel.
    pub fn channels(&self) -> (c: u8)
        ensures
            c as int == self@.channels,
    {
        self.channels
    }

    /// Width and height as a pair.
    pub fn dimensions(&self) -> (d: (u32, u32))
        ensures
            d.0 as int == self@.width,
            d.1 as int == self@.height,
    {
        (self.width, self.height)
    }

    /// The flat sample storage.
    pub fn data(&self) -> (d: &Vec<u8>)
        ensures
            d@ == self@.data,
    {
        &self.data
    }

    /// The sample at column `x`, row `y`, channel `c`.
    pub fn get(&self, x: u32, y: u32, c: u8) -> (v: u8)
        requires
            self.wf(),
            (x as int) < self@.width,
            (y as int) < self@.height,
            (c as int) < self@.channels,
        ensures
            v == self@.at(x as int, y as int, c as int),
    {
        let len = self.data.len();
        proof {
            lemma_flat_index(
                self@.width,
                self@.height,
                self@.channels,
                x as int,
                y as int,
                c as int,
            );
        }
        let p = (y as usize) * (self.width as usize) + (x as usize);
        self.data[(self.channels as usize) * p + (c as usize)]
    }
}

} // verus!
