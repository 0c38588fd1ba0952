use crate::color::{FIXED_HALF, FIXED_ONE};
use crate::raster::{lemma_flat_index, Img, Raster};
use vstd::arithmetic::div_mod::lemma_div_pos_is_pos;
use vstd::prelude::*;

verus! {

/// Weighted luma of one RGB pixel, with fixed-point weights in units of
/// `1 / FIXED_ONE`: the weighted channel sum, rounded half-up and
/// clamped to 255.
pub open spec fn luma_value(r: u8, g: u8, b: u8, wr: int, wg: int, wb: int) -> int {
    vstd::math::min(255, (r * wr + g * wg + b * wb + FIXED_HALF as int) / (FIXED_ONE as int))
}

/// A luma sample is always a byte when the weights are non-negative.
pub proof fn lemma_luma_bounds(r: u8, g: u8, b: u8, wr: int, wg: int, wb: int)
    requires
        wr >= 0,
        wg >= 0,
        wb >= 0,
    ensures
        0 <= luma_value(r, g, b, wr, wg, wb) <= 255,
{
    assert(r * wr >= 0 && g * wg >= 0 && b * wb >= 0) by (nonlinear_arith)
        requires
            wr >= 0,
            wg >= 0,
            wb >= 0,
    ;
    lemma_div_pos_is_pos(r * wr + g * wg + b * wb + FIXED_HALF as int, FIXED_ONE as int);
}

/// The grayscale reduction of a 3-channel image: one luma sample per
/// pixel, same dimensions.
pub open spec fn gray_map(img: Img, wr: int, wg: int, wb: int) -> Img {
    Img {
        width: img.width,
        height: img.height,
        channels: 1,
        data: Seq::new(
            (img.width * img.height) as nat,
            |p: int|
                luma_value(
                    img.data[3 * p],
                    img.data[3 * p + 1],
                    img.data[3 * p + 2],
                    wr,
                    wg,
                    wb,
                ) as u8,
        ),
    }
}

/// Converts an RGB raster to grayscale with the given fixed-point
/// channel weights (units of `1 / FIXED_ONE`).
pub fn grayscale(img: &Raster, red: u32, green: u32, blue: u32) -> (out: Raster)
    requires
        img.wf(),
        img@.channels == 3,
    ensures
        out.wf(),
        out@ == gray_map(img@, red as int, green as int, blue as int),
        out@.width == img@.width,
        out@.height == img@.height,
        out@.channels == 1,
        forall|x: int, y: int|
            0 <= x < img@.width && 0 <= y < img@.height
                ==> #[trigger] out@.at(x, y, 0) as int == luma_value(
                    img@.at(x, y, 0),
                    img@.at(x, y, 1),
                    img@.at(x, y, 2),
                    red as int,
                    green as int,
                    blue as int,
                ),
{
    let w = img.width();
    let h = img.height();
    let d = img.data();
    let dlen = d.len();
    proof {
        assert(img@.width * img@.height * 3 == 3 * (img@.width * img@.height))
            by (nonlinear_arith);
        assert(img@.width * img@.height >= 1) by (nonlinear_arith)
            requires
                img@.width >= 1,
                img@.height >= 1,
        ;
    }
    let n: usize = (w as usize) * (h as usize);
    let mut data: Vec<u8> = Vec::new();
    let mut p: usize = 0;
    while p < n
        invariant
            img.wf(),
            img@.channels == 3,
            d@ == img@.data,
            dlen == d@.len(),
            w as int == img@.width,
            h as int == img@.height,
            n == img@.width * img@.height,
            dlen == 3 * n,
            data@.len() == p,
            p <= n,
            forall|q: int|
                0 <= q < p ==> #[trigger] data@[q] == luma_value(
                    img@.data[3 * q],
                    img@.data[3 * q + 1],
                    img@.data[3 * q + 2],
                    red as int,
                    green as int,
                    blue as int,
                ) as u8,
        decreases n - p,
    {
        let base: usize = 3 * p;
        let r = d[base];
        let g = d[base + 1];
        let b = d[base + 2];
        proof {
            assert(0 <= (r as int) * (red as int) <= 255 * 0xffff_ffff) by (nonlinear_arith)
                requires
                    0 <= r as int <= 255,
                    0 <= red as int <= 0xffff_ffff,
            ;
            assert(0 <= (g as int) * (green as int) <= 255 * 0xffff_ffff) by (nonlinear_arith)
                requires
                    0 <= g as int <= 255,
                    0 <= green as int <= 0xffff_ffff,
            ;
            assert(0 <= (b as int) * (blue as int) <= 255 * 0xffff_ffff) by (nonlinear_arith)
                requires
                    0 <= b as int <= 255,
                    0 <= blue as int <= 0xffff_ffff,
            ;
        }
        let sum: u64 = (r as u64) * (red as u64) + (g as u64) * (green as u64) + (b as u64) * (blue
            as u64) + FIXED_HALF as u64;
        let q64: u64 = sum / (FIXED_ONE as u64);
        let v: u8 = if q64 > 255 {
            255u8
        } else {
            q64 as u8
        };
        data.push(v);
        p = p + 1;
    }
    proof {
        let gm = gray_map(img@, red as int, green as int, blue as int);
        assert(data@ =~= gm.data);
        assert(img@.width * img@.height * 1 == img@.width * img@.height) by (nonlinear_arith);
    }
    let out = Raster::from_parts(w, h, 1, data);
    proof {
        let gm = gray_map(img@, red as int, green as int, blue as int);
        assert(out@ =~= gm);
        assert forall|x: int, y: int| 0 <= x < img@.width && 0 <= y < img@.height implies #[trigger] out@.at(
            x,
            y,
            0,
        ) as int == luma_value(
            img@.at(x, y, 0),
            img@.at(x, y, 1),
            img@.at(x, y, 2),
            red as int,
            green as int,
            blue as int,
        ) by {
            lemma_flat_index(img@.width, img@.height, 1, x, y, 0);
            lemma_luma_bounds(
                img@.at(x, y, 0),
                img@.at(x, y, 1),
                img@.at(x, y, 2),
                red as int,
                green as int,
                blue as int,
            );
        }
    }
    out
}

} // verus!
