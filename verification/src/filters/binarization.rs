use crate::raster::{lemma_flat_index, Img, Raster};
use vstd::arithmetic::div_mod::lemma_multiply_divide_lt;
use vstd::prelude::*;

verus! {

/// Rank at position `(i, j)` of the fixed 4x4 ordered-dither (Bayer)
/// matrix `[[0,8,2,10],[12,4,14,6],[3,11,1,9],[15,7,13,5]]`, indexed by
/// `i = x % 4` and `j = y % 4`.
pub open spec fn bayer_rank(i: int, j: int) -> int {
    if i == 0 {
        if j == 0 {
            0
        } else if j == 1 {
            8
        } else if j == 2 {
            2
        } else {
            10
        }
    } else if i == 1 {
        if j == 0 {
            12
        } else if j == 1 {
            4
        } else if j == 2 {
            14
        } else {
            6
        }
    } else if i == 2 {
        if j == 0 {
            3
        } else if j == 1 {
            11
        } else if j == 2 {
            1
        } else {
            9
        }
    } else {
        if j == 0 {
            15
        } else if j == 1 {
            7
        } else if j == 2 {
            13
        } else {
            5
        }
    }
}

/// The threshold the pattern tiles onto pixel `(x, y)`: the local rank
/// times 16, plus 8 (so thresholds range over 8..=248).
pub open spec fn threshold_at(x: int, y: int) -> int {
    bayer_rank(x % 4, y % 4) * 16 + 8
}

/// One dithered sample: 255 where the input sample reaches the local
/// threshold, 0 below it.
pub open spec fn dither_value(v: u8, x: int, y: int) -> u8 {
    if v >= threshold_at(x, y) {
        255u8
    } else {
        0u8
    }
}

/// The ordered-dither of an image, channel by channel: sample `i`
/// belongs to the pixel at column `(i / channels) % width`, row
/// `(i / channels) / width`; dimensions and channel count are kept.
pub open spec fn dither_map(img: Img) -> Img {
    Img {
        width: img.width,
        height: img.height,
        channels: img.channels,
        data: Seq::new(
            img.data.len(),
            |i: int|
                dither_value(
                    img.data[i],
                    (i / img.channels) % img.width,
                    (i / img.channels) / img.width,
                ),
        ),
    }
}

/// Dithering is deterministic: equal inputs give equal outputs.
pub proof fn lemma_dither_deterministic(a: Img, b: Img)
    requires
        a == b,
    ensures
        dither_map(a) == dither_map(b),
{
}

/// Every dithered sample is exactly 0 or 255.
pub proof fn lemma_dither_binary(img: Img, i: int)
    requires
        0 <= i < img.data.len(),
    ensures
        dither_map(img).data[i] == 0 || dither_map(img).data[i] == 255,
{
}

fn bayer_rank_at(i: u32, j: u32) -> (r: u8)
    requires
        i < 4,
        j < 4,
    ensures
        r as int == bayer_rank(i as int, j as int),
{
    if i == 0 {
        if j == 0 {
            0
        } else if j == 1 {
            8
        } else if j == 2 {
            2
        } else {
            10
        }
    } else if i == 1 {
        if j == 0 {
            12
        } else if j == 1 {
            4
        } else if j == 2 {
            14
        } else {
            6
        }
    } else if i == 2 {
        if j == 0 {
            3
        } else if j == 1 {
            11
        } else if j == 2 {
            1
        } else {
            9
        }
    } else {
        if j == 0 {
            15
        } else if j == 1 {
            7
        } else if j == 2 {
            13
        } else {
            5
        }
    }
}

/// Thresholds every sample of the raster against the tiled 4x4
/// ordered-dither pattern, channel by channel, forcing each output
/// sample to exactly 0 or 255.
pub fn halftoning(img: &Raster) -> (out: Raster)
    requires
        img.wf(),
    ensures
        out.wf(),
        out@ == dither_map(img@),
        out@.width == img@.width,
        out@.height == img@.height,
        out@.channels == img@.channels,
        forall|x: int, y: int, c: int|
            0 <= x < img@.width && 0 <= y < img@.height && 0 <= c < img@.channels
                ==> #[trigger] out@.at(x, y, c) == dither_value(img@.at(x, y, c), x, y),
        forall|i: int|
            0 <= i < out@.data.len() ==> #[trigger] out@.data[i] == 0 || out@.data[i] == 255,
{
    let w = img.width();
    let h = img.height();
    let ch = img.channels();
    let d = img.data();
    let dlen = d.len();
    let mut data: Vec<u8> = Vec::new();
    let mut i: usize = 0;
    while i < dlen
        invariant
            img.wf(),
            d@ == img@.data,
            dlen == d@.len(),
            w as int == img@.width,
            h as int == img@.height,
            ch as int == img@.channels,
            data@.len() == i,
            i <= dlen,
            forall|q: int|
                0 <= q < i ==> #[trigger] data@[q] == dither_value(
                    img@.data[q],
                    (q / img@.channels) % img@.width,
                    (q / img@.channels) / img@.width,
                ),
        decreases dlen - i,
    {
        proof {
            assert(img@.width * img@.height * img@.channels == img@.channels * (img@.width
                * img@.height)) by (nonlinear_arith);
            lemma_multiply_divide_lt(i as int, img@.channels, img@.width * img@.height);
        }
        let pix: usize = i / (ch as usize);
        proof {
            lemma_multiply_divide_lt(pix as int, img@.width, img@.height);
        }
        let x: usize = pix % (w as usize);
        let y: usize = pix / (w as usize);
        let rank = bayer_rank_at((x % 4) as u32, (y % 4) as u32);
        let t: u8 = rank * 16 + 8;
        let v: u8 = if d[i] >= t {
            255u8
        } else {
            0u8
        };
        data.push(v);
        i = i + 1;
    }
    proof {
        assert(data@ =~= dither_map(img@).data);
    }
    let out = Raster::from_parts(w, h, ch, data);
    proof {
        assert(out@ =~= dither_map(img@));
        assert forall|x: int, y: int, c: int|
            0 <= x < img@.width && 0 <= y < img@.height && 0 <= c < img@.channels implies #[trigger] out@.at(
            x,
            y,
            c,
        ) == dither_value(img@.at(x, y, c), x, y) by {
            lemma_flat_index(img@.width, img@.height, img@.channels, x, y, c);
        }
    }
    out
}

} // verus!
