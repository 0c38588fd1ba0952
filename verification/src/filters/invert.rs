use crate::raster::{lemma_flat_index, Img, Raster};
use vstd::prelude::*;

verus! {

/// The per-channel inversion of an image: every sample `v` becomes
/// `255 - v`; dimensions and channel count are kept.
pub open spec fn invert_map(img: Img) -> Img {
    Img {
        width: img.width,
        height: img.height,
        channels: img.channels,
        data: Seq::new(img.data.len(), |i: int| (255 - img.data[i]) as u8),
    }
}

/// Inverts the colors of an RGB raster (negative-positive inversion).
pub fn invert_colors(img: &Raster) -> (out: Raster)
    requires
        img.wf(),
        img@.channels == 3,
    ensures
        out.wf(),
        out@ == invert_map(img@),
        out@.width == img@.width,
        out@.height == img@.height,
        out@.channels == 3,
        forall|x: int, y: int, c: int|
            0 <= x < img@.width && 0 <= y < img@.height && 0 <= c < 3
                ==> #[trigger] out@.at(x, y, c) as int == 255 - img@.at(x, y, c) as int,
{
    let w = img.width();
    let h = img.height();
    let d = img.data();
    let dlen = d.len();
    let mut data: Vec<u8> = Vec::new();
    let mut i: usize = 0;
    while i < dlen
        invariant
            d@ == img@.data,
            dlen == d@.len(),
            data@.len() == i,
            i <= dlen,
            forall|q: int| 0 <= q < i ==> #[trigger] data@[q] == (255 - d@[q]) as u8,
        decreases dlen - i,
    {
        data.push(255 - d[i]);
        i = i + 1;
    }
    proof {
        assert(data@ =~= invert_map(img@).data);
    }
    let out = Raster::from_parts(w, h, 3, data);
    proof {
        assert(out@ =~= invert_map(img@));
        assert forall|x: int, y: int, c: int|
            0 <= x < img@.width && 0 <= y < img@.height && 0 <= c < 3 implies #[trigger] out@.at(
            x,
            y,
            c,
        ) as int == 255 - img@.at(x, y, c) as int by {
            lemma_flat_index(img@.width, img@.height, 3, x, y, c);
        }
    }
    out
}

} // verus!
