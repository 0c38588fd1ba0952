use crate::color::FIXED_ONE;
use crate::error::FilterError;
use crate::raster::{lemma_flat_index, Img, Raster};
use vstd::arithmetic::div_mod::{
    lemma_div_is_ordered, lemma_div_is_strictly_smaller, lemma_div_multiples_vanish,
    lemma_div_nonincreasing, lemma_div_pos_is_pos, lemma_fundamental_div_mod,
    lemma_fundamental_div_mod_converse, lemma_multiply_divide_lt,
};
use vstd::prelude::*;

verus! {

/// Largest accepted kernel side length. The bound keeps every
/// convolution accumulator within `i64` range.
pub const MAX_KERNEL_SIZE: usize = 1999;

/// Magnitude bound of a single convolution term: a sample (at most 255)
/// times a weight (at most 2^31 in magnitude).
pub const MAX_CONV_TERM: i64 = 255 * 2147483648;

/// An immutable square convolution kernel: `size * size` integer weights
/// in row-major order. The side length is fixed at construction.
pub struct Kernel {
    size: usize,
    weights: Vec<i32>,
}

impl Kernel {
    /// The side length.
    pub closed spec fn spec_size(&self) -> int {
        self.size as int
    }

    /// The weights, row-major.
    pub closed spec fn spec_weights(&self) -> Seq<i32> {
        self.weights@
    }

    /// Invariant: positive, bounded side length and a square weight count.
    pub open spec fn wf(&self) -> bool {
        &&& 1 <= self.spec_size() <= MAX_KERNEL_SIZE as int
        &&& self.spec_weights().len() == self.spec_size() * self.spec_size()
    }

    /// Builds a kernel. Rejects a side length of zero or beyond
    /// [`MAX_KERNEL_SIZE`], and a weight count other than `size * size`.
    pub fn new(size: usize, weights: Vec<i32>) -> (r: Result<Kernel, FilterError>)
        ensures
            match r {
                Ok(k) => {
                    &&& k.wf()
                    &&& k.spec_size() == size
                    &&& k.spec_weights() == weights@
                    &&& 1 <= size <= MAX_KERNEL_SIZE
                    &&& weights@.len() == size * size
                },
                Err(e) => {
                    &&& e == FilterError::InvalidParameter
                    &&& !(1 <= size <= MAX_KERNEL_SIZE && weights@.len() == size * size)
                },
            },
    {
        if size >= 1 && size <= MAX_KERNEL_SIZE {
            proof {
                assert((size as int) * (size as int) <= 1999 * 1999) by (nonlinear_arith)
                    requires
                        1 <= size as int <= 1999,
                ;
            }
            if weights.len() == size * size {
                Ok(Kernel { size, weights })
            } else {
                Err(FilterError::InvalidParameter)
            }
        } else {
            Err(FilterError::InvalidParameter)
        }
    }

    /// The side length.
    pub fn size(&self) -> (s: usize)
        ensures
            s as int == self.spec_size(),
    {
        self.size
    }

    /// The weights, row-major.
    pub fn weights(&self) -> (w: &Vec<i32>)
        ensures
            w@ == self.spec_weights(),
    {
        &self.weights
    }
}

/// The input sample a convolution reads at `(x, y)`: the stored sample
/// inside the image, and zero outside it (zero padding).
pub open spec fn pixel_or_zero(img: Img, x: int, y: int) -> int {
    if 0 <= x < img.width && 0 <= y < img.height {
        img.data[y * img.width + x] as int
    } else {
        0
    }
}

/// One term of the convolution sum at output pixel `(x, y)`: the padded
/// sample under weight `i`, times that weight. Weight `i` sits at row
/// `i / k`, column `i % k` of the kernel, whose center offset is `k / 2`.
pub open spec fn conv_term(img: Img, ker: Seq<i32>, k: int, x: int, y: int, i: int) -> int {
    pixel_or_zero(img, x + i % k - k / 2, y + i / k - k / 2) * ker[i]
}

/// Sum of the first `n` convolution terms at output pixel `(x, y)`.
pub open spec fn conv_prefix(img: Img, ker: Seq<i32>, k: int, x: int, y: int, n: int) -> int
    decreases n,
{
    if n <= 0 {
        0
    } else {
        conv_prefix(img, ker, k, x, y, n - 1) + conv_term(img, ker, k, x, y, n - 1)
    }
}

/// The convolution of `img` with the `k x k` kernel `ker` at output pixel
/// `(x, y)`: the sum over all `k * k` weights of padded sample times
/// weight.
pub open spec fn conv_at(img: Img, ker: Seq<i32>, k: int, x: int, y: int) -> int {
    conv_prefix(img, ker, k, x, y, k * k)
}

/// All convolution results of a single-channel image, flattened
/// row-major: entry `p` belongs to pixel `(p % width, p / width)`.
pub open spec fn conv_seq(img: Img, ker: Seq<i32>, k: int) -> Seq<i64> {
    Seq::new(
        (img.width * img.height) as nat,
        |p: int| conv_at(img, ker, k, p % img.width, p / img.width) as i64,
    )
}

/// Convolves a single-channel raster with an odd-sized square kernel,
/// returning one exact integer sum per pixel, row-major. Fails with
/// `InvalidKernel` exactly when the kernel's side length is even; borders
/// are zero-padded.
pub fn convolve_gray(img: &Raster, kernel: &Kernel) -> (r: Result<Vec<i64>, FilterError>)
    requires
        img.wf(),
        img@.channels == 1,
        kernel.wf(),
    ensures
        match r {
            Ok(out) => {
                &&& kernel.spec_size() % 2 == 1
                &&& out@.len() == img@.width * img@.height
                &&& out@ == conv_seq(img@, kernel.spec_weights(), kernel.spec_size())
                &&& forall|x: int, y: int|
                    0 <= x < img@.width && 0 <= y < img@.height
                        ==> #[trigger] conv_at(img@, kernel.spec_weights(), kernel.spec_size(), x, y)
                            == out@[y * img@.width + x] as int
            },
            Err(e) => e == FilterError::InvalidKernel && kernel.spec_size() % 2 == 0,
        },
{
    let k = kernel.size();
    if k % 2 == 0 {
        return Err(FilterError::InvalidKernel);
    }
    let w = img.width();
    let h = img.height();
    let d = img.data();
    let dlen = d.len();
    proof {
        assert(img@.width * img@.height * 1 == img@.width * img@.height) by (nonlinear_arith);
    }
    let kw = kernel.weights();
    proof {
        assert((k as int) * (k as int) <= 1999 * 1999) by (nonlinear_arith)
            requires
                1 <= k as int <= 1999,
        ;
    }
    let kk: usize = k * k;
    let r_off: usize = k / 2;
    let n: usize = (w as usize) * (h as usize);
    let mut out: Vec<i64> = Vec::new();
    let mut p: usize = 0;
    while p < n
        invariant
            img.wf(),
            img@.channels == 1,
            kernel.wf(),
            k == kernel.spec_size(),
            k % 2 == 1,
            kw@ == kernel.spec_weights(),
            d@ == img@.data,
            dlen == d@.len(),
            w as int == img@.width,
            h as int == img@.height,
            n == img@.width * img@.height,
            n == dlen,
            kk == k * k,
            r_off == k / 2,
            out@.len() == p,
            p <= n,
            forall|q: int|
                0 <= q < p ==> #[trigger] out@[q] as int == conv_at(
                    img@,
                    kw@,
                    k as int,
                    q % (w as int),
                    q / (w as int),
                ),
        decreases n - p,
    {
        let x: usize = p % (w as usize);
        let y: usize = p / (w as usize);
        proof {
            lemma_multiply_divide_lt(p as int, w as int, h as int);
        }
        let mut acc: i64 = 0;
        let mut i: usize = 0;
        while i < kk
            invariant
                img.wf(),
                img@.channels == 1,
                d@ == img@.data,
                dlen == d@.len(),
                w as int == img@.width,
                h as int == img@.height,
                n == img@.width * img@.height,
                n == dlen,
                1 <= k <= MAX_KERNEL_SIZE,
                kk == k * k,
                r_off == k / 2,
                kw@.len() == kk,
                x < w,
                y < h,
                i <= kk,
                acc as int == conv_prefix(img@, kw@, k as int, x as int, y as int, i as int),
                -((i as int) * (MAX_CONV_TERM as int)) <= acc as int,
                acc as int <= (i as int) * (MAX_CONV_TERM as int),
            decreases kk - i,
        {
            let ky: usize = i / k;
            let kx: usize = i % k;
            proof {
                lemma_multiply_divide_lt(i as int, k as int, k as int);
            }
            let ix: i64 = x as i64 + kx as i64 - r_off as i64;
            let iy: i64 = y as i64 + ky as i64 - r_off as i64;
            let v: i64 = if ix >= 0 && ix < w as i64 && iy >= 0 && iy < h as i64 {
                proof {
                    lemma_flat_index(w as int, h as int, 1, ix as int, iy as int, 0);
                }
                let si: usize = (iy as usize) * (w as usize) + (ix as usize);
                d[si] as i64
            } else {
                0
            };
            let wt_i32: i32 = kw[i];
            let wt: i64 = wt_i32 as i64;
            proof {
                assert(v as int * wt as int == conv_term(
                    img@,
                    kw@,
                    k as int,
                    x as int,
                    y as int,
                    i as int,
                ));
                assert(-(MAX_CONV_TERM as int) <= v as int * wt as int <= MAX_CONV_TERM as int)
                    by (nonlinear_arith)
                    requires
                        0 <= v as int <= 255,
                        -2147483648 <= wt as int <= 2147483647,
                ;
                assert((i as int + 1) * (MAX_CONV_TERM as int) <= 0x7fff_ffff_ffff_ffff)
                    by (nonlinear_arith)
                    requires
                        i as int + 1 <= kk as int,
                        kk as int == (k as int) * (k as int),
                        1 <= k as int <= 1999,
                ;
                assert((i as int + 1) * (MAX_CONV_TERM as int) == (i as int) * (MAX_CONV_TERM
                    as int) + MAX_CONV_TERM as int) by (nonlinear_arith);
            }
            acc = acc + v * wt;
            i = i + 1;
        }
        out.push(acc);
        p = p + 1;
    }
    proof {
        let m = img@;
        let ks = kernel.spec_weights();
        let ki = kernel.spec_size();
        assert(out@ =~= conv_seq(m, ks, ki)) by {
            assert forall|q: int| 0 <= q < out@.len() implies out@[q] == conv_seq(m, ks, ki)[q] by {
                assert(out@[q] as int == conv_at(m, ks, ki, q % m.width, q / m.width));
            }
        }
        assert forall|x: int, y: int| 0 <= x < m.width && 0 <= y < m.height implies #[trigger] conv_at(
            m,
            ks,
            ki,
            x,
            y,
        ) == out@[y * m.width + x] as int by {
            lemma_flat_index(m.width, m.height, 1, x, y, 0);
        }
    }
    Ok(out)
}

/// The identity kernel of side length `k`: weight 1 at the center, 0
/// everywhere else.
pub open spec fn identity_kernel(k: int) -> Seq<i32> {
    Seq::new((k * k) as nat, |i: int| if i == (k * k - 1) / 2 { 1i32 } else { 0i32 })
}

proof fn lemma_identity_prefix(img: Img, k: int, x: int, y: int, n: int)
    requires
        img.wf(),
        img.channels == 1,
        k >= 1,
        k % 2 == 1,
        0 <= x < img.width,
        0 <= y < img.height,
        0 <= n <= k * k,
    ensures
        conv_prefix(img, identity_kernel(k), k, x, y, n) == if n > (k * k - 1) / 2 {
            img.data[y * img.width + x] as int
        } else {
            0
        },
    decreases n,
{
    let ker = identity_kernel(k);
    let c = (k * k - 1) / 2;
    assert(k * k >= 1) by (nonlinear_arith)
        requires
            k >= 1,
    ;
    lemma_div_pos_is_pos(k * k - 1, 2);
    lemma_div_nonincreasing(k * k - 1, 2);
    if n <= 0 {
    } else {
        lemma_identity_prefix(img, k, x, y, n - 1);
        if n - 1 == c {
            lemma_fundamental_div_mod(k, 2);
            let r = k / 2;
            assert(k == 2 * r + 1);
            assert(k * k - 1 == 2 * (r * k + r)) by (nonlinear_arith)
                requires
                    k == 2 * r + 1,
            ;
            lemma_div_multiples_vanish(r * k + r, 2);
            assert(c == r * k + r);
            lemma_fundamental_div_mod_converse(c, k, r, r);
            assert(conv_term(img, ker, k, x, y, c) == pixel_or_zero(img, x, y) * 1);
        } else {
            assert(ker[n - 1] == 0i32);
        }
    }
}

/// Convolving with the identity kernel reproduces the input exactly: at
/// every pixel the result is the original sample.
pub proof fn lemma_identity_kernel_preserves(img: Img, k: int, x: int, y: int)
    requires
        img.wf(),
        img.channels == 1,
        k >= 1,
        k % 2 == 1,
        0 <= x < img.width,
        0 <= y < img.height,
    ensures
        conv_at(img, identity_kernel(k), k, x, y) == img.data[y * img.width + x] as int,
{
    assert(k * k >= 1) by (nonlinear_arith)
        requires
            k >= 1,
    ;
    lemma_div_nonincreasing(k * k - 1, 2);
    lemma_identity_prefix(img, k, x, y, k * k);
}

/// Floor of the square root of `n` (and 0 for negative `n`).
pub open spec fn spec_isqrt(n: int) -> int
    decreases n,
{
    if n <= 0 {
        0
    } else {
        let p = spec_isqrt(n - 1);
        if (p + 1) * (p + 1) <= n {
            p + 1
        } else {
            p
        }
    }
}

/// `spec_isqrt` is the floor square root: its square is at most `n` and
/// the next square is beyond `n`.
pub proof fn lemma_isqrt_bounds(n: int)
    requires
        n >= 0,
    ensures
        spec_isqrt(n) >= 0,
        spec_isqrt(n) * spec_isqrt(n) <= n,
        n < (spec_isqrt(n) + 1) * (spec_isqrt(n) + 1),
    decreases n,
{
    if n == 0 {
    } else {
        lemma_isqrt_bounds(n - 1);
        let p = spec_isqrt(n - 1);
        if (p + 1) * (p + 1) <= n {
            assert((p + 1 + 1) * (p + 1 + 1) > n) by (nonlinear_arith)
                requires
                    p >= 0,
                    n - 1 < (p + 1) * (p + 1),
                    (p + 1) * (p + 1) <= n,
            ;
        }
    }
}

proof fn lemma_isqrt_unique(n: int, a: int)
    requires
        n >= 0,
        a >= 0,
        a * a <= n,
        n < (a + 1) * (a + 1),
    ensures
        a == spec_isqrt(n),
{
    lemma_isqrt_bounds(n);
    let s = spec_isqrt(n);
    if a < s {
        assert((a + 1) * (a + 1) <= s * s) by (nonlinear_arith)
            requires
                0 <= a,
                a + 1 <= s,
        ;
    } else if s < a {
        assert((s + 1) * (s + 1) <= a * a) by (nonlinear_arith)
            requires
                0 <= s,
                s + 1 <= a,
        ;
    }
}

/// Floor square root of a 128-bit value, by bisection.
fn isqrt_u128(n: u128) -> (r: u64)
    ensures
        r as int == spec_isqrt(n as int),
{
    let mut lo: u128 = 0;
    let mut hi: u128 = 0x1_0000_0000_0000_0000;
    while lo + 1 < hi
        invariant
            lo < hi,
            hi <= 0x1_0000_0000_0000_0000,
            (lo as int) * (lo as int) <= n as int,
            (n as int) < (hi as int) * (hi as int),
        decreases hi - lo,
    {
        proof {
            lemma_div_is_strictly_smaller((hi - lo) as int, 2);
            lemma_div_pos_is_pos((hi - lo) as int, 2);
        }
        let mid: u128 = lo + (hi - lo) / 2;
        proof {
            assert((mid as int) * (mid as int) <= 0xffff_ffff_ffff_ffff * 0xffff_ffff_ffff_ffff)
                by (nonlinear_arith)
                requires
                    0 <= mid as int <= 0xffff_ffff_ffff_ffff,
            ;
        }
        let sq: u128 = mid * mid;
        if sq <= n {
            lo = mid;
        } else {
            hi = mid;
        }
    }
    proof {
        lemma_isqrt_unique(n as int, lo as int);
    }
    lo as u64
}

/// Magnitude of the gradient pair at index `i`: the floor square root of
/// `gx[i]^2 + gy[i]^2`.
pub open spec fn mag_at(gx: Seq<i64>, gy: Seq<i64>, i: int) -> int {
    spec_isqrt(gx[i] * gx[i] + gy[i] * gy[i])
}

/// Largest magnitude among the first `n` gradient pairs.
pub open spec fn max_mag_upto(gx: Seq<i64>, gy: Seq<i64>, n: int) -> int
    decreases n,
{
    if n <= 0 {
        0
    } else {
        vstd::math::max(max_mag_upto(gx, gy, n - 1), mag_at(gx, gy, n - 1))
    }
}

/// A magnitude `m` normalized against the image maximum `maxm`, scaled
/// by the fixed-point `intensity` (in units of `1 / FIXED_ONE`), rounded
/// half-up and clamped to 255. A zero maximum maps everything to 0.
pub open spec fn scaled_value(m: int, maxm: int, intensity: int) -> int {
    if maxm <= 0 {
        0
    } else {
        let num = m * 255 * intensity;
        let den = maxm * (FIXED_ONE as int);
        vstd::math::min(255, (2 * num + den) / (2 * den))
    }
}

/// The gradient-to-intensity mapping of two gradient fields: per index,
/// the scaled magnitude.
pub open spec fn gradient_map(gx: Seq<i64>, gy: Seq<i64>, intensity: int) -> Seq<u8> {
    Seq::new(
        gx.len(),
        |i: int|
            scaled_value(
                mag_at(gx, gy, i),
                max_mag_upto(gx, gy, gx.len() as int),
                intensity,
            ) as u8,
    )
}

/// Computes gradient magnitudes, normalizes them by the image-wide
/// maximum, scales by the fixed-point `intensity`, and packs the result
/// into a single-channel raster. Fails with `LengthMismatch` exactly when
/// the two gradient arrays differ in length.
pub fn magnitude_to_luma_u8_scaled(
    gx: &Vec<i64>,
    gy: &Vec<i64>,
    width: u32,
    height: u32,
    intensity: u32,
) -> (r: Result<Raster, FilterError>)
    requires
        width >= 1,
        height >= 1,
        gx@.len() == width as int * height as int,
    ensures
        match r {
            Ok(out) => {
                &&& gx@.len() == gy@.len()
                &&& out.wf()
                &&& out@.width == width
                &&& out@.height == height
                &&& out@.channels == 1
                &&& out@.data == gradient_map(gx@, gy@, intensity as int)
            },
            Err(e) => e == FilterError::LengthMismatch && gx@.len() != gy@.len(),
        },
{
    let n = gx.len();
    if n != gy.len() {
        return Err(FilterError::LengthMismatch);
    }
    let mut mags: Vec<u64> = Vec::new();
    let mut maxm: u64 = 0;
    let mut i: usize = 0;
    while i < n
        invariant
            gx@.len() == n,
            gy@.len() == n,
            mags@.len() == i,
            i <= n,
            forall|j: int| 0 <= j < i ==> #[trigger] mags@[j] as int == mag_at(gx@, gy@, j),
            maxm as int == max_mag_upto(gx@, gy@, i as int),
        decreases n - i,
    {
        let a: i128 = gx[i] as i128;
        let b: i128 = gy[i] as i128;
        proof {
            assert(0 <= a * a <= 0x4000_0000_0000_0000_0000_0000_0000_0000) by (nonlinear_arith)
                requires
                    -0x8000_0000_0000_0000 <= a as int <= 0x7fff_ffff_ffff_ffff,
            ;
            assert(0 <= b * b <= 0x4000_0000_0000_0000_0000_0000_0000_0000) by (nonlinear_arith)
                requires
                    -0x8000_0000_0000_0000 <= b as int <= 0x7fff_ffff_ffff_ffff,
            ;
        }
        let sq: u128 = (a * a) as u128 + (b * b) as u128;
        let m = isqrt_u128(sq);
        if m > maxm {
            maxm = m;
        }
        mags.push(m);
        i = i + 1;
    }
    let mut data: Vec<u8> = Vec::new();
    let mut p: usize = 0;
    while p < n
        invariant
            gx@.len() == n,
            gy@.len() == n,
            mags@.len() == n,
            forall|j: int| 0 <= j < n ==> #[trigger] mags@[j] as int == mag_at(gx@, gy@, j),
            maxm as int == max_mag_upto(gx@, gy@, n as int),
            data@.len() == p,
            p <= n,
            forall|j: int|
                0 <= j < p ==> #[trigger] data@[j] == scaled_value(
                    mag_at(gx@, gy@, j),
                    max_mag_upto(gx@, gy@, n as int),
                    intensity as int,
                ) as u8,
        decreases n - p,
    {
        let v: u8 = if maxm == 0 {
            0u8
        } else {
            let m = mags[p];
            proof {
                assert((m as int) * 255 * (intensity as int) <= 0xffff_ffff_ffff_ffff * 255
                    * 0xffff_ffff) by (nonlinear_arith)
                    requires
                        0 <= m as int <= 0xffff_ffff_ffff_ffff,
                        0 <= intensity as int <= 0xffff_ffff,
                ;
                assert(0 <= (m as int) * 255 * (intensity as int)) by (nonlinear_arith)
                    requires
                        0 <= m as int,
                        0 <= intensity as int,
                ;
                assert(0 < (maxm as int) * (FIXED_ONE as int) <= 0xffff_ffff_ffff_ffff * 10000)
                    by (nonlinear_arith)
                    requires
                        1 <= maxm as int <= 0xffff_ffff_ffff_ffff,
                ;
            }
            let num: u128 = (m as u128) * 255 * (intensity as u128);
            let den: u128 = (maxm as u128) * (FIXED_ONE as u128);
            let q: u128 = (2 * num + den) / (2 * den);
            proof {
                lemma_div_pos_is_pos(2 * (num as int) + den as int, 2 * (den as int));
            }
            if q > 255 {
                255u8
            } else {
                q as u8
            }
        };
        data.push(v);
        p = p + 1;
    }
    proof {
        assert(data@ =~= gradient_map(gx@, gy@, intensity as int));
        assert(width as int * height as int * 1 == width as int * height as int)
            by (nonlinear_arith);
    }
    Ok(Raster::from_parts(width, height, 1, data))
}

proof fn lemma_max_mag_zero(gx: Seq<i64>, gy: Seq<i64>, n: int)
    requires
        gx.len() == gy.len(),
        n <= gx.len(),
        forall|j: int| 0 <= j < n ==> gx[j] == 0 && gy[j] == 0,
    ensures
        max_mag_upto(gx, gy, n) == 0,
    decreases n,
{
    if n <= 0 {
    } else {
        lemma_max_mag_zero(gx, gy, n - 1);
    }
}

/// A uniform (zero-gradient) field maps to an all-zero output, no matter
/// the intensity multiplier.
pub proof fn lemma_zero_gradient_all_zero(gx: Seq<i64>, gy: Seq<i64>, intensity: int, i: int)
    requires
        gx.len() == gy.len(),
        forall|j: int| 0 <= j < gx.len() ==> gx[j] == 0 && gy[j] == 0,
        0 <= i < gx.len(),
    ensures
        gradient_map(gx, gy, intensity)[i] == 0,
{
    lemma_max_mag_zero(gx, gy, gx.len() as int);
}

/// Holding the gradients fixed, the output is monotone in the intensity
/// multiplier: for intensities `0 <= i1 <= i2`, no pixel is darker under
/// `i2` than under `i1` (both sides sit at 255 once clamped).
pub proof fn lemma_intensity_monotone(gx: Seq<i64>, gy: Seq<i64>, i1: int, i2: int, idx: int)
    requires
        gx.len() == gy.len(),
        0 <= idx < gx.len(),
        0 <= i1 <= i2,
    ensures
        gradient_map(gx, gy, i1)[idx] <= gradient_map(gx, gy, i2)[idx],
{
    let maxm = max_mag_upto(gx, gy, gx.len() as int);
    let m = mag_at(gx, gy, idx);
    if maxm <= 0 {
    } else {
        assert(gx[idx] * gx[idx] + gy[idx] * gy[idx] >= 0) by (nonlinear_arith);
        lemma_isqrt_bounds(gx[idx] * gx[idx] + gy[idx] * gy[idx]);
        let num1 = m * 255 * i1;
        let num2 = m * 255 * i2;
        let den = maxm * (FIXED_ONE as int);
        assert(num1 <= num2) by (nonlinear_arith)
            requires
                m >= 0,
                0 <= i1 <= i2,
                num1 == m * 255 * i1,
                num2 == m * 255 * i2,
        ;
        assert(den >= 10000) by (nonlinear_arith)
            requires
                maxm >= 1,
                den == maxm * 10000,
        ;
        lemma_div_is_ordered(2 * num1 + den, 2 * num2 + den, 2 * den);
        lemma_div_pos_is_pos(2 * num1 + den, 2 * den);
    }
}

} // verus!

