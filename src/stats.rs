//! The statistics engine: one pass over every pixel accumulating a
//! luminance histogram, channel sums, saturation, centre/edge brightness,
//! tone counters and gray-point candidates, and a sampled pass measuring
//! local variance for a noise estimate. Everything is kept as exact integer
//! sums and counts; ratios are compared by cross-multiplication.
use vstd::prelude::*;
use vstd::relations::sorted_by;
use crate::pixel::{
    gray_candidate, green_tone, is_gray_candidate, is_green_tone, is_skin_tone, is_warm_tone, lum,
    luminance, max3, min3, sat_ppm, saturation_ppm, skin_tone, warm_tone,
};
use crate::raster::Raster;

verus! {

/// A pixel as seen by the statistics: (R, G, B, x, y).
pub type Px = (int, int, int, int, int);

/// Pixel number `p` (row-major) of a raster of width `w`.
pub open spec fn pix(px: Seq<u8>, w: int, p: int) -> Px {
    (px[3 * p] as int, px[3 * p + 1] as int, px[3 * p + 2] as int, p % w, p / w)
}

/// Sum of `f` over the first `n` pixels.
pub open spec fn sum_px(px: Seq<u8>, w: int, n: int, f: spec_fn(Px) -> int) -> int
    decreases n,
{
    if n <= 0 {
        0
    } else {
        sum_px(px, w, n - 1, f) + f(pix(px, w, n - 1))
    }
}

pub open spec fn pixel_count(img: Raster) -> int {
    img.width as int * img.height as int
}

/// Sum of `f` over every pixel of `img`.
pub open spec fn over_image(img: Raster, f: spec_fn(Px) -> int) -> int {
    sum_px(img.pixels@, img.width as int, pixel_count(img), f)
}

pub open spec fn indicator(b: bool) -> int {
    if b {
        1
    } else {
        0
    }
}

/// Where a pixel lies relative to the image centre: 0 inside the disk of
/// radius `min(w, h) / 4`, 2 farther than twice that radius (by whole
/// pixels of distance), 1 in between.
pub open spec fn region(w: int, h: int, x: int, y: int) -> int {
    let rad = (if w <= h { w } else { h }) / 4;
    let d2 = (x - w / 2) * (x - w / 2) + (y - h / 2) * (y - h / 2);
    if d2 < rad * rad {
        0
    } else if d2 >= (2 * rad + 1) * (2 * rad + 1) {
        2
    } else {
        1
    }
}

pub open spec fn m_lum() -> spec_fn(Px) -> int {
    |q: Px| lum(q.0, q.1, q.2)
}

pub open spec fn m_lum_sq() -> spec_fn(Px) -> int {
    |q: Px| lum(q.0, q.1, q.2) * lum(q.0, q.1, q.2)
}

pub open spec fn m_red() -> spec_fn(Px) -> int {
    |q: Px| q.0
}

pub open spec fn m_green() -> spec_fn(Px) -> int {
    |q: Px| q.1
}

pub open spec fn m_blue() -> spec_fn(Px) -> int {
    |q: Px| q.2
}

pub open spec fn m_sat() -> spec_fn(Px) -> int {
    |q: Px| sat_ppm(q.0, q.1, q.2)
}

pub open spec fn m_bin(b: int) -> spec_fn(Px) -> int {
    |q: Px| indicator(lum(q.0, q.1, q.2) == b)
}

pub open spec fn m_region_lum(w: int, h: int, k: int) -> spec_fn(Px) -> int {
    |q: Px| if region(w, h, q.3, q.4) == k { lum(q.0, q.1, q.2) } else { 0 }
}

pub open spec fn m_region_count(w: int, h: int, k: int) -> spec_fn(Px) -> int {
    |q: Px| indicator(region(w, h, q.3, q.4) == k)
}

pub open spec fn m_skin() -> spec_fn(Px) -> int {
    |q: Px| indicator(skin_tone(q.0, q.1, q.2))
}

pub open spec fn m_warm() -> spec_fn(Px) -> int {
    |q: Px| indicator(warm_tone(q.0, q.1, q.2))
}

pub open spec fn m_green_tone() -> spec_fn(Px) -> int {
    |q: Px| indicator(green_tone(q.0, q.1, q.2))
}

pub open spec fn m_gray() -> spec_fn(Px) -> int {
    |q: Px| indicator(gray_candidate(q.0, q.1, q.2))
}

/// Channel `c` of the pixel when it is a gray-point candidate, else 0.
pub open spec fn m_gray_chan(c: int) -> spec_fn(Px) -> int {
    |q: Px|
        if gray_candidate(q.0, q.1, q.2) {
            if c == 0 {
                q.0
            } else if c == 1 {
                q.1
            } else {
                q.2
            }
        } else {
            0
        }
}

/// Largest pixel count the classifier and the suggestion engine accept:
/// their exact comparisons multiply sums and counts in 128-bit integers.
pub const MAX_PIXELS: u64 = 0x100_0000_0000;

/// Exact integer statistics of a raster.
///
/// Brightness is the truncated luminance of each pixel. Saturation is summed
/// in millionths. Local variances are the sampled 4-neighbour variances of
/// `(R + G + B) / 3` scaled by 36, which makes them integers.
#[derive(Clone, Debug)]
pub struct ImageStats {
    pub total: u64,
    pub histogram: Vec<u64>,
    pub sum_brightness: u128,
    pub sum_sq_brightness: u128,
    pub sum_r: u128,
    pub sum_g: u128,
    pub sum_b: u128,
    pub sum_saturation_ppm: u128,
    pub center_sum: u128,
    pub center_count: u64,
    pub edge_sum: u128,
    pub edge_count: u64,
    pub skin_count: u64,
    pub warm_count: u64,
    pub green_count: u64,
    pub gray_count: u64,
    pub gray_sum_r: u128,
    pub gray_sum_g: u128,
    pub gray_sum_b: u128,
    pub variances36: Vec<u64>,
    pub noise36: u64,
    pub variance36_sum: u128,
}

proof fn lemma_square_bound(a: int, m: int)
    requires
        0 <= m,
        -m <= a <= m,
    ensures
        0 <= a * a <= m * m,
{
    assert(0 <= a * a <= m * m) by (nonlinear_arith)
        requires
            0 <= m,
            -m <= a <= m,
    ;
}

impl ImageStats {
    /// The accumulators fit what `total` pixels can contribute, and the
    /// pixel count is within `MAX_PIXELS`.
    pub open spec fn wf(&self) -> bool {
        &&& self.histogram@.len() == 256
        &&& self.total <= MAX_PIXELS
        &&& sums_bounded(*self, self.total as int)
        &&& self.noise36 <= 2340900
        &&& self.variance36_sum <= 2340900 * self.variances36@.len()
    }
}

fn region_of(w: u32, h: u32, x: u32, y: u32) -> (k: u8)
    ensures
        k as int == region(w as int, h as int, x as int, y as int),
{
    let m: u32 = if w <= h { w } else { h };
    let rad: i128 = (m / 4) as i128;
    let dx: i128 = x as i128 - (w / 2) as i128;
    let dy: i128 = y as i128 - (h / 2) as i128;
    proof {
        lemma_square_bound(dx as int, 0x1_0000_0000);
        lemma_square_bound(dy as int, 0x1_0000_0000);
        lemma_square_bound(rad as int, 0x1_0000_0000);
        lemma_square_bound(2 * rad + 1, 0x3_0000_0000);
        assert(0x1_0000_0000int * 0x1_0000_0000int == 0x1_0000_0000_0000_0000int) by (nonlinear_arith);
        assert(0x3_0000_0000int * 0x3_0000_0000int == 0x9_0000_0000_0000_0000int) by (nonlinear_arith);
    }
    let dx2: i128 = dx * dx;
    let dy2: i128 = dy * dy;
    let d2: i128 = dx2 + dy2;
    let outer: i128 = 2 * rad + 1;
    if d2 < rad * rad {
        0
    } else if d2 >= outer * outer {
        2
    } else {
        1
    }
}

/// The accumulators of `s` hold the sums over the first `n` pixels of `img`.
pub open spec fn sums_agree(img: Raster, s: ImageStats, n: int) -> bool {
    let px = img.pixels@;
    let w = img.width as int;
    let h = img.height as int;
    &&& s.histogram@.len() == 256
    &&& forall|b: int| 0 <= b < 256 ==> s.histogram@[b] == sum_px(px, w, n, #[trigger] m_bin(b))
    &&& s.sum_brightness == sum_px(px, w, n, m_lum())
    &&& s.sum_sq_brightness == sum_px(px, w, n, m_lum_sq())
    &&& s.sum_r == sum_px(px, w, n, m_red())
    &&& s.sum_g == sum_px(px, w, n, m_green())
    &&& s.sum_b == sum_px(px, w, n, m_blue())
    &&& s.sum_saturation_ppm == sum_px(px, w, n, m_sat())
    &&& s.center_sum == sum_px(px, w, n, m_region_lum(w, h, 0))
    &&& s.center_count == sum_px(px, w, n, m_region_count(w, h, 0))
    &&& s.edge_sum == sum_px(px, w, n, m_region_lum(w, h, 2))
    &&& s.edge_count == sum_px(px, w, n, m_region_count(w, h, 2))
    &&& s.skin_count == sum_px(px, w, n, m_skin())
    &&& s.warm_count == sum_px(px, w, n, m_warm())
    &&& s.green_count == sum_px(px, w, n, m_green_tone())
    &&& s.gray_count == sum_px(px, w, n, m_gray())
    &&& s.gray_sum_r == sum_px(px, w, n, m_gray_chan(0))
    &&& s.gray_sum_g == sum_px(px, w, n, m_gray_chan(1))
    &&& s.gray_sum_b == sum_px(px, w, n, m_gray_chan(2))
}

/// Each accumulator of `s` is at most what `n` pixels can contribute.
pub open spec fn sums_bounded(s: ImageStats, n: int) -> bool {
    &&& forall|b: int| 0 <= b < s.histogram@.len() ==> #[trigger] s.histogram@[b] <= n
    &&& s.sum_brightness <= 255 * n
    &&& s.sum_sq_brightness <= 65025 * n
    &&& s.sum_r <= 255 * n && s.sum_g <= 255 * n && s.sum_b <= 255 * n
    &&& s.sum_saturation_ppm <= 1_000_000 * n
    &&& s.center_sum <= 255 * n && s.center_count <= n
    &&& s.edge_sum <= 255 * n && s.edge_count <= n
    &&& s.skin_count <= n && s.warm_count <= n && s.green_count <= n
    &&& s.gray_count <= n
    &&& s.gray_sum_r <= 255 * n && s.gray_sum_g <= 255 * n && s.gray_sum_b <= 255 * n
}

/// `s` is `prev` with the contributions of pixel `q` (in a raster of
/// width `w` and height `h`) added.
pub open spec fn adds_pixel(prev: ImageStats, s: ImageStats, q: Px, w: int, h: int) -> bool {
    &&& s.total == prev.total
    &&& s.histogram@.len() == prev.histogram@.len()
    &&& forall|b: int|
        0 <= b < prev.histogram@.len() ==> #[trigger] s.histogram@[b] == prev.histogram@[b]
            + m_bin(b)(q)
    &&& s.sum_brightness == prev.sum_brightness + m_lum()(q)
    &&& s.sum_sq_brightness == prev.sum_sq_brightness + m_lum_sq()(q)
    &&& s.sum_r == prev.sum_r + m_red()(q)
    &&& s.sum_g == prev.sum_g + m_green()(q)
    &&& s.sum_b == prev.sum_b + m_blue()(q)
    &&& s.sum_saturation_ppm == prev.sum_saturation_ppm + m_sat()(q)
    &&& s.center_sum == prev.center_sum + m_region_lum(w, h, 0)(q)
    &&& s.center_count == prev.center_count + m_region_count(w, h, 0)(q)
    &&& s.edge_sum == prev.edge_sum + m_region_lum(w, h, 2)(q)
    &&& s.edge_count == prev.edge_count + m_region_count(w, h, 2)(q)
    &&& s.skin_count == prev.skin_count + m_skin()(q)
    &&& s.warm_count == prev.warm_count + m_warm()(q)
    &&& s.green_count == prev.green_count + m_green_tone()(q)
    &&& s.gray_count == prev.gray_count + m_gray()(q)
    &&& s.gray_sum_r == prev.gray_sum_r + m_gray_chan(0)(q)
    &&& s.gray_sum_g == prev.gray_sum_g + m_gray_chan(1)(q)
    &&& s.gray_sum_b == prev.gray_sum_b + m_gray_chan(2)(q)
}

proof fn lemma_sums_step(img: Raster, prev: ImageStats, s: ImageStats, p: int)
    requires
        0 <= p,
        sums_agree(img, prev, p),
        sums_bounded(prev, p),
        adds_pixel(prev, s, pix(img.pixels@, img.width as int, p), img.width as int, img.height as int),
        0 <= pix(img.pixels@, img.width as int, p).0 <= 255,
        0 <= pix(img.pixels@, img.width as int, p).1 <= 255,
        0 <= pix(img.pixels@, img.width as int, p).2 <= 255,
    ensures
        sums_agree(img, s, p + 1),
        sums_bounded(s, p + 1),
{
    let px = img.pixels@;
    let w = img.width as int;
    let q = pix(px, w, p);
    let v = lum(q.0, q.1, q.2);
    assert(0 <= v <= 255);
    assert(0 <= v * v <= 65025) by (nonlinear_arith)
        requires
            0 <= v <= 255,
    ;
    assert(0 <= sat_ppm(q.0, q.1, q.2) <= 1_000_000) by (nonlinear_arith)
        requires
            0 <= q.0 <= 255,
            0 <= q.1 <= 255,
            0 <= q.2 <= 255,
            sat_ppm(q.0, q.1, q.2) == if max3(q.0, q.1, q.2) == 0 {
                0
            } else {
                1_000_000 * (max3(q.0, q.1, q.2) - min3(q.0, q.1, q.2)) / max3(q.0, q.1, q.2)
            },
            min3(q.0, q.1, q.2) <= max3(q.0, q.1, q.2),
            0 <= min3(q.0, q.1, q.2),
    ;
    assert forall|b: int| 0 <= b < 256 implies s.histogram@[b] == sum_px(
        px,
        w,
        p + 1,
        #[trigger] m_bin(b),
    ) by {
        assert(sum_px(px, w, p + 1, m_bin(b)) == sum_px(px, w, p, m_bin(b)) + m_bin(b)(q));
    }
    assert forall|b: int| 0 <= b < s.histogram@.len() implies #[trigger] s.histogram@[b] <= p + 1 by {
        assert(prev.histogram@[b] <= p);
    }
}

/// Adds one pixel's contributions to the accumulators.
fn add_pixel(st: &mut ImageStats, r: u8, g: u8, b: u8, x: u32, y: u32, w: u32, h: u32)
    requires
        old(st).histogram@.len() == 256,
        sums_bounded(*old(st), old(st).total as int),
        old(st).total < 0xFFFF_FFFF_FFFF_FFFF,
    ensures
        adds_pixel(
            *old(st),
            *final(st),
            (r as int, g as int, b as int, x as int, y as int),
            w as int,
            h as int,
        ),
{
    let ghost q = (r as int, g as int, b as int, x as int, y as int);
    let v = luminance(r, g, b);
    let c = st.histogram[v as usize];
    st.histogram.set(v as usize, c + 1);
    st.sum_brightness = st.sum_brightness + v as u128;
    let vv: u32 = square_u8(v);
    st.sum_sq_brightness = st.sum_sq_brightness + vv as u128;
    st.sum_r = st.sum_r + r as u128;
    st.sum_g = st.sum_g + g as u128;
    st.sum_b = st.sum_b + b as u128;
    st.sum_saturation_ppm = st.sum_saturation_ppm + saturation_ppm(r, g, b) as u128;
    let k = region_of(w, h, x, y);
    if k == 0 {
        st.center_sum = st.center_sum + v as u128;
        st.center_count = st.center_count + 1;
    } else if k == 2 {
        st.edge_sum = st.edge_sum + v as u128;
        st.edge_count = st.edge_count + 1;
    }
    if is_skin_tone(r, g, b) {
        st.skin_count = st.skin_count + 1;
    }
    if is_warm_tone(r, g, b) {
        st.warm_count = st.warm_count + 1;
    }
    if is_green_tone(r, g, b) {
        st.green_count = st.green_count + 1;
    }
    if is_gray_candidate(r, g, b) {
        st.gray_count = st.gray_count + 1;
        st.gray_sum_r = st.gray_sum_r + r as u128;
        st.gray_sum_g = st.gray_sum_g + g as u128;
        st.gray_sum_b = st.gray_sum_b + b as u128;
    }
}

fn square_u8(v: u8) -> (r: u32)
    ensures
        r as int == v as int * v as int,
{
    assert(v as int * v as int <= 65025) by (nonlinear_arith)
        requires
            v <= 255,
    ;
    (v as u32) * (v as u32)
}

/// The single pass over every pixel.
fn pixel_pass(img: &Raster) -> (s: ImageStats)
    requires
        img.wf(),
    ensures
        sums_agree(*img, s, pixel_count(*img)),
        sums_bounded(s, pixel_count(*img)),
        s.total == pixel_count(*img),
{
    let w = img.width;
    let h = img.height;
    let total: usize = img.pixels.len() / 3;
    assert(total == pixel_count(*img) && 3 * total == img.pixels@.len()) by (nonlinear_arith)
        requires
            img.pixels@.len() == 3 * (img.width as int) * (img.height as int),
            pixel_count(*img) == img.width as int * img.height as int,
            total == img.pixels@.len() / 3,
    ;
    let mut st = ImageStats {
        total: 0,
        histogram: vec![0u64; 256],
        sum_brightness: 0,
        sum_sq_brightness: 0,
        sum_r: 0,
        sum_g: 0,
        sum_b: 0,
        sum_saturation_ppm: 0,
        center_sum: 0,
        center_count: 0,
        edge_sum: 0,
        edge_count: 0,
        skin_count: 0,
        warm_count: 0,
        green_count: 0,
        gray_count: 0,
        gray_sum_r: 0,
        gray_sum_g: 0,
        gray_sum_b: 0,
        variances36: Vec::new(),
        noise36: 0,
        variance36_sum: 0,
    };
    let ghost px = img.pixels@;
    let ghost wi = w as int;
    let ghost hi = h as int;
    let n = img.pixels.len();
    proof {
        if total > 0 {
            assert(wi > 0 && hi > 0) by (nonlinear_arith)
                requires
                    total == wi * hi,
                    total > 0,
                    wi >= 0,
                    hi >= 0,
            ;
        }
    }
    let mut p: usize = 0;
    let mut x: u32 = 0;
    let mut y: u32 = 0;
    while p < total
        invariant
            n == px.len(),
            img.wf(),
            px == img.pixels@,
            wi == w as int,
            hi == h as int,
            w == img.width,
            h == img.height,
            total == pixel_count(*img),
            3 * total == px.len(),
            p <= total,
            p < total ==> x < w && y < h,
            p == y as int * wi + x as int,
            st.total == p,
            sums_agree(*img, st, p as int),
            sums_bounded(st, p as int),
        decreases total - p,
    {
        proof {
            vstd::arithmetic::div_mod::lemma_fundamental_div_mod_converse(
                p as int,
                wi,
                y as int,
                x as int,
            );
        }
        let r = img.pixels[3 * p];
        let g = img.pixels[3 * p + 1];
        let b = img.pixels[3 * p + 2];
        assert(pix(px, wi, p as int) == (r as int, g as int, b as int, x as int, y as int));
        let ghost prev = st;
        add_pixel(&mut st, r, g, b, x, y, w, h);
        proof {
            lemma_sums_step(*img, prev, st, p as int);
        }
        st.total = st.total + 1;
        p = p + 1;
        if x + 1 < w {
            x = x + 1;
        } else {
            proof {
                assert(y as int * wi + wi == (y as int + 1) * wi) by (nonlinear_arith);
                if p < total {
                    assert((y as int + 1) < hi) by (nonlinear_arith)
                        requires
                            p == (y as int + 1) * wi,
                            p < wi * hi,
                            wi > 0,
                    ;
                }
            }
            x = 0;
            y = y + 1;
        }
    }
    st
}

/// R + G + B of pixel (x, y).
pub open spec fn chan_sum(px: Seq<u8>, w: int, x: int, y: int) -> int {
    let i = 3 * (y * w + x);
    px[i] as int + px[i + 1] as int + px[i + 2] as int
}

pub open spec fn sq(a: int) -> int {
    a * a
}

/// The local variance of `(R + G + B) / 3` over the four axis neighbours of
/// (x, y), scaled by 36: `sum over neighbours of (C - N)^2` where C and N
/// are channel sums.
pub open spec fn var36(px: Seq<u8>, w: int, x: int, y: int) -> int {
    let c = chan_sum(px, w, x, y);
    sq(c - chan_sum(px, w, x - 1, y)) + sq(c - chan_sum(px, w, x + 1, y)) + sq(
        c - chan_sum(px, w, x, y - 1),
    ) + sq(c - chan_sum(px, w, x, y + 1))
}

/// Stride of the sampled pass: one in every thousandth of the pixels, at
/// least 1.
pub open spec fn sample_step(w: int, h: int) -> int {
    if (w * h) / 1000 >= 1 {
        (w * h) / 1000
    } else {
        1
    }
}

/// Samples of row `y` at columns `x, x + step, ...` short of the last column.
pub open spec fn row_samples(px: Seq<u8>, w: int, y: int, x: int, step: int) -> Seq<u64>
    decreases (if x < w { w - x } else { 0 }),
{
    if x + 1 >= w || step <= 0 {
        seq![]
    } else {
        seq![#[verifier::truncate] (var36(px, w, x, y) as u64)] + row_samples(px, w, y, x + step, step)
    }
}

/// Samples of rows `y, y + step, ...` short of the last row.
pub open spec fn rows_samples(px: Seq<u8>, w: int, h: int, y: int, step: int) -> Seq<u64>
    decreases (if y < h { h - y } else { 0 }),
{
    if y + 1 >= h || step <= 0 {
        seq![]
    } else {
        row_samples(px, w, y, 1, step) + rows_samples(px, w, h, y + step, step)
    }
}

/// The sampled local variances of the interior of `img`, row by row.
pub open spec fn sampled_variances(img: Raster) -> Seq<u64> {
    let w = img.width as int;
    let h = img.height as int;
    rows_samples(img.pixels@, w, h, 1, sample_step(w, h))
}

pub open spec fn seq_sum(s: Seq<u64>) -> int
    decreases s.len(),
{
    if s.len() == 0 {
        0
    } else {
        seq_sum(s.drop_last()) + s.last() as int
    }
}

proof fn lemma_index_in_raster(w: int, h: int, x: int, y: int)
    requires
        0 <= x < w,
        0 <= y < h,
    ensures
        0 <= y * w + x < w * h,
{
    assert(0 <= y * w + x < w * h) by (nonlinear_arith)
        requires
            0 <= x < w,
            0 <= y < h,
    ;
}

fn chan_sum_at(img: &Raster, x: u32, y: u32) -> (c: u32)
    requires
        img.wf(),
        x < img.width,
        y < img.height,
    ensures
        c as int == chan_sum(img.pixels@, img.width as int, x as int, y as int),
        c <= 765,
{
    let n = img.pixels.len();
    proof {
        lemma_index_in_raster(img.width as int, img.height as int, x as int, y as int);
        assert(3 * (img.width as int) * (img.height as int) == 3 * ((img.width as int) * (
        img.height as int))) by (nonlinear_arith);
        assert((y as int) * (img.width as int) <= (y as int) * (img.width as int) + x as int);
    }
    let i: usize = 3 * ((y as usize) * (img.width as usize) + x as usize);
    img.pixels[i] as u32 + img.pixels[i + 1] as u32 + img.pixels[i + 2] as u32
}

fn square_diff(a: u32, b: u32) -> (r: u64)
    requires
        a <= 765,
        b <= 765,
    ensures
        r as int == sq(a as int - b as int),
        r <= 585225,
{
    let d: u64 = if a >= b { (a - b) as u64 } else { (b - a) as u64 };
    assert(d * d <= 585225 && d * d == sq(a as int - b as int)) by (nonlinear_arith)
        requires
            d <= 765,
            d == a - b || d == b - a,
    ;
    d * d
}

fn local_variance36(img: &Raster, x: u32, y: u32) -> (v: u64)
    requires
        img.wf(),
        1 <= x,
        x + 1 < img.width,
        1 <= y,
        y + 1 < img.height,
    ensures
        v as int == var36(img.pixels@, img.width as int, x as int, y as int),
        v <= 2340900,
{
    let c = chan_sum_at(img, x, y);
    let l = chan_sum_at(img, x - 1, y);
    let r = chan_sum_at(img, x + 1, y);
    let t = chan_sum_at(img, x, y - 1);
    let b = chan_sum_at(img, x, y + 1);
    square_diff(c, l) + square_diff(c, r) + square_diff(c, t) + square_diff(c, b)
}

/// The sampled pass: local variances at every `step`-th interior column of
/// every `step`-th interior row.
fn sample_local_variances(img: &Raster) -> (r: Vec<u64>)
    requires
        img.wf(),
    ensures
        r@ == sampled_variances(*img),
        forall|k: int| 0 <= k < r@.len() ==> #[trigger] r@[k] <= 2340900,
{
    let w = img.width;
    let h = img.height;
    assert((w as int) * (h as int) <= 0xFFFF_FFFE_0000_0001) by (nonlinear_arith)
        requires
            w <= 0xFFFF_FFFFu32,
            h <= 0xFFFF_FFFFu32,
    ;
    let total: u64 = (w as u64) * (h as u64);
    let step: u64 = if total / 1000 >= 1 { total / 1000 } else { 1 };
    assert(step as int == sample_step(w as int, h as int));
    let ghost px = img.pixels@;
    let ghost all = sampled_variances(*img);
    let mut out: Vec<u64> = Vec::new();
    let mut y: u64 = 1;
    while y + 1 < h as u64
        invariant
            img.wf(),
            px == img.pixels@,
            w == img.width,
            h == img.height,
            step >= 1,
            step <= 0x80_0000_0000_0000,
            step as int == sample_step(w as int, h as int),
            all == sampled_variances(*img),
            1 <= y,
            y <= h + step,
            out@ + rows_samples(px, w as int, h as int, y as int, step as int) == all,
            forall|k: int| 0 <= k < out@.len() ==> #[trigger] out@[k] <= 2340900,
        decreases h + step - y,
    {
        let ghost rest = rows_samples(px, w as int, h as int, (y + step) as int, step as int);
        let mut x: u64 = 1;
        while x + 1 < w as u64
            invariant
                img.wf(),
                px == img.pixels@,
                w == img.width,
                h == img.height,
                step >= 1,
                step <= 0x80_0000_0000_0000,
                1 <= y,
                y + 1 < h,
                1 <= x,
                x <= w + step,
                out@ + row_samples(px, w as int, y as int, x as int, step as int) + rest == all,
                forall|k: int| 0 <= k < out@.len() ==> #[trigger] out@[k] <= 2340900,
            decreases w + step - x,
        {
            let v = local_variance36(img, x as u32, y as u32);
            let ghost before = out@;
            out.push(v);
            assert(before + row_samples(px, w as int, y as int, x as int, step as int) + rest
                =~= out@ + row_samples(px, w as int, y as int, (x + step) as int, step as int)
                + rest);
            x = x + step;
        }
        assert(row_samples(px, w as int, y as int, x as int, step as int) =~= seq![]);
        assert(out@ + seq![] + rest =~= out@ + rest);
        y = y + step;
    }
    assert(out@ + seq![] =~= out@);
    out
}

/// Relies on `slice::sort_unstable`, which sorts a slice in ascending order
/// and keeps its elements.
#[verifier::external_body]
fn sort_ascending(v: &mut Vec<u64>)
    ensures
        final(v)@.to_multiset() == old(v)@.to_multiset(),
        sorted_by(final(v)@, |a: u64, b: u64| a <= b),
{
    v.sort_unstable()
}

/// The samples, summed.
fn sum_samples(v: &Vec<u64>) -> (t: u128)
    requires
        forall|k: int| 0 <= k < v@.len() ==> #[trigger] v@[k] <= 2340900,
    ensures
        t == seq_sum(v@),
        t <= 2340900 * v@.len(),
{
    let mut acc: u128 = 0;
    let mut i: usize = 0;
    while i < v.len()
        invariant
            i <= v@.len(),
            forall|k: int| 0 <= k < v@.len() ==> #[trigger] v@[k] <= 2340900,
            acc == seq_sum(v@.take(i as int)),
            acc <= 2340900 * i,
        decreases v@.len() - i,
    {
        assert(v@.take(i + 1).drop_last() =~= v@.take(i as int));
        acc = acc + v[i] as u128;
        i = i + 1;
    }
    assert(v@.take(v@.len() as int) =~= v@);
    acc
}

/// `s` holds the statistics of `img`: the sums over every pixel, the
/// sampled local variances sorted ascending, their sum, and the noise
/// estimate at rank `len / 4`.
pub open spec fn stats_of_image(img: Raster, s: ImageStats) -> bool {
    &&& s.total == pixel_count(img)
    &&& sums_agree(img, s, pixel_count(img))
    &&& s.variances36@.to_multiset() == sampled_variances(img).to_multiset()
    &&& sorted_by(s.variances36@, |a: u64, b: u64| a <= b)
    &&& s.noise36 == if s.variances36@.len() > 0 {
        s.variances36@[s.variances36@.len() as int / 4]
    } else {
        0
    }
    &&& s.variance36_sum == seq_sum(sampled_variances(img))
}

/// Computes the statistics of a raster: one pass over every pixel and a
/// sampled pass for local variances. The noise estimate is the sample at
/// rank `len / 4` (the 25th percentile) of the sorted local variances, or 0
/// when there are none.
pub fn compute_image_stats(img: &Raster) -> (s: ImageStats)
    requires
        img.wf(),
    ensures
        stats_of_image(*img, s),
        s.total <= MAX_PIXELS ==> s.wf(),
{
    let mut st = pixel_pass(img);
    let mut samples = sample_local_variances(img);
    st.variance36_sum = sum_samples(&samples);
    sort_ascending(&mut samples);
    let len = samples.len();
    st.noise36 = if len > 0 { samples[len / 4] } else { 0 };
    proof {
        broadcast use vstd::seq_lib::group_to_multiset_ensures;

        let before = sampled_variances(*img);
        assert(samples@.to_multiset().len() == before.to_multiset().len());
        assert(samples@.len() == before.len());
        if len > 0 {
            let x = samples@[len as int / 4];
            assert(samples@.contains(x));
            assert(samples@.to_multiset().count(x) > 0);
            assert(before.to_multiset().count(x) > 0);
            assert(before.contains(x));
        }
    }
    st.variances36 = samples;
    st
}

/// Every pixel of `img` is the gray (v, v, v).
pub open spec fn uniform_gray(img: Raster, v: u8) -> bool {
    forall|k: int| 0 <= k < img.pixels@.len() ==> #[trigger] img.pixels@[k] == v
}

proof fn lemma_uniform_sums(img: Raster, v: u8, n: int)
    requires
        img.wf(),
        uniform_gray(img, v),
        0 <= n <= pixel_count(img),
    ensures
        sum_px(img.pixels@, img.width as int, n, m_lum()) == n * v,
        sum_px(img.pixels@, img.width as int, n, m_lum_sq()) == n * (v * v),
    decreases n,
{
    if n > 0 {
        lemma_uniform_sums(img, v, n - 1);
        let p = n - 1;
        assert(3 * p + 2 < img.pixels@.len()) by (nonlinear_arith)
            requires
                p < pixel_count(img),
                pixel_count(img) == img.width as int * img.height as int,
                img.pixels@.len() == 3 * (img.width as int) * (img.height as int),
        ;
        let q = pix(img.pixels@, img.width as int, p);
        assert(q.0 == v && q.1 == v && q.2 == v);
        assert(lum(q.0, q.1, q.2) == v);
        assert(m_lum_sq()(q) == v * v);
        assert(sum_px(img.pixels@, img.width as int, n, m_lum_sq()) == sum_px(
            img.pixels@,
            img.width as int,
            n - 1,
            m_lum_sq(),
        ) + m_lum_sq()(q));
        assert((n - 1) * v + v == n * v) by (nonlinear_arith);
        assert((n - 1) * (v * v) + v * v == n * (v * v)) by (nonlinear_arith);
    }
}

/// On a uniform gray raster of value `v` the mean brightness is exactly `v`
/// (sum of brightness = v * pixel count) and the brightness variance is 0
/// (`total * sum of squares - sum^2 = 0`).
pub proof fn lemma_uniform_gray_brightness(img: Raster, v: u8, s: ImageStats)
    requires
        img.wf(),
        uniform_gray(img, v),
        s.total == pixel_count(img),
        sums_agree(img, s, pixel_count(img)),
    ensures
        s.sum_brightness == (s.total as int) * (v as int),
        (s.total as int) * (s.sum_sq_brightness as int) - (s.sum_brightness as int) * (
        s.sum_brightness as int) == 0,
{
    lemma_uniform_sums(img, v, pixel_count(img));
    let n = s.total as int;
    assert(n * (n * (v * v)) - (n * v) * (n * v) == 0) by (nonlinear_arith);
}

} // verus!