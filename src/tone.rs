//! The per-pixel colour and tone stage: exposure, contrast, highlight and
//! shadow recovery, white balance, saturation and vibrance, in that order.
//! Each operator works on one pixel at a time, computes its exact rational
//! result, rounds it down and clamps it to [0, 255] before the next
//! operator reads it. An operator whose parameter is at its neutral value
//! is skipped.
//!
//! The exposure gain `2^EV` is supplied by the caller as a fixed-point
//! number with 16 fractional bits (`gain_q16 = 2^EV * 65536`).
use vstd::prelude::*;
use crate::models::EditState;
use crate::raster::Raster;
use crate::suggest::{clamp, clamp_i, floor_div};

verus! {

pub type Rgb = (int, int, int);

/// Unit gain in 16-bit fixed point.
pub const GAIN_ONE: u64 = 65536;

/// Neutral white-balance temperature, in hundredths of a kelvin.
pub const NEUTRAL_TEMP: i64 = 550000;

pub open spec fn to8(v: int) -> int {
    clamp(v, 0, 255)
}

/// `1000 * (0.299 R + 0.587 G + 0.114 B)`.
pub open spec fn luma1000(p: Rgb) -> int {
    299 * p.0 + 587 * p.1 + 114 * p.2
}

pub open spec fn map3(p: Rgb, f: spec_fn(int) -> int) -> Rgb {
    (f(p.0), f(p.1), f(p.2))
}

/// `channel * gain`, the gain in 16-bit fixed point.
pub open spec fn exposure_op(p: Rgb, gain: int) -> Rgb {
    map3(p, |c: int| to8((c * gain) / 65536))
}

/// Contrast amount in hundredths, limited to [-255, 258].
pub open spec fn contrast_amount(a: int) -> int {
    clamp(a, -25500, 25800)
}

/// `f * (c - 128) + 128` with `f = 259 (a + 255) / (255 (259 - a))`.
pub open spec fn contrast_op(p: Rgb, a: int) -> Rgb {
    let a = contrast_amount(a);
    map3(
        p,
        |c: int|
            to8(
                (259 * (a + 25500) * (c - 128) + 128 * 255 * (25900 - a)) / (255 * (25900 - a)),
            ),
    )
}

/// Highlights: mask `clamp((Y - 128) / 127, 0, 1)`, each channel times
/// `1 - highlights/100 * mask * 0.5` (highlights in hundredths of a percent).
pub open spec fn highlights_op(p: Rgb, h: int) -> Rgb {
    let m = clamp(luma1000(p) - 128000, 0, 127000);
    map3(p, |c: int| to8((c * (2_540_000_000 - h * m)) / 2_540_000_000))
}

/// Shadows: mask `clamp((128 - Y) / 128, 0, 1)`, each channel times
/// `1 + shadows/100 * mask * 0.5`.
pub open spec fn shadows_op(p: Rgb, s: int) -> Rgb {
    let m = clamp(128000 - luma1000(p), 0, 128000);
    map3(p, |c: int| to8((c * (2_560_000_000 + s * m)) / 2_560_000_000))
}

/// `R += (temp - 5500) / 100`, `G -= tint`, `B -= (temp - 5500) / 100`.
pub open spec fn white_balance_op(p: Rgb, temp: int, tint: int) -> Rgb {
    (
        to8((10000 * p.0 + (temp - NEUTRAL_TEMP)) / 10000),
        to8((100 * p.1 - tint) / 100),
        to8((10000 * p.2 - (temp - NEUTRAL_TEMP)) / 10000),
    )
}

/// Each channel moved away from the luminance gray by `1 + sat/100`.
pub open spec fn saturation_op(p: Rgb, s: int) -> Rgb {
    let y = luma1000(p);
    map3(p, |c: int| to8((10000 * y + (10000 + s) * (1000 * c - y)) / 10_000_000))
}

pub open spec fn max_of3(p: Rgb) -> int {
    if p.0 >= p.1 && p.0 >= p.2 {
        p.0
    } else if p.1 >= p.2 {
        p.1
    } else {
        p.2
    }
}

pub open spec fn min_of3(p: Rgb) -> int {
    if p.0 <= p.1 && p.0 <= p.2 {
        p.0
    } else if p.1 <= p.2 {
        p.1
    } else {
        p.2
    }
}

/// Like saturation, with the factor `1 + vib/100 * (1 - saturation)`, so
/// that already saturated pixels move less. A black pixel stays black.
pub open spec fn vibrance_op(p: Rgb, v: int) -> Rgb {
    let y = luma1000(p);
    let mx = max_of3(p);
    let mn = min_of3(p);
    if mx == 0 {
        p
    } else {
        map3(
            p,
            |c: int|
                to8((10000 * (mx * y) + (10000 * mx + v * mn) * (1000 * c - y)) / (10_000_000 * mx)),
        )
    }
}

/// The whole stage on one pixel.
pub open spec fn tone_pixel(p: Rgb, e: EditState, gain: int) -> Rgb {
    let ex = if e.exposure != 0 { exposure_op(p, gain) } else { p };
    let ct = if e.contrast != 0 { contrast_op(ex, e.contrast as int) } else { ex };
    let hl = if e.highlights != 0 { highlights_op(ct, e.highlights as int) } else { ct };
    let sh = if e.shadows != 0 { shadows_op(hl, e.shadows as int) } else { hl };
    let wb = if e.white_balance_temp != NEUTRAL_TEMP || e.white_balance_tint != 0 {
        white_balance_op(sh, e.white_balance_temp as int, e.white_balance_tint as int)
    } else {
        sh
    };
    let sa = if e.saturation != 0 { saturation_op(wb, e.saturation as int) } else { wb };
    if e.vibrance != 0 { vibrance_op(sa, e.vibrance as int) } else { sa }
}

pub open spec fn pixel_of(px: Seq<u8>, q: int) -> Rgb {
    (px[3 * q] as int, px[3 * q + 1] as int, px[3 * q + 2] as int)
}

pub open spec fn in8(p: Rgb) -> bool {
    0 <= p.0 <= 255 && 0 <= p.1 <= 255 && 0 <= p.2 <= 255
}

type Px8 = (i128, i128, i128);

const BIG: i128 = 0x1000_0000_0000_0000_0000_0000_0000_0000;

fn to8_div(num: i128, den: i128) -> (r: i128)
    requires
        0 < den <= BIG,
        -BIG <= num <= BIG,
    ensures
        r == to8(num as int / den as int),
        0 <= r <= 255,
{
    clamp_i(floor_div(num, den), 0, 255)
}

fn luma_of(p: Px8) -> (y: i128)
    requires
        in8((p.0 as int, p.1 as int, p.2 as int)),
    ensures
        y == luma1000((p.0 as int, p.1 as int, p.2 as int)),
        0 <= y <= 255000,
{
    299 * p.0 + 587 * p.1 + 114 * p.2
}

proof fn lemma_mul_bound(a: int, b: int, ma: int, mb: int)
    requires
        -ma <= a <= ma,
        -mb <= b <= mb,
    ensures
        -(ma * mb) <= a * b <= ma * mb,
{
    assert(-(ma * mb) <= a * b <= ma * mb) by (nonlinear_arith)
        requires
            -ma <= a <= ma,
            -mb <= b <= mb,
    ;
}

pub open spec fn v8(p: Px8) -> Rgb {
    (p.0 as int, p.1 as int, p.2 as int)
}

fn exposure_px(q: Px8, gain: u64) -> (r: Px8)
    requires
        in8(v8(q)),
    ensures
        v8(r) == exposure_op(v8(q), gain as int),
        in8(v8(r)),
{
    let g = gain as i128;
    proof {
        lemma_mul_bound(q.0 as int, g as int, 255, 0x1_0000_0000_0000_0000);
        lemma_mul_bound(q.1 as int, g as int, 255, 0x1_0000_0000_0000_0000);
        lemma_mul_bound(q.2 as int, g as int, 255, 0x1_0000_0000_0000_0000);
    }
    (to8_div(q.0 * g, 65536), to8_div(q.1 * g, 65536), to8_div(q.2 * g, 65536))
}

fn contrast_px(q: Px8, amount: i64) -> (r: Px8)
    requires
        in8(v8(q)),
    ensures
        v8(r) == contrast_op(v8(q), amount as int),
        in8(v8(r)),
{
    let a = clamp_i(amount as i128, -25500, 25800);
    let k = 259 * (a + 25500);
    let base = 128 * 255 * (25900 - a);
    let den = 255 * (25900 - a);
    proof {
        lemma_mul_bound(k as int, q.0 as int - 128, 259int * 51300int, 255int);
        lemma_mul_bound(k as int, q.1 as int - 128, 259int * 51300int, 255int);
        lemma_mul_bound(k as int, q.2 as int - 128, 259int * 51300int, 255int);
    }
    (
        to8_div(k * (q.0 - 128) + base, den),
        to8_div(k * (q.1 - 128) + base, den),
        to8_div(k * (q.2 - 128) + base, den),
    )
}

fn highlights_px(q: Px8, amount: i64) -> (r: Px8)
    requires
        in8(v8(q)),
    ensures
        v8(r) == highlights_op(v8(q), amount as int),
        in8(v8(r)),
{
    let y = luma_of(q);
    let m = clamp_i(y - 128000, 0, 127000);
    let h = amount as i128;
    proof {
        lemma_mul_bound(h as int, m as int, 0x8000_0000_0000_0000, 127000);
    }
    let f = 2_540_000_000 - h * m;
    proof {
        lemma_mul_bound(q.0 as int, f as int, 255, 0x1_0000_0000_0000_0000_0000);
        lemma_mul_bound(q.1 as int, f as int, 255, 0x1_0000_0000_0000_0000_0000);
        lemma_mul_bound(q.2 as int, f as int, 255, 0x1_0000_0000_0000_0000_0000);
    }
    (
        to8_div(q.0 * f, 2_540_000_000),
        to8_div(q.1 * f, 2_540_000_000),
        to8_div(q.2 * f, 2_540_000_000),
    )
}

fn shadows_px(q: Px8, amount: i64) -> (r: Px8)
    requires
        in8(v8(q)),
    ensures
        v8(r) == shadows_op(v8(q), amount as int),
        in8(v8(r)),
{
    let y = luma_of(q);
    let m = clamp_i(128000 - y, 0, 128000);
    let s = amount as i128;
    proof {
        lemma_mul_bound(s as int, m as int, 0x8000_0000_0000_0000, 128000);
    }
    let f = 2_560_000_000 + s * m;
    proof {
        lemma_mul_bound(q.0 as int, f as int, 255, 0x1_0000_0000_0000_0000_0000);
        lemma_mul_bound(q.1 as int, f as int, 255, 0x1_0000_0000_0000_0000_0000);
        lemma_mul_bound(q.2 as int, f as int, 255, 0x1_0000_0000_0000_0000_0000);
    }
    (
        to8_div(q.0 * f, 2_560_000_000),
        to8_div(q.1 * f, 2_560_000_000),
        to8_div(q.2 * f, 2_560_000_000),
    )
}

fn white_balance_px(q: Px8, temp: i64, tint: i64) -> (r: Px8)
    requires
        in8(v8(q)),
    ensures
        v8(r) == white_balance_op(v8(q), temp as int, tint as int),
        in8(v8(r)),
{
    let shift = temp as i128 - NEUTRAL_TEMP as i128;
    let t = tint as i128;
    (
        to8_div(10000 * q.0 + shift, 10000),
        to8_div(100 * q.1 - t, 100),
        to8_div(10000 * q.2 - shift, 10000),
    )
}

fn saturation_px(q: Px8, amount: i64) -> (r: Px8)
    requires
        in8(v8(q)),
    ensures
        v8(r) == saturation_op(v8(q), amount as int),
        in8(v8(r)),
{
    let y = luma_of(q);
    let f = 10000 + amount as i128;
    proof {
        lemma_mul_bound(f as int, 1000 * (q.0 as int) - y as int, 0x8000_0000_0000_0000int + 10000int, 255000int);
        lemma_mul_bound(f as int, 1000 * (q.1 as int) - y as int, 0x8000_0000_0000_0000int + 10000int, 255000int);
        lemma_mul_bound(f as int, 1000 * (q.2 as int) - y as int, 0x8000_0000_0000_0000int + 10000int, 255000int);
    }
    (
        to8_div(10000 * y + f * (1000 * q.0 - y), 10_000_000),
        to8_div(10000 * y + f * (1000 * q.1 - y), 10_000_000),
        to8_div(10000 * y + f * (1000 * q.2 - y), 10_000_000),
    )
}

fn vibrance_px(q: Px8, amount: i64) -> (r: Px8)
    requires
        in8(v8(q)),
    ensures
        v8(r) == vibrance_op(v8(q), amount as int),
        in8(v8(r)),
{
    let y = luma_of(q);
    let mx: i128 = if q.0 >= q.1 && q.0 >= q.2 {
        q.0
    } else if q.1 >= q.2 {
        q.1
    } else {
        q.2
    };
    let mn: i128 = if q.0 <= q.1 && q.0 <= q.2 {
        q.0
    } else if q.1 <= q.2 {
        q.1
    } else {
        q.2
    };
    if mx == 0 {
        return q;
    }
    let v = amount as i128;
    proof {
        lemma_mul_bound(v as int, mn as int, 0x8000_0000_0000_0000, 255);
        lemma_mul_bound(mx as int, y as int, 255, 255000);
    }
    let f = 10000 * mx + v * mn;
    let my = mx * y;
    proof {
        lemma_mul_bound(f as int, 1000 * (q.0 as int) - y as int, 0x100_0000_0000_0000_0000int, 255000int);
        lemma_mul_bound(f as int, 1000 * (q.1 as int) - y as int, 0x100_0000_0000_0000_0000int, 255000int);
        lemma_mul_bound(f as int, 1000 * (q.2 as int) - y as int, 0x100_0000_0000_0000_0000int, 255000int);
    }
    let den = 10_000_000 * mx;
    (
        to8_div(10000 * my + f * (1000 * q.0 - y), den),
        to8_div(10000 * my + f * (1000 * q.1 - y), den),
        to8_div(10000 * my + f * (1000 * q.2 - y), den),
    )
}

/// One pixel through the whole stage.
fn tone_one(p: Px8, e: &EditState, gain: u64) -> (r: Px8)
    requires
        in8(v8(p)),
    ensures
        v8(r) == tone_pixel(v8(p), *e, gain as int),
        in8(v8(r)),
{
    let q1 = if e.exposure != 0 { exposure_px(p, gain) } else { p };
    let q2 = if e.contrast != 0 { contrast_px(q1, e.contrast) } else { q1 };
    let q3 = if e.highlights != 0 { highlights_px(q2, e.highlights) } else { q2 };
    let q4 = if e.shadows != 0 { shadows_px(q3, e.shadows) } else { q3 };
    let q5 = if e.white_balance_temp != NEUTRAL_TEMP || e.white_balance_tint != 0 {
        white_balance_px(q4, e.white_balance_temp, e.white_balance_tint)
    } else {
        q4
    };
    let q6 = if e.saturation != 0 { saturation_px(q5, e.saturation) } else { q5 };
    if e.vibrance != 0 { vibrance_px(q6, e.vibrance) } else { q6 }
}

/// Applies the colour and tone stage to every pixel, writing a new raster.
/// `gain_q16` is the exposure gain `2^EV` in 16-bit fixed point; it is used
/// only when the exposure is not zero.
pub fn apply_tone_stage(img: &Raster, edits: &EditState, gain_q16: u64) -> (r: Raster)
    requires
        img.wf(),
    ensures
        r.wf(),
        r.width == img.width && r.height == img.height,
        forall|q: int|
            0 <= q < img.pixels@.len() / 3 ==> #[trigger] pixel_of(r.pixels@, q) == tone_pixel(
                pixel_of(img.pixels@, q),
                *edits,
                gain_q16 as int,
            ),
{
    let len = img.pixels.len();
    let n = len / 3;
    assert(len == 3 * ((img.width as int) * (img.height as int))) by (nonlinear_arith)
        requires
            len == 3 * (img.width as int) * (img.height as int),
    ;
    let mut out: Vec<u8> = Vec::new();
    let mut q: usize = 0;
    while q < n
        invariant
            len == img.pixels@.len(),
            len == 3 * n,
            n == img.pixels@.len() / 3,
            q <= n,
            out@.len() == 3 * q,
            forall|k: int|
                0 <= k < q ==> #[trigger] pixel_of(out@, k) == tone_pixel(
                    pixel_of(img.pixels@, k),
                    *edits,
                    gain_q16 as int,
                ),
        decreases n - q,
    {
        let p: Px8 = (
            img.pixels[3 * q] as i128,
            img.pixels[3 * q + 1] as i128,
            img.pixels[3 * q + 2] as i128,
        );
        let t = tone_one(p, edits, gain_q16);
        let ghost before = out@;
        out.push(t.0 as u8);
        out.push(t.1 as u8);
        out.push(t.2 as u8);
        assert forall|k: int| 0 <= k < q + 1 implies #[trigger] pixel_of(out@, k) == tone_pixel(
            pixel_of(img.pixels@, k),
            *edits,
            gain_q16 as int,
        ) by {
            if k < q {
                assert(pixel_of(out@, k) == pixel_of(before, k));
            }
        }
        q = q + 1;
    }
    let r = Raster { width: img.width, height: img.height, pixels: out };
    assert(r.wf()) by (nonlinear_arith)
        requires
            r.pixels@.len() == 3 * n,
            len == 3 * n,
            len == 3 * ((img.width as int) * (img.height as int)),
            r.width == img.width,
            r.height == img.height,
    ;
    r
}

} // verus!
