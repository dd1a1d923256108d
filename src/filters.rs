//! Neighbour-aware passes: sharpening and noise reduction. Each reads the
//! frozen input raster and writes a fresh output raster, so no pixel is
//! computed from a value already overwritten in the same pass. Amounts are
//! in hundredths of a percent.
use vstd::prelude::*;
use crate::models::EditState;
use crate::raster::{px_index, Raster};
use crate::suggest::{clamp, clamp_i, floor_div};

verus! {

pub open spec fn is_border(w: int, h: int, x: int, y: int) -> bool {
    x == 0 || y == 0 || x == w - 1 || y == h - 1
}

/// Unsharp value at an interior pixel: `center + amount/100 % * (4 center -
/// top - bottom - left - right)`, rounded down and clamped to [0, 255].
pub open spec fn sharpen_value(img: Raster, amount: int, x: int, y: int, c: int) -> int {
    let ctr = img.chan(x, y, c) as int;
    let lap = 4 * ctr - img.chan(x, y - 1, c) as int - img.chan(x, y + 1, c) as int - img.chan(
        x - 1,
        y,
        c,
    ) as int - img.chan(x + 1, y, c) as int;
    clamp((10000 * ctr + amount * lap) / 10000, 0, 255)
}

/// Sum of the eight neighbours of (x, y) in channel `c`.
pub open spec fn neighbour_sum(img: Raster, x: int, y: int, c: int) -> int {
    img.chan(x - 1, y - 1, c) as int + img.chan(x, y - 1, c) as int + img.chan(x + 1, y - 1, c) as int
        + img.chan(x - 1, y, c) as int + img.chan(x + 1, y, c) as int + img.chan(x - 1, y + 1, c) as int
        + img.chan(x, y + 1, c) as int + img.chan(x + 1, y + 1, c) as int
}

/// Denoised value at an interior pixel: `center * (1 - f) + mean8 * f` with
/// `f = clamp(amount / 100 %, 0, 1)`, rounded down and clamped.
pub open spec fn denoise_value(img: Raster, amount: int, x: int, y: int, c: int) -> int {
    let f = clamp(amount, 0, 10000);
    let ctr = img.chan(x, y, c) as int;
    clamp((8 * ctr * (10000 - f) + neighbour_sum(img, x, y, c) * f) / 80000, 0, 255)
}

/// Output of a pass at (x, y): border pixels pass through unchanged.
pub open spec fn filtered(img: Raster, amount: int, denoise: bool, x: int, y: int, c: int) -> int {
    if is_border(img.width as int, img.height as int, x, y) {
        img.chan(x, y, c) as int
    } else if denoise {
        denoise_value(img, amount, x, y, c)
    } else {
        sharpen_value(img, amount, x, y, c)
    }
}

/// `r` is the pass over `img`.
pub open spec fn is_filtered(r: Raster, img: Raster, amount: int, denoise: bool) -> bool {
    &&& r.wf()
    &&& r.width == img.width && r.height == img.height
    &&& forall|x: int, y: int, c: int|
        0 <= x < img.width && 0 <= y < img.height && 0 <= c < 3 ==> #[trigger] r.chan(x, y, c)
            == filtered(img, amount, denoise, x, y, c)
}

fn chan_at(img: &Raster, x: u32, y: u32, c: usize) -> (v: u8)
    requires
        img.wf(),
        x < img.width,
        y < img.height,
        c < 3,
    ensures
        v == img.chan(x as int, y as int, c as int),
{
    let n = img.pixels.len();
    proof {
        let (w, h) = (img.width as int, img.height as int);
        assert(0 <= (y as int) * w + x < w * h && (y as int) * w <= (y as int) * w + x) by (nonlinear_arith)
            requires
                x < w,
                y < h,
                0 <= x,
                0 <= y,
        ;
        assert(3 * w * h == 3 * (w * h)) by (nonlinear_arith);
    }
    img.pixels[3 * ((y as usize) * (img.width as usize) + x as usize) + c]
}

fn filter_value(img: &Raster, amount: i64, denoise: bool, x: u32, y: u32, c: usize) -> (v: u8)
    requires
        img.wf(),
        x < img.width,
        y < img.height,
        c < 3,
    ensures
        v == filtered(*img, amount as int, denoise, x as int, y as int, c as int),
{
    let ctr = chan_at(img, x, y, c);
    if x == 0 || y == 0 || x == img.width - 1 || y == img.height - 1 {
        return ctr;
    }
    let t = chan_at(img, x, y - 1, c) as i128;
    let b = chan_at(img, x, y + 1, c) as i128;
    let l = chan_at(img, x - 1, y, c) as i128;
    let r = chan_at(img, x + 1, y, c) as i128;
    let a = amount as i128;
    if denoise {
        let f: i128 = clamp_i(a, 0, 10000);
        let sum8 = chan_at(img, x - 1, y - 1, c) as i128 + t + chan_at(img, x + 1, y - 1, c) as i128
            + l + r + chan_at(img, x - 1, y + 1, c) as i128 + b + chan_at(img, x + 1, y + 1, c) as i128;
        assert(0 <= 8 * (ctr as i128) * (10000 - f) <= 8 * 255 * 10000 && 0 <= sum8 * f <= 8 * 255
            * 10000) by (nonlinear_arith)
            requires
                0 <= ctr <= 255,
                0 <= f <= 10000,
                0 <= sum8 <= 8 * 255,
        ;
        let v = floor_div(8 * (ctr as i128) * (10000 - f) + sum8 * f, 80000);
        clamp_i(v, 0, 255) as u8
    } else {
        let lap: i128 = 4 * (ctr as i128) - t - b - l - r;
        assert(-0x1_0000_0000_0000_0000_0000 <= a * lap <= 0x1_0000_0000_0000_0000_0000) by (nonlinear_arith)
            requires
                -0x8000_0000_0000_0000 <= a <= 0x8000_0000_0000_0000,
                -1020 <= lap <= 1020,
        ;
        let v = floor_div(10000 * (ctr as i128) + a * lap, 10000);
        clamp_i(v, 0, 255) as u8
    }
}

/// One pass over every pixel, reading only `img` and writing a new raster.
fn filter_pass(img: &Raster, amount: i64, denoise: bool) -> (r: Raster)
    requires
        img.wf(),
    ensures
        is_filtered(r, *img, amount as int, denoise),
{
    let w = img.width;
    let h = img.height;
    let total: usize = img.pixels.len() / 3;
    let ghost wi = w as int;
    let ghost hi = h as int;
    assert(total == wi * hi && 3 * total == img.pixels@.len()) by (nonlinear_arith)
        requires
            img.pixels@.len() == 3 * wi * hi,
            total == img.pixels@.len() / 3,
    ;
    proof {
        if total > 0 {
            assert(wi > 0 && hi > 0) by (nonlinear_arith)
                requires
                    total == wi * hi,
                    total > 0,
                    wi >= 0,
                    hi >= 0,
            ;
        }
    }
    let mut out: Vec<u8> = Vec::new();
    let mut p: usize = 0;
    let mut x: u32 = 0;
    let mut y: u32 = 0;
    while p < total
        invariant
            img.wf(),
            w == img.width,
            h == img.height,
            wi == w as int,
            hi == h as int,
            total == wi * hi,
            p <= total,
            p < total ==> x < w && y < h,
            p == y as int * wi + x as int,
            out@.len() == 3 * p,
            forall|q: int, c: int|
                0 <= q < p && 0 <= c < 3 ==> #[trigger] out@[3 * q + c] == filtered(
                    *img,
                    amount as int,
                    denoise,
                    q % wi,
                    q / wi,
                    c,
                ),
        decreases total - p,
    {
        proof {
            vstd::arithmetic::div_mod::lemma_fundamental_div_mod_converse(
                p as int,
                wi,
                y as int,
                x as int,
            );
        }
        let ghost before = out@;
        let v0 = filter_value(img, amount, denoise, x, y, 0);
        let v1 = filter_value(img, amount, denoise, x, y, 1);
        let v2 = filter_value(img, amount, denoise, x, y, 2);
        out.push(v0);
        out.push(v1);
        out.push(v2);
        assert forall|q: int, c: int| 0 <= q < p + 1 && 0 <= c < 3 implies #[trigger] out@[3 * q
            + c] == filtered(*img, amount as int, denoise, q % wi, q / wi, c) by {
            if q < p {
                assert(out@[3 * q + c] == before[3 * q + c]);
            }
        }
        p = p + 1;
        if x + 1 < w {
            x = x + 1;
        } else {
            proof {
                assert(y as int * wi + wi == (y as int + 1) * wi) by (nonlinear_arith);
                if p < total {
                    assert((y as int + 1) < hi) by (nonlinear_arith)
                        requires
                            p == (y as int + 1) * wi,
                            p < wi * hi,
                            wi > 0,
                    ;
                }
            }
            x = 0;
            y = y + 1;
        }
    }
    let r = Raster { width: w, height: h, pixels: out };
    assert(r.wf()) by (nonlinear_arith)
        requires
            r.pixels@.len() == 3 * total,
            total == wi * hi,
            r.width == wi,
            r.height == hi,
    ;
    assert forall|xx: int, yy: int, c: int|
        0 <= xx < wi && 0 <= yy < hi && 0 <= c < 3 implies #[trigger] r.chan(xx, yy, c) == filtered(
            *img,
            amount as int,
            denoise,
            xx,
            yy,
            c,
        ) by {
        let q = yy * wi + xx;
        vstd::arithmetic::div_mod::lemma_fundamental_div_mod_converse(q, wi, yy, xx);
        assert(0 <= q < total) by (nonlinear_arith)
            requires
                0 <= xx < wi,
                0 <= yy < hi,
                q == yy * wi + xx,
                total == wi * hi,
        ;
        assert(px_index(wi, xx, yy) + c == 3 * q + c);
    }
    r
}

/// Sharpens with the axis-aligned 4-neighbour unsharp kernel; border pixels
/// pass through.
pub fn apply_sharpening_parallel(img: &Raster, amount: i64) -> (r: Raster)
    requires
        img.wf(),
    ensures
        is_filtered(r, *img, amount as int, false),
{
    filter_pass(img, amount, false)
}

/// Blends each interior pixel with the mean of its eight neighbours; border
/// pixels pass through.
pub fn apply_noise_reduction_parallel(img: &Raster, amount: i64) -> (r: Raster)
    requires
        img.wf(),
    ensures
        is_filtered(r, *img, amount as int, true),
{
    filter_pass(img, amount, true)
}

/// A pass runs only with a positive amount on an image of at least 3 by 3.
pub open spec fn pass_runs(img: Raster, amount: int) -> bool {
    amount > 0 && img.width > 2 && img.height > 2
}

/// `mid` is `img` after the sharpening step and `r` is `mid` after the
/// noise-reduction step.
pub open spec fn detail_steps(img: Raster, edits: EditState, mid: Raster, r: Raster) -> bool {
    &&& (if pass_runs(img, edits.sharpening_amount as int) {
        is_filtered(mid, img, edits.sharpening_amount as int, false)
    } else {
        mid == img
    })
    &&& (if pass_runs(mid, edits.noise_reduction as int) {
        is_filtered(r, mid, edits.noise_reduction as int, true)
    } else {
        r == mid
    })
}

/// The neighbour-aware steps of the pipeline, in order: sharpening, then
/// noise reduction on the sharpened raster. A step whose amount is not
/// positive, or an image smaller than 3 by 3, leaves the raster as it is.
pub fn apply_detail_passes(img: Raster, edits: &EditState) -> (r: Raster)
    requires
        img.wf(),
    ensures
        r.wf(),
        edits.sharpening_amount <= 0 && edits.noise_reduction <= 0 ==> r == img,
        exists|mid: Raster| #[trigger] detail_steps(img, *edits, mid, r),
{
    let mid = if edits.sharpening_amount > 0 && img.width > 2 && img.height > 2 {
        apply_sharpening_parallel(&img, edits.sharpening_amount)
    } else {
        img
    };
    let ghost m = mid;
    let r = if edits.noise_reduction > 0 && mid.width > 2 && mid.height > 2 {
        apply_noise_reduction_parallel(&mid, edits.noise_reduction)
    } else {
        mid
    };
    assert(detail_steps(img, *edits, m, r));
    r
}

} // verus!
