//! The edit pipeline in its fixed order: crop, colour and tone, sharpening,
//! noise reduction, rotation. Every stage writes a new raster.
use vstd::prelude::*;
use crate::filters::{apply_detail_passes, detail_steps, pass_runs};
use crate::exposure::{exposure_gain, exposure_gain_q16, lemma_gain_pair, MAX_EXPOSURE};
use crate::models::{default_edit_state, EditState, Rotation};
use crate::raster::{apply_crop, is_region_of, is_rotated_180, is_rotated_270, is_rotated_90, rotate_image, Raster, clamped_crop};
use crate::tone::{
    apply_tone_stage, exposure_op, pixel_of, tone_pixel, to8, Rgb, NEUTRAL_TEMP,
};

verus! {

/// Every colour and tone parameter is at its neutral value.
pub open spec fn neutral_tone(e: EditState) -> bool {
    e.exposure == 0 && e.contrast == 0 && e.highlights == 0 && e.shadows == 0
        && e.white_balance_temp == NEUTRAL_TEMP && e.white_balance_tint == 0 && e.saturation == 0
        && e.vibrance == 0
}

/// `c` is the crop step of `img`.
pub open spec fn crop_step(img: Raster, e: EditState, c: Raster) -> bool {
    match e.crop {
        None => c == img,
        Some(rect) => if img.width == 0 || img.height == 0 {
            c == img
        } else {
            let (x, y, w, h) = clamped_crop(img.width as int, img.height as int, rect);
            is_region_of(c, img, x, y, w, h)
        },
    }
}

/// `t` is the colour and tone step of `c`.
pub open spec fn tone_step(c: Raster, e: EditState, gain: int, t: Raster) -> bool {
    &&& t.wf()
    &&& t.width == c.width && t.height == c.height
    &&& forall|q: int|
        0 <= q < c.pixels@.len() / 3 ==> #[trigger] pixel_of(t.pixels@, q) == tone_pixel(
            pixel_of(c.pixels@, q),
            e,
            gain,
        )
}

/// `r` is the rotation step of `d`.
pub open spec fn rotation_step(d: Raster, e: EditState, r: Raster) -> bool {
    match e.rotation {
        Rotation::Upright => r == d,
        Rotation::Cw90 => is_rotated_90(r, d),
        Rotation::Cw180 => is_rotated_180(r, d),
        Rotation::Cw270 => is_rotated_270(r, d),
    }
}

/// `r` is `img` after the colour and tone stage and the neighbour-aware
/// passes, through the intermediate rasters `t` (toned) and `m`
/// (sharpened).
pub open spec fn edit_steps(img: Raster, e: EditState, t: Raster, m: Raster, r: Raster) -> bool {
    &&& tone_step(img, e, exposure_gain(e.exposure as int), t)
    &&& detail_steps(t, e, m, r)
}

/// `r` is what `apply_edits` makes of `img` with `e`.
pub open spec fn edits_result(img: Raster, e: EditState, r: Raster) -> bool {
    &&& r.wf()
    &&& r.width == img.width && r.height == img.height
    &&& exists|t: Raster, m: Raster| #[trigger] edit_steps(img, e, t, m, r)
}

/// `r` is `img` rendered with `e`: cropped to `c`, edited to `a`, then
/// rotated.
pub open spec fn render_steps(img: Raster, e: EditState, c: Raster, a: Raster, r: Raster) -> bool {
    &&& crop_step(img, e, c)
    &&& c.wf()
    &&& a.wf()
    &&& a.width == c.width && a.height == c.height
    &&& edits_result(c, e, a)
    &&& rotation_step(a, e, r)
}

/// Applies the pixel-value edits: the colour and tone stage, then
/// sharpening and noise reduction. The size is kept; crop and rotation are
/// not applied here (see `render`).
pub fn apply_edits(img: Raster, edits: &EditState) -> (r: Raster)
    requires
        img.wf(),
    ensures
        edits_result(img, *edits, r),
        neutral_tone(*edits) && edits.sharpening_amount <= 0 && edits.noise_reduction <= 0
            ==> r.pixels@ == img.pixels@,
{
    let ghost g = img;
    let gain_q16 = exposure_gain_q16(edits.exposure);
    let toned = apply_tone_stage(&img, edits, gain_q16);
    let ghost tv = toned;
    let r = apply_detail_passes(toned, edits);
    let ghost mid = choose|m: Raster| detail_steps(tv, *edits, m, r);
    assert(edit_steps(g, *edits, tv, mid, r));
    proof {
        if neutral_tone(*edits) && edits.sharpening_amount <= 0 && edits.noise_reduction <= 0 {
            assert forall|q: int| 0 <= q < g.pixels@.len() / 3 implies #[trigger] pixel_of(
                tv.pixels@,
                q,
            ) == pixel_of(g.pixels@, q) by {
                lemma_neutral_tone_identity(pixel_of(g.pixels@, q), *edits, gain_q16 as int);
            }
            assert(g.pixels@.len() == 3 * ((g.width as int) * (g.height as int))) by (nonlinear_arith)
                requires
                    g.wf(),
            ;
            assert(tv.pixels@.len() == g.pixels@.len()) by (nonlinear_arith)
                requires
                    tv.wf(),
                    tv.width == g.width,
                    tv.height == g.height,
                    g.pixels@.len() == 3 * ((g.width as int) * (g.height as int)),
            ;
            assert forall|k: int| 0 <= k < g.pixels@.len() implies tv.pixels@[k] == g.pixels@[k] by {
                let q = k / 3;
                assert(pixel_of(tv.pixels@, q) == pixel_of(g.pixels@, q));
            }
            assert(tv.pixels@ =~= g.pixels@);
        }
        if pass_runs(tv, edits.sharpening_amount as int) {
            assert(mid.width == tv.width && mid.height == tv.height);
        }
    }
    r
}

/// Renders a raster with an adjustment set, in the fixed order crop,
/// pixel-value edits (`apply_edits`), rotation.
pub fn render(img: Raster, edits: &EditState) -> (r: Raster)
    requires
        img.wf(),
    ensures
        r.wf(),
        exists|c: Raster, a: Raster| #[trigger] render_steps(img, *edits, c, a, r),
        neutral_tone(*edits) && edits.crop is None && edits.rotation == Rotation::Upright
            && edits.sharpening_amount <= 0 && edits.noise_reduction <= 0 ==> r.width == img.width
            && r.height == img.height && r.pixels@ == img.pixels@,
{
    let ghost g = img;
    let cropped = match edits.crop {
        Some(rect) => apply_crop(img, &rect),
        None => img,
    };
    let ghost cv = cropped;
    let edited = apply_edits(cropped, edits);
    let ghost av = edited;
    let r = rotate_image(edited, edits.rotation);
    assert(render_steps(g, *edits, cv, av, r));
    r
}

/// With every colour and tone parameter neutral the stage leaves a pixel
/// unchanged.
pub proof fn lemma_neutral_tone_identity(p: Rgb, e: EditState, gain: int)
    requires
        neutral_tone(e),
    ensures
        tone_pixel(p, e, gain) == p,
{
}

/// Exposure by a gain and then by the gain of the opposite exposure
/// restores a channel to within one step, when the first gain brightens
/// without clipping (all gains in 16-bit fixed point).
pub proof fn lemma_exposure_round_trip(c: int, g: int, g_inv: int)
    requires
        0 <= c <= 255,
        65536 <= g,
        0 < g_inv <= 65536,
        0x1_0000_0000 <= g * g_inv < 0x1_0000_0000 + 0x4_0000 + g,
        c * g < 256 * 65536,
    ensures
        c - 1 <= to8((to8((c * g) / 65536) * g_inv) / 65536) <= c,
{
    let y = (c * g) / 65536;
    assert(0 <= c * g) by (nonlinear_arith)
        requires
            0 <= c,
            0 <= g,
    ;
    assert(0 <= y <= 255);
    assert(y * 65536 <= c * g < y * 65536 + 65536);
    let z = (y * g_inv) / 65536;
    assert(0 <= y * g_inv <= 255 * 65536) by (nonlinear_arith)
        requires
            0 <= y <= 255,
            0 < g_inv <= 65536,
    ;
    assert(z * 65536 <= y * g_inv < z * 65536 + 65536);
    assert(y * g_inv * 65536 >= c * (g * g_inv) - 65535 * g_inv) by (nonlinear_arith)
        requires
            y * 65536 >= c * g - 65535,
            0 < g_inv,
    ;
    assert(y * g_inv * 65536 <= c * (g * g_inv)) by (nonlinear_arith)
        requires
            y * 65536 <= c * g,
            0 < g_inv,
    ;
    assert(c * (g * g_inv) >= c * 0x1_0000_0000 && c * (g * g_inv) <= c * (0x1_0000_0000
        + 0x4_0000) + c * g) by (nonlinear_arith)
        requires
            0 <= c,
            0x1_0000_0000 <= g * g_inv <= 0x1_0000_0000 + 0x4_0000 + g,
    ;
    assert(z >= c - 1) by (nonlinear_arith)
        requires
            y * g_inv * 65536 >= c * 0x1_0000_0000 - 65535 * 65536,
            z * 65536 + 65536 > y * g_inv,
    ;
    assert(z <= c) by (nonlinear_arith)
        requires
            y * g_inv * 65536 <= c * (0x1_0000_0000 + 0x4_0000) + c * g,
            z * 65536 <= y * g_inv,
            c <= 255,
            c * g < 256 * 65536,
    ;
}

/// Default adjustments except for the exposure.
pub open spec fn exposure_only(e: int) -> EditState {
    EditState { exposure: e as i64, ..default_edit_state() }
}

proof fn lemma_exposure_only_pixels(img: Raster, e: int, r: Raster)
    requires
        img.wf(),
        -MAX_EXPOSURE <= e <= MAX_EXPOSURE,
        edits_result(img, exposure_only(e), r),
    ensures
        r.pixels@.len() == img.pixels@.len(),
        forall|q: int|
            0 <= q < img.pixels@.len() / 3 ==> #[trigger] pixel_of(r.pixels@, q) == if e == 0 {
                pixel_of(img.pixels@, q)
            } else {
                exposure_op(pixel_of(img.pixels@, q), exposure_gain(e))
            },
{
    let ed = exposure_only(e);
    let (t, m) = choose|t: Raster, m: Raster| edit_steps(img, ed, t, m, r);
    assert(!pass_runs(t, 0) && !pass_runs(m, 0));
    assert(r == t);
    assert(img.pixels@.len() == 3 * ((img.width as int) * (img.height as int))) by (nonlinear_arith)
        requires
            img.wf(),
    ;
    assert(r.pixels@.len() == img.pixels@.len()) by (nonlinear_arith)
        requires
            r.wf(),
            r.width == img.width,
            r.height == img.height,
            img.pixels@.len() == 3 * ((img.width as int) * (img.height as int)),
    ;
}

/// Applying an exposure of `e` hundredths of a stop (0 <= e <= 16 EV) and
/// then of `-e` restores every channel to within one step below, provided
/// the first exposure clips no channel.
pub proof fn lemma_exposure_undo(img: Raster, e: int, r1: Raster, r2: Raster)
    requires
        img.wf(),
        0 <= e <= MAX_EXPOSURE,
        forall|k: int| 0 <= k < img.pixels@.len() ==> #[trigger] img.pixels@[k] * exposure_gain(e)
            < 256 * 65536,
        edits_result(img, exposure_only(e), r1),
        edits_result(r1, exposure_only(-e), r2),
    ensures
        r2.width == img.width && r2.height == img.height,
        r2.pixels@.len() == img.pixels@.len(),
        forall|k: int| 0 <= k < img.pixels@.len() ==> img.pixels@[k] - 1 <= #[trigger] r2.pixels@[k]
            <= img.pixels@[k],
{
    lemma_exposure_only_pixels(img, e, r1);
    lemma_exposure_only_pixels(r1, -e, r2);
    if e > 0 {
        lemma_gain_pair(e);
    }
    let n = img.pixels@.len();
    assert(n == 3 * (n / 3)) by {
        assert(n == 3 * ((img.width as int) * (img.height as int))) by (nonlinear_arith)
            requires
                n == 3 * (img.width as int) * (img.height as int),
        ;
    }
    assert forall|k: int| 0 <= k < n implies img.pixels@[k] - 1 <= #[trigger] r2.pixels@[k]
        <= img.pixels@[k] by {
        let q = k / 3;
        assert(0 <= q < n / 3);
        let a = pixel_of(img.pixels@, q);
        let b = pixel_of(r1.pixels@, q);
        let c2 = pixel_of(r2.pixels@, q);
        if e > 0 {
            let g = exposure_gain(e);
            let gi = exposure_gain(-e);
            assert(img.pixels@[3 * q] * g < 256 * 65536);
            assert(img.pixels@[3 * q + 1] * g < 256 * 65536);
            assert(img.pixels@[3 * q + 2] * g < 256 * 65536);
            lemma_exposure_round_trip(a.0, g, gi);
            lemma_exposure_round_trip(a.1, g, gi);
            lemma_exposure_round_trip(a.2, g, gi);
        }
    }
}

} // verus!
