//! The suggestion engine: maps statistics and scene details to a suggested
//! adjustment vector with a confidence.
//!
//! Every numeric adjustment is an integer in hundredths of its unit
//! (exposure in 1/100 EV, temperature in 1/100 K, percentages in 1/100 %),
//! rounded down from the exact rational value. Confidence is in percent.
use vstd::prelude::*;
use crate::scene::{
    backlit, landscape, macro_scene, portrait, scene_of, sunset, DynamicRange,
    highlight_mass, histogram_mass, scene_type_of, shadow_mass, spread, spread_of, SceneDetails,
    SceneType, determine_scene_type,
};
use crate::models::EditState;
use crate::stats::{ImageStats, MAX_PIXELS};

verus! {

pub open spec fn clamp(v: int, lo: int, hi: int) -> int {
    if v < lo {
        lo
    } else if v > hi {
        hi
    } else {
        v
    }
}

/// `r` is the integer square root of `x`.
pub open spec fn is_isqrt(x: int, r: int) -> bool {
    0 <= r && r * r <= x < (r + 1) * (r + 1)
}

/// The integer square root of a non-negative `x`.
pub open spec fn isqrt_of(x: int) -> int {
    choose|r: int| is_isqrt(x, r)
}

/// A suggested adjustment vector, in hundredths of each unit.
#[derive(Clone, Copy, Debug)]
pub struct AiSuggestion {
    pub exposure: i64,
    pub contrast: i64,
    pub highlights: i64,
    pub shadows: i64,
    pub white_balance_temp: i64,
    pub white_balance_tint: i64,
    pub saturation: i64,
    pub vibrance: i64,
    pub sharpening_amount: i64,
    pub noise_reduction: i64,
    pub confidence: i64,
    pub scene_type: SceneType,
    pub scene_details: SceneDetails,
}

pub proof fn lemma_isqrt_unique(x: int, a: int, b: int)
    requires
        is_isqrt(x, a),
        is_isqrt(x, b),
    ensures
        a == b,
{
    if a < b {
        assert((a + 1) * (a + 1) <= b * b) by (nonlinear_arith)
            requires
                0 <= a,
                a + 1 <= b,
        ;
    } else if b < a {
        assert((b + 1) * (b + 1) <= a * a) by (nonlinear_arith)
            requires
                0 <= b,
                b + 1 <= a,
        ;
    }
}

/// Integer square root by bisection.
pub fn isqrt(x: u64) -> (r: u64)
    ensures
        is_isqrt(x as int, r as int),
        r as int == isqrt_of(x as int),
{
    let mut lo: u64 = 0;
    let mut hi: u64 = 0x1_0000_0000;
    assert(0x1_0000_0000int * 0x1_0000_0000int > 0xFFFF_FFFF_FFFF_FFFFint) by (nonlinear_arith);
    while hi - lo > 1
        invariant
            lo < hi <= 0x1_0000_0000,
            lo * lo <= x,
            x < hi * hi,
        decreases hi - lo,
    {
        let mid: u64 = lo + (hi - lo) / 2;
        assert(mid * mid <= 0x1_0000_0000_0000_0000) by (nonlinear_arith)
            requires
                mid <= 0x1_0000_0000,
        ;
        if (mid as u128) * (mid as u128) <= x as u128 {
            lo = mid;
        } else {
            hi = mid;
        }
    }
    proof {
        assert(hi == lo + 1);
        assert(is_isqrt(x as int, lo as int));
        lemma_isqrt_unique(x as int, lo as int, isqrt_of(x as int));
    }
    lo
}

/// `a / b` rounded down.
pub fn floor_div(a: i128, b: i128) -> (q: i128)
    requires
        0 < b <= 0x1000_0000_0000_0000_0000_0000_0000_0000,
        -0x1000_0000_0000_0000_0000_0000_0000_0000 <= a <= 0x1000_0000_0000_0000_0000_0000_0000_0000,
    ensures
        q == a / b,
        a >= 0 ==> 0 <= q <= a,
        a < 0 ==> a <= q <= 0,
{
    if a >= 0 {
        assert(a / b <= a) by (nonlinear_arith)
            requires
                a >= 0,
                b >= 1,
        ;
        a / b
    } else {
        let t: i128 = (-a + b - 1) / b;
        proof {
            let u: int = -a + b - 1;
            vstd::arithmetic::div_mod::lemma_fundamental_div_mod(u, b as int);
            let rem: int = a + t * b;
            assert(t as int == u / (b as int));
            assert(t * b == (b as int) * (u / (b as int))) by (nonlinear_arith)
                requires
                    t as int == u / (b as int),
            ;
            assert((-t) * b == -(t * b)) by (nonlinear_arith);
            assert(0 <= rem < b);
            assert(b - a <= b * (1 - a)) by (nonlinear_arith)
                requires
                    a < 0,
                    b >= 1,
            ;
            assert(t <= -a) by (nonlinear_arith)
                requires
                    t * b < b * (1 - a),
                    b >= 1,
            ;
            vstd::arithmetic::div_mod::lemma_fundamental_div_mod_converse(a as int, b as int, -t, rem);
        }
        -t
    }
}

pub fn clamp_i(v: i128, lo: i128, hi: i128) -> (r: i128)
    requires
        lo <= hi,
    ensures
        r == clamp(v as int, lo as int, hi as int),
{
    if v < lo {
        lo
    } else if v > hi {
        hi
    } else {
        v
    }
}

pub open spec fn target_brightness(d: SceneDetails) -> int {
    if d.is_night {
        80
    } else if d.is_backlit {
        110
    } else {
        128
    }
}

/// More than 1% of the pixels are clipped highlights (brightness >= 245).
pub open spec fn highlights_clipped(s: ImageStats) -> bool {
    100 * highlight_mass(s) > s.total
}

/// More than 1% of the pixels are clipped shadows (brightness < 10).
pub open spec fn shadows_clipped(s: ImageStats) -> bool {
    100 * shadow_mass(s) > s.total
}

/// `clamp((target - mean) / 50, -2.5, 2.5)` EV, capped at 0.5 EV when
/// highlights clip, plus 0.5 EV for a backlit scene.
pub open spec fn exposure_of(s: ImageStats, d: SceneDetails) -> int {
    let n = s.total as int;
    let base = clamp((2 * (target_brightness(d) * n - s.sum_brightness)) / n, -250, 250);
    let capped = if highlights_clipped(s) && base > 50 {
        50int
    } else {
        base
    };
    capped + if d.is_backlit {
        50int
    } else {
        0int
    }
}

/// `clamp(-highlightsClipped * 500, -100, 0)` when highlights clip.
pub open spec fn highlights_of(s: ImageStats) -> int {
    if highlights_clipped(s) {
        clamp((-50000 * highlight_mass(s)) / (s.total as int), -10000, 0)
    } else {
        0int
    }
}

/// `clamp(shadowsClipped * 300, 0, 100)` when shadows clip, plus 30 for a
/// backlit scene.
pub open spec fn shadows_of(s: ImageStats, d: SceneDetails) -> int {
    (if shadows_clipped(s) {
        clamp((30000 * shadow_mass(s)) / (s.total as int), 0, 10000)
    } else {
        0int
    }) + if d.is_backlit {
        3000int
    } else {
        0int
    }
}

/// The contrast level (brightness std / 128) in ten-thousandths, rounded
/// down.
pub open spec fn contrast_level_e4(s: ImageStats) -> int {
    let n = s.total as int;
    if spread(s) < 0 {
        0int
    } else {
        isqrt_of((spread(s) * 100_000_000) / (16384 * (n * n)))
    }
}

pub open spec fn target_contrast(d: SceneDetails) -> int {
    if d.is_portrait {
        28
    } else if d.is_landscape {
        38
    } else {
        33
    }
}

/// `clamp((target - contrastLevel) * 100, -30, 40)`, plus 5 for a landscape.
pub open spec fn contrast_of(s: ImageStats, d: SceneDetails) -> int {
    clamp(100 * target_contrast(d) - contrast_level_e4(s), -3000, 4000) + if d.is_landscape {
        500int
    } else {
        0int
    }
}

/// Sum of every channel of every gray-point candidate.
pub open spec fn gray_total(s: ImageStats) -> int {
    s.gray_sum_r as int + s.gray_sum_g as int + s.gray_sum_b as int
}

/// A gray point exists: more than 10 candidates.
pub open spec fn has_gray_point(s: ImageStats) -> bool {
    s.gray_count > 10
}

pub open spec fn uses_gray_point(s: ImageStats) -> bool {
    has_gray_point(s) && gray_total(s) > 0
}

/// From the gray point: `clamp(5500 + (bDev - rDev) * 2, 2500, 10000)`;
/// otherwise `clamp(5500 - tempBias * 50, 3000, 8000)`. A sunset keeps at
/// least 5800.
pub open spec fn temperature_of(s: ImageStats, d: SceneDetails) -> int {
    let n = s.total as int;
    let a = gray_total(s);
    let t = if uses_gray_point(s) {
        clamp(550000 + (600000 * (s.gray_sum_r as int - s.gray_sum_b as int)) / a, 250000, 1000000)
    } else {
        clamp(550000 + (-500000 * (s.sum_r as int - s.sum_b as int)) / (255 * n), 300000, 800000)
    };
    if d.is_sunset && t < 580000 {
        580000
    } else {
        t
    }
}

/// From the gray point: `clamp((avg - g) / avg * 100, -100, 100)`;
/// otherwise `clamp(-tintBias * 30, -50, 50)`.
pub open spec fn tint_of(s: ImageStats) -> int {
    let n = s.total as int;
    let a = gray_total(s);
    if uses_gray_point(s) {
        clamp((10000 * (a - 3 * (s.gray_sum_g as int))) / a, -10000, 10000)
    } else {
        clamp(
            (-300000 * (2 * (s.sum_g as int) - s.sum_r as int - s.sum_b as int)) / (510 * n),
            -5000,
            5000,
        )
    }
}

pub open spec fn target_saturation(d: SceneDetails) -> int {
    if d.is_sunset {
        45
    } else if d.is_portrait {
        30
    } else if d.is_landscape {
        40
    } else {
        35
    }
}

/// `(targetSaturation - saturationLevel)` times `1_000_000 * total`.
pub open spec fn saturation_gap(s: ImageStats, d: SceneDetails) -> int {
    target_saturation(d) * 10000 * (s.total as int) - s.sum_saturation_ppm as int
}

/// `clamp(gap * 100, -25, 35)`, at most 10 for a portrait, plus 5 for a
/// landscape.
pub open spec fn saturation_of(s: ImageStats, d: SceneDetails) -> int {
    let v = clamp(saturation_gap(s, d) / (100 * (s.total as int)), -2500, 3500);
    let v = if d.is_portrait && v > 1000 {
        1000int
    } else {
        v
    };
    v + if d.is_landscape {
        500int
    } else {
        0int
    }
}

/// `clamp(gap * 60, -15, 30)`, at least 15 for a portrait, plus 10 for a
/// landscape.
pub open spec fn vibrance_of(s: ImageStats, d: SceneDetails) -> int {
    let v = clamp((6 * saturation_gap(s, d)) / (1000 * (s.total as int)), -1500, 3000);
    let v = if d.is_portrait && v < 1500 {
        1500int
    } else {
        v
    };
    v + if d.is_landscape {
        1000int
    } else {
        0int
    }
}

/// 15 for a portrait, 35 for a landscape, 40 for a macro, else 25; halved
/// when noisy.
pub open spec fn sharpening_of(d: SceneDetails) -> int {
    let b: int = if d.is_portrait {
        1500int
    } else if d.is_landscape {
        3500int
    } else if d.is_macro {
        4000int
    } else {
        2500int
    };
    if d.is_high_iso {
        b / 2
    } else {
        b
    }
}

/// `clamp(noise / 2, 10, 50)` when noisy, else `clamp(noise / 4, 0, 25)`
/// when the noise estimate exceeds 20, else 0.
pub open spec fn noise_reduction_of(s: ImageStats, d: SceneDetails) -> int {
    if d.is_high_iso {
        clamp((100 * (s.noise36 as int)) / 72, 1000, 5000)
    } else if s.noise36 > 720 {
        clamp((100 * (s.noise36 as int)) / 144, 0, 2500)
    } else {
        0int
    }
}

/// Confidence in percent: 85, less 20 when either clipped fraction exceeds
/// 0.1 (else less 10 when one exceeds 0.05), less 15 when the mean
/// brightness is outside [30, 225], less 10 when noisy, plus 5 for a
/// portrait, landscape or sunset, plus 5 with a gray point; clamped to
/// [30, 95].
pub open spec fn confidence_of(s: ImageStats, d: SceneDetails) -> int {
    let n = s.total as int;
    let (h, sh) = (highlight_mass(s), shadow_mass(s));
    let clip: int = if 10 * h > n || 10 * sh > n {
        20int
    } else if 20 * h > n || 20 * sh > n {
        10int
    } else {
        0int
    };
    let dark: int = if s.sum_brightness < 30 * n || s.sum_brightness > 225 * n {
        15int
    } else {
        0int
    };
    let noisy: int = if d.is_high_iso {
        10int
    } else {
        0int
    };
    let scene: int = if d.is_portrait || d.is_landscape || d.is_sunset {
        5int
    } else {
        0int
    };
    let gray: int = if has_gray_point(s) {
        5int
    } else {
        0int
    };
    clamp(85 - clip - dark - noisy + scene + gray, 30, 95)
}

/// The suggestion for statistics `s` and scene details `d`.
pub open spec fn suggestion_matches(r: AiSuggestion, s: ImageStats, d: SceneDetails) -> bool {
    &&& r.exposure == exposure_of(s, d)
    &&& r.contrast == contrast_of(s, d)
    &&& r.highlights == highlights_of(s)
    &&& r.shadows == shadows_of(s, d)
    &&& r.white_balance_temp == temperature_of(s, d)
    &&& r.white_balance_tint == tint_of(s)
    &&& r.saturation == saturation_of(s, d)
    &&& r.vibrance == vibrance_of(s, d)
    &&& r.sharpening_amount == sharpening_of(d)
    &&& r.noise_reduction == noise_reduction_of(s, d)
    &&& r.confidence == confidence_of(s, d)
    &&& r.scene_type == scene_type_of(d)
    &&& r.scene_details == d
}

fn contrast_level(s: &ImageStats) -> (c: i128)
    requires
        s.wf(),
        s.total > 0,
    ensures
        c == contrast_level_e4(*s),
        0 <= c <= 0x1_0000_0000,
{
    let sp = spread_of(s);
    if sp < 0 {
        return 0;
    }
    let n = s.total as i128;
    assert(n * n <= 0x1_0000_0000_0000_0000_0000) by (nonlinear_arith)
        requires
            0 < n <= MAX_PIXELS,
    ;
    assert(n * n >= 1) by (nonlinear_arith)
        requires
            0 < n,
    ;
    let den: i128 = 16384 * (n * n);
    let x = floor_div(sp * 100_000_000, den);
    proof {
        assert((s.total as int) * (s.sum_sq_brightness as int) <= 65025 * (n * n)) by (nonlinear_arith)
            requires
                s.sum_sq_brightness <= 65025 * n,
                n == s.total,
                0 < n,
        ;
        assert(x <= 65025 * 100_000_000 / 16384) by (nonlinear_arith)
            requires
                x as int == (sp as int * 100_000_000) / (den as int),
                sp <= 65025 * (n * n),
                den == 16384 * (n * n),
                n * n >= 1,
        ;
        assert(x >= 0) by (nonlinear_arith)
            requires
                x as int == (sp as int * 100_000_000) / (den as int),
                sp >= 0,
                den > 0,
        ;
    }
    let r = isqrt(x as u64);
    proof {
        assert(r <= 0x1_0000_0000) by (nonlinear_arith)
            requires
                r * r <= x,
                x <= 0xFFFF_FFFF_FFFF_FFFF,
                r >= 0,
        ;
    }
    r as i128
}

/// Computes the suggested adjustments for statistics `s` and scene
/// details `d`.
pub fn compute_suggestions_from_stats(s: &ImageStats, d: &SceneDetails) -> (r: AiSuggestion)
    requires
        s.wf(),
        s.total > 0,
    ensures
        suggestion_matches(r, *s, *d),
{
    let n = s.total as i128;
    let sb = s.sum_brightness as i128;
    let hm = histogram_mass(&s.histogram, 245, 256) as i128;
    let sm = histogram_mass(&s.histogram, 0, 10) as i128;
    let hclip = 100 * hm > n;
    let sclip = 100 * sm > n;
    // exposure, highlights, shadows
    let target: i128 = if d.is_night {
        80
    } else if d.is_backlit {
        110
    } else {
        128
    };
    assert(0 <= target * n <= 128 * MAX_PIXELS) by (nonlinear_arith)
        requires
            0 <= target <= 128,
            0 <= n <= MAX_PIXELS,
    ;
    let base = clamp_i(floor_div(2 * (target * n - sb), n), -250, 250);
    let capped = if hclip && base > 50 {
        50
    } else {
        base
    };
    let exposure = capped + if d.is_backlit {
        50
    } else {
        0
    };
    let highlights = if hclip {
        clamp_i(floor_div(-50000 * hm, n), -10000, 0)
    } else {
        0
    };
    let shadows = (if sclip {
        clamp_i(floor_div(30000 * sm, n), 0, 10000)
    } else {
        0
    }) + if d.is_backlit {
        3000
    } else {
        0
    };
    // contrast
    let tc: i128 = if d.is_portrait {
        28
    } else if d.is_landscape {
        38
    } else {
        33
    };
    let contrast = clamp_i(100 * tc - contrast_level(s), -3000, 4000) + if d.is_landscape {
        500
    } else {
        0
    };
    // white balance
    let a: i128 = s.gray_sum_r as i128 + s.gray_sum_g as i128 + s.gray_sum_b as i128;
    let (t0, tint) = if s.gray_count > 10 && a > 0 {
        (
            clamp_i(
                550000 + floor_div(600000 * (s.gray_sum_r as i128 - s.gray_sum_b as i128), a),
                250000,
                1000000,
            ),
            clamp_i(floor_div(10000 * (a - 3 * (s.gray_sum_g as i128)), a), -10000, 10000),
        )
    } else {
        (
            clamp_i(
                550000 + floor_div(-500000 * (s.sum_r as i128 - s.sum_b as i128), 255 * n),
                300000,
                800000,
            ),
            clamp_i(
                floor_div(
                    -300000 * (2 * (s.sum_g as i128) - s.sum_r as i128 - s.sum_b as i128),
                    510 * n,
                ),
                -5000,
                5000,
            ),
        )
    };
    let temp = if d.is_sunset && t0 < 580000 {
        580000
    } else {
        t0
    };
    // saturation and vibrance
    let ts: i128 = if d.is_sunset {
        45
    } else if d.is_portrait {
        30
    } else if d.is_landscape {
        40
    } else {
        35
    };
    assert(0 <= ts * 10000 * n <= 450000 * MAX_PIXELS) by (nonlinear_arith)
        requires
            0 <= ts <= 45,
            0 <= n <= MAX_PIXELS,
    ;
    let gap: i128 = ts * 10000 * n - s.sum_saturation_ppm as i128;
    let sat0 = clamp_i(floor_div(gap, 100 * n), -2500, 3500);
    let sat1 = if d.is_portrait && sat0 > 1000 {
        1000
    } else {
        sat0
    };
    let saturation = sat1 + if d.is_landscape {
        500
    } else {
        0
    };
    let vib0 = clamp_i(floor_div(6 * gap, 1000 * n), -1500, 3000);
    let vib1 = if d.is_portrait && vib0 < 1500 {
        1500
    } else {
        vib0
    };
    let vibrance = vib1 + if d.is_landscape {
        1000
    } else {
        0
    };
    // detail
    let sharp_base: i128 = if d.is_portrait {
        1500
    } else if d.is_landscape {
        3500
    } else if d.is_macro {
        4000
    } else {
        2500
    };
    let sharpening = if d.is_high_iso {
        sharp_base / 2
    } else {
        sharp_base
    };
    let noise = s.noise36 as i128;
    let noise_reduction = if d.is_high_iso {
        clamp_i(floor_div(100 * noise, 72), 1000, 5000)
    } else if s.noise36 > 720 {
        clamp_i(floor_div(100 * noise, 144), 0, 2500)
    } else {
        0
    };
    let confidence = calculate_confidence(s, d);
    AiSuggestion {
        exposure: exposure as i64,
        contrast: contrast as i64,
        highlights: highlights as i64,
        shadows: shadows as i64,
        white_balance_temp: temp as i64,
        white_balance_tint: tint as i64,
        saturation: saturation as i64,
        vibrance: vibrance as i64,
        sharpening_amount: sharpening as i64,
        noise_reduction: noise_reduction as i64,
        confidence,
        scene_type: determine_scene_type(d),
        scene_details: *d,
    }
}

/// Confidence of a suggestion, in percent.
pub fn calculate_confidence(s: &ImageStats, d: &SceneDetails) -> (c: i64)
    requires
        s.wf(),
    ensures
        c == confidence_of(*s, *d),
        30 <= c <= 95,
{
    let n = s.total as u128;
    let h = histogram_mass(&s.histogram, 245, 256);
    let sh = histogram_mass(&s.histogram, 0, 10);
    let clip: i64 = if 10 * h > n || 10 * sh > n {
        20
    } else if 20 * h > n || 20 * sh > n {
        10
    } else {
        0
    };
    let dark: i64 = if s.sum_brightness < 30 * n || s.sum_brightness > 225 * n {
        15
    } else {
        0
    };
    let noisy: i64 = if d.is_high_iso {
        10
    } else {
        0
    };
    let scene: i64 = if d.is_portrait || d.is_landscape || d.is_sunset {
        5
    } else {
        0
    };
    let gray: i64 = if s.gray_count > 10 {
        5
    } else {
        0
    };
    clamp_i((85 - clip - dark - noisy + scene + gray) as i128, 30, 95) as i64
}

/// `c` moved toward `s` by the fraction `k / 10000`, rounded down.
pub open spec fn blend_value(c: int, s: int, k: int) -> int {
    c + ((s - c) * k) / 10000
}

/// `e` with its photographic fields moved toward suggestion `sug` by the
/// fraction `k / 10000`; every other field of `e` is kept.
pub open spec fn blended(e: EditState, sug: AiSuggestion, k: int) -> EditState {
    EditState {
        exposure: blend_value(e.exposure as int, sug.exposure as int, k) as i64,
        contrast: blend_value(e.contrast as int, sug.contrast as int, k) as i64,
        highlights: blend_value(e.highlights as int, sug.highlights as int, k) as i64,
        shadows: blend_value(e.shadows as int, sug.shadows as int, k) as i64,
        white_balance_temp: blend_value(
            e.white_balance_temp as int,
            sug.white_balance_temp as int,
            k,
        ) as i64,
        white_balance_tint: blend_value(
            e.white_balance_tint as int,
            sug.white_balance_tint as int,
            k,
        ) as i64,
        saturation: blend_value(e.saturation as int, sug.saturation as int, k) as i64,
        vibrance: blend_value(e.vibrance as int, sug.vibrance as int, k) as i64,
        sharpening_amount: blend_value(
            e.sharpening_amount as int,
            sug.sharpening_amount as int,
            k,
        ) as i64,
        noise_reduction: blend_value(e.noise_reduction as int, sug.noise_reduction as int, k) as i64,
        ..e
    }
}

proof fn lemma_blend_between(c: int, s: int, k: int)
    requires
        0 <= k <= 10000,
    ensures
        c <= s ==> c <= blend_value(c, s, k) <= s,
        s <= c ==> s <= blend_value(c, s, k) <= c,
{
    let d = s - c;
    if d >= 0 {
        assert(0 <= (d * k) / 10000 <= d) by (nonlinear_arith)
            requires
                d >= 0,
                0 <= k <= 10000,
        ;
    } else {
        assert(d <= (d * k) / 10000 <= 0) by (nonlinear_arith)
            requires
                d < 0,
                0 <= k <= 10000,
        ;
    }
}

fn blend_field(c: i64, s: i64, k: i64) -> (r: i64)
    requires
        0 <= k <= 10000,
    ensures
        r == blend_value(c as int, s as int, k as int),
{
    proof {
        lemma_blend_between(c as int, s as int, k as int);
    }
    let d: i128 = s as i128 - c as i128;
    assert(-0x1_0000_0000_0000_0000_0000 <= d * (k as i128) <= 0x1_0000_0000_0000_0000_0000) by (nonlinear_arith)
        requires
            -0x1_0000_0000_0000_0000 <= d <= 0x1_0000_0000_0000_0000,
            0 <= k <= 10000,
    ;
    (c as i128 + floor_div(d * (k as i128), 10000)) as i64
}

/// Moves the photographic fields of `edits` toward `suggestion` by the
/// strength, given in ten-thousandths (0 keeps `edits`, 10000 takes the
/// suggestion) and clamped to [0, 10000]; rating, flag, crop, rotation,
/// straighten angle and sharpening radius are kept.
pub fn apply_ai_suggestion(edits: &EditState, suggestion: &AiSuggestion, strength: i64) -> (r:
    EditState)
    ensures
        r == blended(*edits, *suggestion, clamp(strength as int, 0, 10000)),
{
    let k: i64 = if strength < 0 {
        0
    } else if strength > 10000 {
        10000
    } else {
        strength
    };
    EditState {
        exposure: blend_field(edits.exposure, suggestion.exposure, k),
        contrast: blend_field(edits.contrast, suggestion.contrast, k),
        highlights: blend_field(edits.highlights, suggestion.highlights, k),
        shadows: blend_field(edits.shadows, suggestion.shadows, k),
        white_balance_temp: blend_field(edits.white_balance_temp, suggestion.white_balance_temp, k),
        white_balance_tint: blend_field(edits.white_balance_tint, suggestion.white_balance_tint, k),
        saturation: blend_field(edits.saturation, suggestion.saturation, k),
        vibrance: blend_field(edits.vibrance, suggestion.vibrance, k),
        sharpening_amount: blend_field(edits.sharpening_amount, suggestion.sharpening_amount, k),
        noise_reduction: blend_field(edits.noise_reduction, suggestion.noise_reduction, k),
        ..*edits
    }
}

/// At strength 0 blending keeps the current parameters; at full strength it
/// takes the suggestion's value for every blended field and keeps the rest.
pub proof fn lemma_blend_endpoints(e: EditState, sug: AiSuggestion)
    ensures
        blended(e, sug, 0) == e,
        blended(e, sug, 10000) == (EditState {
            exposure: sug.exposure,
            contrast: sug.contrast,
            highlights: sug.highlights,
            shadows: sug.shadows,
            white_balance_temp: sug.white_balance_temp,
            white_balance_tint: sug.white_balance_tint,
            saturation: sug.saturation,
            vibrance: sug.vibrance,
            sharpening_amount: sug.sharpening_amount,
            noise_reduction: sug.noise_reduction,
            ..e
        }),
{
}

/// Statistics with mean brightness 30 and 20% of the pixels clipped in the
/// shadows, and none of the higher-priority scene predicates, classify as a
/// night scene of high dynamic range.
pub proof fn lemma_night_scene(s: ImageStats)
    requires
        s.total > 0,
        s.sum_brightness == 30 * s.total,
        5 * shadow_mass(s) == s.total,
        !sunset(s) && !backlit(s) && !portrait(s) && !macro_scene(s) && !landscape(s),
    ensures
        scene_of(s).is_night,
        scene_of(s).dynamic_range == DynamicRange::High,
        scene_type_of(scene_of(s)) == SceneType::Night,
{
}

/// Statistics with a green ratio of 0.3 and a contrast level of 0.3
/// (brightness std 38.4), and none of the higher-priority scene predicates,
/// classify as a landscape, and the suggested contrast is
/// `(0.38 - 0.3) * 100 + 5 = 13`.
pub proof fn lemma_landscape_scene(s: ImageStats)
    requires
        s.total > 0,
        10 * s.green_count == 3 * s.total,
        100 * spread(s) == 147456 * ((s.total as int) * (s.total as int)),
        !sunset(s) && !backlit(s) && !portrait(s) && !macro_scene(s),
    ensures
        scene_of(s).is_landscape,
        scene_type_of(scene_of(s)) == SceneType::Landscape,
        contrast_of(s, scene_of(s)) == 1300,
{
    let n = s.total as int;
    assert(spread(s) > 1024 * (n * n)) by (nonlinear_arith)
        requires
            100 * spread(s) == 147456 * (n * n),
            n > 0,
    ;
    assert((spread(s) * 100_000_000) / (16384 * (n * n)) == 9_000_000) by (nonlinear_arith)
        requires
            100 * spread(s) == 147456 * (n * n),
            n > 0,
    ;
    assert(is_isqrt(9_000_000, 3000));
    lemma_isqrt_unique(9_000_000, 3000, isqrt_of(9_000_000));
}

} // verus!
