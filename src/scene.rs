//! The scene classifier: independent boolean scene flags, a colour-cast
//! label, a dynamic-range label and the primary scene type, all decided by
//! fixed thresholds on the exact statistics. A threshold on a mean or a
//! ratio is compared by cross-multiplication, so no rounding enters.
use vstd::prelude::*;
use crate::stats::{ImageStats, MAX_PIXELS, sums_bounded};

verus! {

#[derive(Clone, Copy, Debug, PartialEq, Eq, Structural)]
pub enum ColorCast {
    Warm,
    Cool,
    Green,
    Magenta,
    Neutral,
}

#[derive(Clone, Copy, Debug, PartialEq, Eq, Structural)]
pub enum DynamicRange {
    High,
    Low,
    Normal,
}

#[derive(Clone, Copy, Debug, PartialEq, Eq, Structural)]
pub enum SceneType {
    Sunset,
    Backlit,
    Portrait,
    Macro,
    Landscape,
    Night,
    General,
}

impl ColorCast {
    pub fn name(&self) -> (r: &'static str)
        ensures
            r@ == match self {
                ColorCast::Warm => "warm"@,
                ColorCast::Cool => "cool"@,
                ColorCast::Green => "green"@,
                ColorCast::Magenta => "magenta"@,
                ColorCast::Neutral => "neutral"@,
            },
    {
        match self {
            ColorCast::Warm => "warm",
            ColorCast::Cool => "cool",
            ColorCast::Green => "green",
            ColorCast::Magenta => "magenta",
            ColorCast::Neutral => "neutral",
        }
    }
}

impl DynamicRange {
    pub fn name(&self) -> (r: &'static str)
        ensures
            r@ == match self {
                DynamicRange::High => "high"@,
                DynamicRange::Low => "low"@,
                DynamicRange::Normal => "normal"@,
            },
    {
        match self {
            DynamicRange::High => "high",
            DynamicRange::Low => "low",
            DynamicRange::Normal => "normal",
        }
    }
}

impl SceneType {
    pub fn name(&self) -> (r: &'static str)
        ensures
            r@ == match self {
                SceneType::Sunset => "sunset"@,
                SceneType::Backlit => "backlit"@,
                SceneType::Portrait => "portrait"@,
                SceneType::Macro => "macro"@,
                SceneType::Landscape => "landscape"@,
                SceneType::Night => "night"@,
                SceneType::General => "general"@,
            },
    {
        match self {
            SceneType::Sunset => "sunset",
            SceneType::Backlit => "backlit",
            SceneType::Portrait => "portrait",
            SceneType::Macro => "macro",
            SceneType::Landscape => "landscape",
            SceneType::Night => "night",
            SceneType::General => "general",
        }
    }
}

/// Scene flags and labels derived from image statistics.
#[derive(Clone, Copy, Debug, PartialEq, Eq, Structural)]
pub struct SceneDetails {
    pub is_backlit: bool,
    pub is_sunset: bool,
    pub is_portrait: bool,
    pub is_macro: bool,
    pub is_landscape: bool,
    pub is_night: bool,
    pub is_high_iso: bool,
    pub color_cast: ColorCast,
    pub dynamic_range: DynamicRange,
}

/// Sum of histogram bins `lo .. hi`.
pub open spec fn hist_sum(h: Seq<u64>, lo: int, hi: int) -> int
    decreases hi - lo,
{
    if lo >= hi {
        0
    } else {
        hist_sum(h, lo, hi - 1) + h[hi - 1] as int
    }
}

/// Pixels with brightness 0..9.
pub open spec fn shadow_mass(s: ImageStats) -> int {
    hist_sum(s.histogram@, 0, 10)
}

/// Pixels with brightness 245..255.
pub open spec fn highlight_mass(s: ImageStats) -> int {
    hist_sum(s.histogram@, 245, 256)
}

/// Centre brightness as a fraction (numerator, denominator); the mean
/// brightness when the centre disk is empty.
pub open spec fn center_frac(s: ImageStats) -> (int, int) {
    if s.center_count > 0 {
        (s.center_sum as int, s.center_count as int)
    } else {
        (s.sum_brightness as int, s.total as int)
    }
}

/// Edge brightness as a fraction; the mean brightness when the ring is empty.
pub open spec fn edge_frac(s: ImageStats) -> (int, int) {
    if s.edge_count > 0 {
        (s.edge_sum as int, s.edge_count as int)
    } else {
        (s.sum_brightness as int, s.total as int)
    }
}

/// `total^2` times the brightness variance.
pub open spec fn spread(s: ImageStats) -> int {
    (s.total as int) * (s.sum_sq_brightness as int) - (s.sum_brightness as int) * (
    s.sum_brightness as int)
}

/// `total * 100 * colour-temperature bias * 255 / 100`: mean R minus mean B,
/// times the pixel count.
pub open spec fn temp_bias_num(s: ImageStats) -> int {
    s.sum_r as int - s.sum_b as int
}

/// Mean G minus the mean of R and B, times twice the pixel count.
pub open spec fn tint_bias_num(s: ImageStats) -> int {
    2 * (s.sum_g as int) - s.sum_r as int - s.sum_b as int
}

/// Edge brightness exceeds centre brightness by more than 30 and the centre
/// is darker than 100.
pub open spec fn backlit(s: ImageStats) -> bool {
    let (c, cd) = center_frac(s);
    let (e, ed) = edge_frac(s);
    e * cd - c * ed > 30 * (ed * cd) && c < 100 * cd
}

/// Warm-pixel ratio above 0.15 and colour-temperature bias above 10.
pub open spec fn sunset(s: ImageStats) -> bool {
    100 * (s.warm_count as int) > 15 * (s.total as int) && 100 * temp_bias_num(s) > 2550 * (
    s.total as int)
}

/// Skin-tone ratio strictly between 0.05 and 0.4.
pub open spec fn portrait(s: ImageStats) -> bool {
    100 * (s.skin_count as int) > 5 * (s.total as int) && 10 * (s.skin_count as int) < 4 * (
    s.total as int)
}

/// Mean local variance above 500 and mean saturation above 0.3.
pub open spec fn macro_scene(s: ImageStats) -> bool {
    s.variance36_sum > 18000 * s.variances36@.len() && 10 * (s.sum_saturation_ppm as int)
        > 3_000_000 * (s.total as int)
}

/// Green ratio above 0.2 and contrast level (std / 128) above 0.25.
pub open spec fn landscape(s: ImageStats) -> bool {
    10 * (s.green_count as int) > 2 * (s.total as int) && spread(s) > 1024 * ((s.total as int)
        * (s.total as int))
}

/// Mean brightness below 50 and shadow-clipped fraction above 0.15.
pub open spec fn night(s: ImageStats) -> bool {
    s.sum_brightness < 50 * (s.total as int) && 100 * shadow_mass(s) > 15 * (s.total as int)
}

/// Noise estimate above 50.
pub open spec fn high_iso(s: ImageStats) -> bool {
    s.noise36 > 1800
}

/// Temperature bias above 15 is warm, below -15 cool; otherwise tint bias
/// above 10 is green, below -10 magenta; otherwise neutral.
pub open spec fn color_cast_of(s: ImageStats) -> ColorCast {
    let n = s.total as int;
    if 100 * temp_bias_num(s) > 3825 * n {
        ColorCast::Warm
    } else if 100 * temp_bias_num(s) < -3825 * n {
        ColorCast::Cool
    } else if 100 * tint_bias_num(s) > 5100 * n {
        ColorCast::Green
    } else if 100 * tint_bias_num(s) < -5100 * n {
        ColorCast::Magenta
    } else {
        ColorCast::Neutral
    }
}

/// High when either clipped fraction exceeds 0.02; else low when the
/// contrast level is below 0.2; else normal.
pub open spec fn dynamic_range_of(s: ImageStats) -> DynamicRange {
    let n = s.total as int;
    if 100 * highlight_mass(s) > 2 * n || 100 * shadow_mass(s) > 2 * n {
        DynamicRange::High
    } else if 100 * spread(s) < 65536 * (n * n) {
        DynamicRange::Low
    } else {
        DynamicRange::Normal
    }
}

pub open spec fn scene_of(s: ImageStats) -> SceneDetails {
    SceneDetails {
        is_backlit: backlit(s),
        is_sunset: sunset(s),
        is_portrait: portrait(s),
        is_macro: macro_scene(s),
        is_landscape: landscape(s),
        is_night: night(s),
        is_high_iso: high_iso(s),
        color_cast: color_cast_of(s),
        dynamic_range: dynamic_range_of(s),
    }
}

/// The first of sunset, backlit, portrait, macro, landscape, night that
/// holds, else general.
pub open spec fn scene_type_of(d: SceneDetails) -> SceneType {
    if d.is_sunset {
        SceneType::Sunset
    } else if d.is_backlit {
        SceneType::Backlit
    } else if d.is_portrait {
        SceneType::Portrait
    } else if d.is_macro {
        SceneType::Macro
    } else if d.is_landscape {
        SceneType::Landscape
    } else if d.is_night {
        SceneType::Night
    } else {
        SceneType::General
    }
}

proof fn lemma_mul_le(a: int, b: int, ma: int, mb: int)
    requires
        0 <= a <= ma,
        0 <= b <= mb,
    ensures
        0 <= a * b <= ma * mb,
{
    assert(0 <= a * b <= ma * mb) by (nonlinear_arith)
        requires
            0 <= a <= ma,
            0 <= b <= mb,
    ;
}

/// Sum of histogram bins `lo .. hi`.
pub fn histogram_mass(h: &Vec<u64>, lo: usize, hi: usize) -> (t: u128)
    requires
        lo <= hi <= h@.len(),
        hi <= 256,
        forall|b: int| 0 <= b < h@.len() ==> #[trigger] h@[b] <= MAX_PIXELS,
    ensures
        t == hist_sum(h@, lo as int, hi as int),
        t <= 256 * MAX_PIXELS,
{
    let mut acc: u128 = 0;
    let mut i: usize = lo;
    while i < hi
        invariant
            lo <= i <= hi,
            hi <= h@.len(),
            hi <= 256,
            forall|b: int| 0 <= b < h@.len() ==> #[trigger] h@[b] <= MAX_PIXELS,
            acc == hist_sum(h@, lo as int, i as int),
            acc <= (i - lo) * MAX_PIXELS,
        decreases hi - i,
    {
        acc = acc + h[i] as u128;
        i = i + 1;
    }
    acc
}

/// `total^2` times the brightness variance.
pub(crate) fn spread_of(s: &ImageStats) -> (v: i128)
    requires
        s.wf(),
    ensures
        v == spread(*s),
        -0x1_0000_0000_0000_0000_0000_0000 <= v <= 0x1_0000_0000_0000_0000_0000_0000,
{
    proof {
        lemma_mul_le(s.total as int, s.sum_sq_brightness as int, MAX_PIXELS as int, 65025 * MAX_PIXELS);
        lemma_mul_le(s.sum_brightness as int, s.sum_brightness as int, 255 * MAX_PIXELS, 255 * MAX_PIXELS);
    }
    (s.total as i128) * (s.sum_sq_brightness as i128) - (s.sum_brightness as i128) * (
    s.sum_brightness as i128)
}

fn is_backlit(s: &ImageStats) -> (t: bool)
    requires
        s.wf(),
    ensures
        t == backlit(*s),
{
    let (c, cd): (u128, u128) = if s.center_count > 0 {
        (s.center_sum, s.center_count as u128)
    } else {
        (s.sum_brightness, s.total as u128)
    };
    let (e, ed): (u128, u128) = if s.edge_count > 0 {
        (s.edge_sum, s.edge_count as u128)
    } else {
        (s.sum_brightness, s.total as u128)
    };
    proof {
        lemma_mul_le(e as int, cd as int, 255 * MAX_PIXELS, MAX_PIXELS as int);
        lemma_mul_le(c as int, ed as int, 255 * MAX_PIXELS, MAX_PIXELS as int);
        lemma_mul_le(ed as int, cd as int, MAX_PIXELS as int, MAX_PIXELS as int);
    }
    let lhs: i128 = (e * cd) as i128 - (c * ed) as i128;
    lhs > 30 * ((ed * cd) as i128) && c < 100 * cd
}

/// The colour-cast label of the statistics.
pub fn detect_color_cast(s: &ImageStats) -> (c: ColorCast)
    requires
        s.wf(),
    ensures
        c == color_cast_of(*s),
{
    let n = s.total as i128;
    let temp = s.sum_r as i128 - s.sum_b as i128;
    let tint = 2 * (s.sum_g as i128) - s.sum_r as i128 - s.sum_b as i128;
    if 100 * temp > 3825 * n {
        ColorCast::Warm
    } else if 100 * temp < -3825 * n {
        ColorCast::Cool
    } else if 100 * tint > 5100 * n {
        ColorCast::Green
    } else if 100 * tint < -5100 * n {
        ColorCast::Magenta
    } else {
        ColorCast::Neutral
    }
}

/// Classifies the scene from its statistics.
pub fn detect_scene_details(s: &ImageStats) -> (d: SceneDetails)
    requires
        s.wf(),
    ensures
        d == scene_of(*s),
{
    let n = s.total as i128;
    let shadows = histogram_mass(&s.histogram, 0, 10);
    let highlights = histogram_mass(&s.histogram, 245, 256);
    let sp = spread_of(s);
    let temp = s.sum_r as i128 - s.sum_b as i128;
    proof {
        lemma_mul_le(n as int, n as int, MAX_PIXELS as int, MAX_PIXELS as int);
    }
    let nn: i128 = n * n;
    let is_macro = s.variance36_sum > 18000 * (s.variances36.len() as u128) && 10 * s.sum_saturation_ppm
        > 3_000_000 * (s.total as u128);
    let color_cast = detect_color_cast(s);
    let dynamic_range = if 100 * (highlights as i128) > 2 * n || 100 * (shadows as i128) > 2 * n {
        DynamicRange::High
    } else if 100 * sp < 65536 * nn {
        DynamicRange::Low
    } else {
        DynamicRange::Normal
    };
    SceneDetails {
        is_backlit: is_backlit(s),
        is_sunset: 100 * (s.warm_count as i128) > 15 * n && 100 * temp > 2550 * n,
        is_portrait: 100 * (s.skin_count as i128) > 5 * n && 10 * (s.skin_count as i128) < 4 * n,
        is_macro,
        is_landscape: 10 * (s.green_count as i128) > 2 * n && sp > 1024 * nn,
        is_night: (s.sum_brightness as i128) < 50 * n && 100 * (shadows as i128) > 15 * n,
        is_high_iso: s.noise36 > 1800,
        color_cast,
        dynamic_range,
    }
}

/// The primary scene type of classified details.
pub fn determine_scene_type(d: &SceneDetails) -> (t: SceneType)
    ensures
        t == scene_type_of(*d),
{
    if d.is_sunset {
        SceneType::Sunset
    } else if d.is_backlit {
        SceneType::Backlit
    } else if d.is_portrait {
        SceneType::Portrait
    } else if d.is_macro {
        SceneType::Macro
    } else if d.is_landscape {
        SceneType::Landscape
    } else if d.is_night {
        SceneType::Night
    } else {
        SceneType::General
    }
}

} // verus!
