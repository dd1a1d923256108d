//! Image analysis: statistics, scene classification and a suggestion for
//! one raster or a batch of them.
use vstd::prelude::*;
use crate::raster::Raster;
use crate::pixel::{green_tone, lum, skin_tone};
use crate::scene::{
    backlit, detect_scene_details, hist_sum, highlight_mass, landscape, night, portrait, scene_of,
    spread,
};
use crate::stats::{
    compute_image_stats, lemma_uniform_gray_brightness, m_bin, m_green_tone, m_region_count,
    m_region_lum, m_skin, pix, pixel_count, stats_of_image, sum_px, uniform_gray, ImageStats,
    MAX_PIXELS, Px,
};
use crate::suggest::{
    compute_suggestions_from_stats, confidence_of, contrast_level_e4, contrast_of, exposure_of,
    is_isqrt, isqrt_of, lemma_isqrt_unique, suggestion_matches, AiSuggestion,
};

verus! {

/// Why a raster cannot be analysed.
#[derive(Clone, Copy, Debug, PartialEq, Eq, Structural)]
pub enum AnalyzeError {
    /// The raster has no pixels.
    EmptyImage,
    /// The raster has more than `MAX_PIXELS` pixels.
    TooLarge,
}

/// `r` is the analysis of `img`.
pub open spec fn analysis_of(img: Raster, r: Result<AiSuggestion, AnalyzeError>) -> bool {
    match r {
        Ok(sug) => 0 < pixel_count(img) <= MAX_PIXELS && exists|s: ImageStats|
            stats_of_image(img, s) && #[trigger] suggestion_matches(sug, s, scene_of(s)),
        Err(e) => e == if pixel_count(img) == 0 {
            AnalyzeError::EmptyImage
        } else {
            AnalyzeError::TooLarge
        } && (pixel_count(img) == 0 || pixel_count(img) > MAX_PIXELS),
    }
}

/// The analysis engine needs no set-up; it is always ready.
pub fn init_ai_model() -> (r: Result<(), String>)
    ensures
        r is Ok,
{
    Ok(())
}

/// Analyses a raster: statistics, then scene details, then the suggestion.
pub fn analyze_image(img: &Raster) -> (r: Result<AiSuggestion, AnalyzeError>)
    requires
        img.wf(),
    ensures
        analysis_of(*img, r),
{
    let total: u64 = (img.pixels.len() / 3) as u64;
    assert(total == pixel_count(*img)) by (nonlinear_arith)
        requires
            img.pixels@.len() == 3 * (img.width as int) * (img.height as int),
            pixel_count(*img) == img.width as int * img.height as int,
            total == img.pixels@.len() / 3,
    ;
    if total == 0 {
        return Err(AnalyzeError::EmptyImage);
    }
    if total > MAX_PIXELS {
        return Err(AnalyzeError::TooLarge);
    }
    let stats = compute_image_stats(img);
    let scene = detect_scene_details(&stats);
    let sug = compute_suggestions_from_stats(&stats, &scene);
    assert(suggestion_matches(sug, stats, scene_of(stats)));
    Ok(sug)
}

/// Analyses each raster on its own: one result per input, in order, and a
/// failure of one does not stop the others.
pub fn analyze_images_batch(images: &Vec<(String, Raster)>) -> (r: Vec<
    (String, Result<AiSuggestion, AnalyzeError>),
>)
    requires
        forall|k: int| 0 <= k < images@.len() ==> (#[trigger] images@[k]).1.wf(),
    ensures
        r@.len() == images@.len(),
        forall|k: int|
            0 <= k < r@.len() ==> (#[trigger] r@[k]).0@ == images@[k].0@ && analysis_of(
                images@[k].1,
                r@[k].1,
            ),
{
    let mut out: Vec<(String, Result<AiSuggestion, AnalyzeError>)> = Vec::new();
    let mut i: usize = 0;
    while i < images.len()
        invariant
            i <= images@.len(),
            out@.len() == i,
            forall|k: int| 0 <= k < images@.len() ==> (#[trigger] images@[k]).1.wf(),
            forall|k: int|
                0 <= k < i ==> (#[trigger] out@[k]).0@ == images@[k].0@ && analysis_of(
                    images@[k].1,
                    out@[k].1,
                ),
        decreases images@.len() - i,
    {
        let id = images[i].0.clone();
        let res = analyze_image(&images[i].1);
        out.push((id, res));
        i = i + 1;
    }
    out
}

proof fn lemma_sum_zero(px: Seq<u8>, w: int, n: int, f: spec_fn(Px) -> int)
    requires
        forall|p: int| 0 <= p < n ==> #[trigger] f(pix(px, w, p)) == 0,
    ensures
        sum_px(px, w, n, f) == 0,
    decreases n,
{
    if n > 0 {
        lemma_sum_zero(px, w, n - 1, f);
        assert(f(pix(px, w, n - 1)) == 0);
    }
}

proof fn lemma_sum_scale(px: Seq<u8>, w: int, n: int, f: spec_fn(Px) -> int, g: spec_fn(Px) -> int, a: int)
    requires
        forall|p: int| 0 <= p < n ==> #[trigger] f(pix(px, w, p)) == a * g(pix(px, w, p)),
    ensures
        sum_px(px, w, n, f) == a * sum_px(px, w, n, g),
    decreases n,
{
    if n > 0 {
        lemma_sum_scale(px, w, n - 1, f, g, a);
        let q = pix(px, w, n - 1);
        assert(f(q) == a * g(q));
        assert(a * sum_px(px, w, n - 1, g) + a * g(q) == a * (sum_px(px, w, n - 1, g) + g(q)))
            by (nonlinear_arith);
    }
}

proof fn lemma_hist_zero(h: Seq<u64>, lo: int, hi: int)
    requires
        forall|b: int| lo <= b < hi ==> #[trigger] h[b] == 0,
    ensures
        hist_sum(h, lo, hi) == 0,
    decreases hi - lo,
{
    if lo < hi {
        lemma_hist_zero(h, lo, hi - 1);
    }
}

/// A uniform mid-gray raster (128, 128, 128) of at least 11 pixels
/// analyses successfully, with no exposure change, a contrast suggestion of
/// the full target gap (33.00, the contrast level being 0) and a confidence
/// of at least 0.3.
pub proof fn lemma_mid_gray_suggestion(img: Raster, r: Result<AiSuggestion, AnalyzeError>)
    requires
        img.wf(),
        uniform_gray(img, 128),
        11 <= pixel_count(img) <= MAX_PIXELS,
        analysis_of(img, r),
    ensures
        r matches Ok(sug) && sug.exposure == 0 && sug.contrast == 3300 && sug.confidence >= 30,
{
    let sug = r->Ok_0;
    let s = choose|s: ImageStats| stats_of_image(img, s) && #[trigger] suggestion_matches(sug, s, scene_of(s));
    let px = img.pixels@;
    let w = img.width as int;
    let h = img.height as int;
    let n = pixel_count(img);
    lemma_uniform_gray_brightness(img, 128, s);
    assert forall|p: int| 0 <= p < n implies #[trigger] pix(px, w, p).0 == 128 && pix(px, w, p).1
        == 128 && pix(px, w, p).2 == 128 by {
        assert(3 * p + 2 < px.len()) by (nonlinear_arith)
            requires
                0 <= p < n,
                n == w * h,
                px.len() == 3 * w * h,
        ;
    }
    assert(lum(128, 128, 128) == 128);
    assert forall|b: int| 245 <= b < 256 implies #[trigger] s.histogram@[b] == 0 by {
        assert forall|p: int| 0 <= p < n implies #[trigger] m_bin(b)(pix(px, w, p)) == 0 by {
            assert(pix(px, w, p).0 == 128);
        }
        lemma_sum_zero(px, w, n, m_bin(b));
    }
    lemma_hist_zero(s.histogram@, 245, 256);
    assert(highlight_mass(s) == 0);
    assert forall|p: int| 0 <= p < n implies #[trigger] m_skin()(pix(px, w, p)) == 0 by {
        assert(pix(px, w, p).0 == 128);
        assert(!skin_tone(128, 128, 128));
    }
    lemma_sum_zero(px, w, n, m_skin());
    assert forall|p: int| 0 <= p < n implies #[trigger] m_green_tone()(pix(px, w, p)) == 0 by {
        assert(pix(px, w, p).0 == 128);
        assert(!green_tone(128, 128, 128));
    }
    lemma_sum_zero(px, w, n, m_green_tone());
    assert forall|p: int| 0 <= p < n implies #[trigger] m_region_lum(w, h, 0)(pix(px, w, p)) == 128
        * m_region_count(w, h, 0)(pix(px, w, p)) by {
        assert(pix(px, w, p).0 == 128);
    }
    lemma_sum_scale(px, w, n, m_region_lum(w, h, 0), m_region_count(w, h, 0), 128);
    assert forall|p: int| 0 <= p < n implies #[trigger] m_region_lum(w, h, 2)(pix(px, w, p)) == 128
        * m_region_count(w, h, 2)(pix(px, w, p)) by {
        assert(pix(px, w, p).0 == 128);
    }
    lemma_sum_scale(px, w, n, m_region_lum(w, h, 2), m_region_count(w, h, 2), 128);
    let d = scene_of(s);
    assert(!night(s));
    assert(!backlit(s)) by {
        let cc = s.center_count as int;
        let ec = s.edge_count as int;
        let (c, cd) = if cc > 0 { (128 * cc, cc) } else { (128 * n, n) };
        let (e, ed) = if ec > 0 { (128 * ec, ec) } else { (128 * n, n) };
        assert(e * cd - c * ed == 0) by (nonlinear_arith)
            requires
                e == 128 * ed,
                c == 128 * cd,
        ;
    }
    assert(!portrait(s) && !landscape(s));
    assert(exposure_of(s, d) == 0);
    assert(is_isqrt(0, 0));
    lemma_isqrt_unique(0, 0, isqrt_of(0));
    assert(spread(s) == 0);
    assert(s.total as int == n);
    assert((spread(s) * 100_000_000) / (16384 * (n * n)) == 0) by (nonlinear_arith)
        requires
            spread(s) == 0,
            n > 0,
    ;
    assert(contrast_level_e4(s) == 0);
    assert(contrast_of(s, d) == 3300);
}

} // verus!
