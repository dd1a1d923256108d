//! Per-pixel measures shared by the statistics engine: luminance,
//! saturation and the colour predicates used to recognise scene content.
use vstd::prelude::*;

verus! {

pub open spec fn max3(r: int, g: int, b: int) -> int {
    if r >= g && r >= b {
        r
    } else if g >= b {
        g
    } else {
        b
    }
}

pub open spec fn min3(r: int, g: int, b: int) -> int {
    if r <= g && r <= b {
        r
    } else if g <= b {
        g
    } else {
        b
    }
}

/// Perceptual luminance `0.299 R + 0.587 G + 0.114 B`, truncated.
pub open spec fn lum(r: int, g: int, b: int) -> int {
    (299 * r + 587 * g + 114 * b) / 1000
}

/// Saturation `(max - min) / max` in millionths, truncated; 0 for black.
pub open spec fn sat_ppm(r: int, g: int, b: int) -> int {
    if max3(r, g, b) == 0 {
        0
    } else {
        1_000_000 * (max3(r, g, b) - min3(r, g, b)) / max3(r, g, b)
    }
}

/// Saturation lies strictly between 0.1 and 0.7.
pub open spec fn sat_in_skin_range(r: int, g: int, b: int) -> bool {
    let (mx, mn) = (max3(r, g, b), min3(r, g, b));
    mx > 0 && 10 * (mx - mn) > mx && 10 * (mx - mn) < 7 * mx
}

pub open spec fn skin_tone(r: int, g: int, b: int) -> bool {
    &&& r > 95 && g > 40 && b > 20
    &&& r > g && r > b
    &&& r - g > 15 && r - b > 15
    &&& sat_in_skin_range(r, g, b)
}

pub open spec fn warm_tone(r: int, g: int, b: int) -> bool {
    r > 150 && 50 < g < 180 && b < 150 && r > g && g > b
}

pub open spec fn green_tone(r: int, g: int, b: int) -> bool {
    g > r && g > b && g > 80
}

/// A nearly achromatic midtone: saturation below 0.1 and luminance in
/// [50, 200].
pub open spec fn gray_candidate(r: int, g: int, b: int) -> bool {
    let (mx, mn) = (max3(r, g, b), min3(r, g, b));
    &&& (mx == 0 || 10 * (mx - mn) < mx)
    &&& 50 <= lum(r, g, b) <= 200
}

pub fn luminance(r: u8, g: u8, b: u8) -> (v: u8)
    ensures
        v as int == lum(r as int, g as int, b as int),
{
    let s: u32 = 299 * (r as u32) + 587 * (g as u32) + 114 * (b as u32);
    (s / 1000) as u8
}

fn max_of(r: u8, g: u8, b: u8) -> (m: u8)
    ensures
        m as int == max3(r as int, g as int, b as int),
{
    if r >= g && r >= b {
        r
    } else if g >= b {
        g
    } else {
        b
    }
}

fn min_of(r: u8, g: u8, b: u8) -> (m: u8)
    ensures
        m as int == min3(r as int, g as int, b as int),
{
    if r <= g && r <= b {
        r
    } else if g <= b {
        g
    } else {
        b
    }
}

pub fn saturation_ppm(r: u8, g: u8, b: u8) -> (s: u32)
    ensures
        s as int == sat_ppm(r as int, g as int, b as int),
        s <= 1_000_000,
{
    let mx = max_of(r, g, b);
    let mn = min_of(r, g, b);
    if mx == 0 {
        0
    } else {
        let num: u32 = 1_000_000 * ((mx - mn) as u32);
        assert(num / (mx as u32) <= 1_000_000) by (nonlinear_arith)
            requires
                num == 1_000_000 * ((mx - mn) as int),
                mn <= mx,
                mx > 0,
        ;
        num / (mx as u32)
    }
}

pub fn is_skin_tone(r: u8, g: u8, b: u8) -> (t: bool)
    ensures
        t == skin_tone(r as int, g as int, b as int),
{
    let mx = max_of(r, g, b) as u32;
    let mn = min_of(r, g, b) as u32;
    r > 95 && g > 40 && b > 20 && r > g && r > b && r - g > 15 && r - b > 15 && mx > 0 && 10 * (mx
        - mn) > mx && 10 * (mx - mn) < 7 * mx
}

pub fn is_warm_tone(r: u8, g: u8, b: u8) -> (t: bool)
    ensures
        t == warm_tone(r as int, g as int, b as int),
{
    r > 150 && g > 50 && g < 180 && b < 150 && r > g && g > b
}

pub fn is_green_tone(r: u8, g: u8, b: u8) -> (t: bool)
    ensures
        t == green_tone(r as int, g as int, b as int),
{
    g > r && g > b && g > 80
}

pub fn is_gray_candidate(r: u8, g: u8, b: u8) -> (t: bool)
    ensures
        t == gray_candidate(r as int, g as int, b as int),
{
    let mx = max_of(r, g, b) as u32;
    let mn = min_of(r, g, b) as u32;
    let y = luminance(r, g, b);
    (mx == 0 || 10 * (mx - mn) < mx) && 50 <= y && y <= 200
}

} // verus!
