use photocull::models::{CropRect, EditState, Rotation};
use photocull::pipeline::{apply_edits, render};
use photocull::raster::Raster;
use photocull::exposure::exposure_gain_q16;
use photocull::tone::{apply_tone_stage, GAIN_ONE};

fn solid(width: u32, height: u32, p: [u8; 3]) -> Raster {
    let mut pixels = Vec::new();
    for _ in 0..width * height {
        pixels.extend_from_slice(&p);
    }
    Raster { width, height, pixels }
}

fn first(r: &Raster) -> [u8; 3] {
    [r.pixels[0], r.pixels[1], r.pixels[2]]
}

fn gain(ev: f64) -> u64 {
    exposure_gain_q16((ev * 100.0).round() as i64)
}

#[test]
fn neutral_render_is_identity() {
    let mut pixels = Vec::new();
    for k in 0..(6 * 5) {
        pixels.extend_from_slice(&[(k * 7 % 256) as u8, (k * 13 % 256) as u8, (k * 29 % 256) as u8]);
    }
    let img = Raster { width: 6, height: 5, pixels };
    let r = apply_edits(img.clone(), &EditState::default());
    assert_eq!((r.width, r.height), (6, 5));
    assert_eq!(r.pixels, img.pixels);
}

#[test]
fn exposure_doubles_and_restores() {
    let img = solid(2, 2, [10, 60, 120]);
    let up = EditState { exposure: 100, ..EditState::default() };
    let brighter = apply_edits(img.clone(), &up);
    assert_eq!(first(&brighter), [20, 120, 240]);
    let down = EditState { exposure: -100, ..EditState::default() };
    let back = apply_edits(brighter, &down);
    assert_eq!(first(&back), [10, 60, 120]);
}

#[test]
fn exposure_round_trip_within_one() {
    for c in 0..=255u32 {
        for ev in [0.25_f64, 0.5, 0.7, 1.3] {
            let g = gain(ev);
            if (c as u64) * g >= 256 * 65536 {
                continue;
            }
            let img = solid(1, 1, [c as u8, c as u8, c as u8]);
            let up = EditState { exposure: (ev * 100.0) as i64, ..EditState::default() };
            let down = EditState { exposure: -(ev * 100.0) as i64, ..EditState::default() };
            let back = apply_edits(apply_edits(img, &up), &down);
            let v = back.pixels[0] as i32;
            assert!(v == c as i32 || v == c as i32 - 1, "c={} ev={} got {}", c, ev, v);
        }
    }
}

#[test]
fn exposure_is_exponential_not_additive() {
    let img = solid(1, 1, [40, 80, 100]);
    let e = EditState { exposure: 100, ..EditState::default() };
    let r = apply_edits(img, &e);
    assert_eq!(first(&r), [80, 160, 200]);
}

#[test]
fn contrast_exact_value() {
    let img = solid(1, 1, [100, 128, 200]);
    let e = EditState { contrast: 5000, ..EditState::default() };
    let r = apply_tone_stage(&img, &e, GAIN_ONE);
    // f = 259 * 305 / (255 * 209) = 1.4822...; 128 + f * (-28) = 86.5..., 128 + f * 72 = 234.7...
    assert_eq!(first(&r), [86, 128, 234]);
}

#[test]
fn white_balance_shifts_channels() {
    let img = solid(1, 1, [100, 100, 100]);
    let e = EditState { white_balance_temp: 650000, white_balance_tint: 1000, ..EditState::default() };
    let r = apply_tone_stage(&img, &e, GAIN_ONE);
    assert_eq!(first(&r), [110, 90, 90]);
}

#[test]
fn saturation_moves_away_from_gray() {
    let img = solid(1, 1, [200, 100, 50]);
    let e = EditState { saturation: 5000, ..EditState::default() };
    let r = apply_tone_stage(&img, &e, GAIN_ONE);
    // gray = 124.2; 124.2 + 1.5 * 75.8 = 237.9; 124.2 - 1.5 * 24.2 = 87.9; 124.2 - 1.5 * 74.2 = 12.9
    assert_eq!(first(&r), [237, 87, 12]);
    let gray = apply_tone_stage(&solid(1, 1, [90, 90, 90]), &e, GAIN_ONE);
    assert_eq!(first(&gray), [90, 90, 90]);
}

#[test]
fn vibrance_protects_saturated_pixels() {
    let e = EditState { vibrance: 5000, ..EditState::default() };
    let vivid = apply_tone_stage(&solid(1, 1, [255, 0, 0]), &e, GAIN_ONE);
    assert_eq!(first(&vivid), [255, 0, 0]);
    let dull = apply_tone_stage(&solid(1, 1, [150, 100, 100]), &e, GAIN_ONE);
    // min / max = 2/3, factor 1 + 0.5 * 2/3; gray = 114.95
    assert_eq!(first(&dull), [161, 95, 95]);
    let black = apply_tone_stage(&solid(1, 1, [0, 0, 0]), &e, GAIN_ONE);
    assert_eq!(first(&black), [0, 0, 0]);
}

#[test]
fn highlights_and_shadows_recovery() {
    let e = EditState { highlights: 10000, ..EditState::default() };
    let r = apply_tone_stage(&solid(1, 1, [255, 255, 255]), &e, GAIN_ONE);
    // mask 1, factor 1 - 0.5
    assert_eq!(first(&r), [127, 127, 127]);
    let e = EditState { shadows: 10000, ..EditState::default() };
    let r = apply_tone_stage(&solid(1, 1, [0, 0, 0]), &e, GAIN_ONE);
    assert_eq!(first(&r), [0, 0, 0]);
    let r = apply_tone_stage(&solid(1, 1, [64, 64, 64]), &e, GAIN_ONE);
    // mask 0.5, factor 1.25
    assert_eq!(first(&r), [80, 80, 80]);
}

#[test]
fn render_order_crop_then_rotate() {
    let mut pixels = Vec::new();
    for y in 0..4u8 {
        for x in 0..5u8 {
            pixels.extend_from_slice(&[x, y, 0]);
        }
    }
    let img = Raster { width: 5, height: 4, pixels };
    let e = EditState {
        crop: Some(CropRect { x: 1, y: 1, width: 3, height: 2 }),
        rotation: Rotation::Cw90,
        ..EditState::default()
    };
    let r = render(img.clone(), &e);
    let kept = apply_edits(img.clone(), &e);
    assert_eq!((kept.width, kept.height), (5, 4));
    assert_eq!(kept.pixels, img.pixels);
    assert_eq!((r.width, r.height), (2, 3));
    // the crop's top-left (1, 1) lands at (height - 1, 0) of the rotated raster
    assert_eq!(&r.pixels[3..6], &[1, 1, 0]);
}

#[test]
fn exposure_gain_matches_powers_of_two() {
    assert_eq!(exposure_gain_q16(0), 65536);
    assert_eq!(exposure_gain_q16(100), 131072);
    assert_eq!(exposure_gain_q16(300), 65536 * 8);
    assert_eq!(exposure_gain_q16(-200), 16384);
    assert_eq!(exposure_gain_q16(5000), exposure_gain_q16(1600));
    for e in (-1600i64..=1600).step_by(7) {
        let exact = 65536.0 * 2.0_f64.powf(e as f64 / 100.0);
        let g = exposure_gain_q16(e) as f64;
        assert!(g >= exact - 1e-6 && g <= exact * 1.0001 + 1.0, "e={} g={} exact={}", e, g, exact);
    }
}
