use photocull::analysis::{analyze_image, analyze_images_batch, AnalyzeError};
use photocull::cache::{ImageCache, PreviewKey};
use photocull::filters::{apply_detail_passes, apply_noise_reduction_parallel, apply_sharpening_parallel};
use photocull::jpeg::{
    decode_embedded_preview, find_all_jpeg_segments, find_jpeg_end, find_jpeg_start_from,
    preview_candidates,
};
use photocull::models::{CropRect, EditState, Flag, ImageFile, Rotation};
use photocull::paths::{get_thumbnail_dir, get_thumbnail_path, get_xmp_path, RawDecoder};
use photocull::raster::{
    apply_crop, create_placeholder_thumbnail, resize_to_fit, rotate_image, thumbnail_or_placeholder, Raster,
};
use photocull::scene::{detect_scene_details, determine_scene_type, ColorCast, DynamicRange, SceneType};
use photocull::stats::compute_image_stats;
use photocull::suggest::{apply_ai_suggestion, calculate_confidence, compute_suggestions_from_stats, floor_div, isqrt};

fn raster_from(width: u32, height: u32, f: impl Fn(u32, u32) -> [u8; 3]) -> Raster {
    let mut pixels = Vec::new();
    for y in 0..height {
        for x in 0..width {
            pixels.extend_from_slice(&f(x, y));
        }
    }
    Raster { width, height, pixels }
}

fn px(r: &Raster, x: u32, y: u32) -> [u8; 3] {
    let i = 3 * (y * r.width + x) as usize;
    [r.pixels[i], r.pixels[i + 1], r.pixels[i + 2]]
}

fn segment(len: usize) -> Vec<u8> {
    let mut v = vec![0xFF, 0xD8];
    v.resize(len - 2, 0x11);
    v.extend_from_slice(&[0xFF, 0xD9]);
    v
}

fn encoded_jpeg(width: u32, height: u32, level: u8) -> Vec<u8> {
    let img = image::RgbImage::from_pixel(width, height, image::Rgb([level, level, level]));
    let mut out = std::io::Cursor::new(Vec::new());
    img.write_to(&mut out, image::ImageFormat::Jpeg).unwrap();
    out.into_inner()
}

#[test]
fn jpeg_markers_are_found() {
    let data = vec![1, 0xFF, 0xD8, 5, 6, 0xFF, 0xD9, 7];
    assert_eq!(find_jpeg_start_from(&data, 0), Some(1));
    assert_eq!(find_jpeg_start_from(&data, 2), None);
    assert_eq!(find_jpeg_end(&data, 1), Some(6));
    assert_eq!(find_all_jpeg_segments(&data), vec![(1, 6)]);
}

#[test]
fn jpeg_end_needs_two_bytes_after_start() {
    let data = vec![0xFF, 0xD8, 0xFF, 0xD9];
    assert_eq!(find_jpeg_end(&data, 0), Some(3));
    let short = vec![0xFF, 0xD8, 0xD9];
    assert_eq!(find_jpeg_end(&short, 0), None);
    assert_eq!(find_all_jpeg_segments(&short), vec![]);
}

#[test]
fn jpeg_segments_do_not_overlap() {
    let mut data = segment(10);
    data.extend(segment(6));
    data.push(0);
    assert_eq!(find_all_jpeg_segments(&data), vec![(0, 9), (10, 15)]);
}

#[test]
fn raw_fallback_prefers_largest_segment() {
    let mut data = vec![0u8; 7];
    data.extend(segment(5000));
    data.extend(vec![0u8; 3]);
    data.extend(segment(50000));
    let segs = find_all_jpeg_segments(&data);
    assert_eq!(segs, vec![(7, 5006), (5010, 55009)]);
    let order = preview_candidates(&segs);
    assert_eq!(order[0], (5010, 55009));
    assert_eq!(order, vec![(5010, 55009), (7, 5006), (5010, 55009)]);
}

#[test]
fn large_candidates_are_ordered_by_size() {
    let segs = vec![(0, 20000), (30000, 70000), (80000, 80100), (90000, 120000)];
    let order = preview_candidates(&segs);
    assert_eq!(
        order,
        vec![(30000, 70000), (90000, 120000), (0, 20000), (0, 20000), (30000, 70000), (80000, 80100), (90000, 120000)]
    );
}

#[test]
fn embedded_preview_decodes_jpeg() {
    let jpeg = encoded_jpeg(8, 4, 120);
    let mut data = vec![1u8, 2, 3];
    data.extend(&jpeg);
    data.extend(vec![9u8; 5]);
    let img = decode_embedded_preview(&data).expect("a preview");
    assert_eq!((img.width, img.height), (8, 4));
    assert_eq!(img.pixels.len(), 8 * 4 * 3);
    let v = px(&img, 3, 2);
    assert!(v[0] >= 110 && v[0] <= 130);
}

#[test]
fn embedded_preview_absent() {
    assert!(decode_embedded_preview(&[1, 2, 3]).is_none());
    let junk = segment(40);
    assert!(decode_embedded_preview(&junk).is_none());
}

#[test]
fn uniform_gray_mean_and_spread() {
    let img = raster_from(7, 5, |_, _| [77, 77, 77]);
    let s = compute_image_stats(&img);
    assert_eq!(s.total, 35);
    assert_eq!(s.sum_brightness, 77 * 35);
    assert_eq!(s.histogram[77], 35);
    let n = s.total as i128;
    assert_eq!(n * s.sum_sq_brightness as i128 - (s.sum_brightness as i128).pow(2), 0);
}

#[test]
fn luminance_bins_truncate() {
    let img = raster_from(1, 1, |_, _| [255, 0, 0]);
    let s = compute_image_stats(&img);
    assert_eq!(s.histogram[76], 1);
    assert_eq!(s.sum_r, 255);
    assert_eq!(s.sum_saturation_ppm, 1_000_000);
}

#[test]
fn tone_counters() {
    let img = raster_from(4, 1, |x, _| match x {
        0 => [200, 120, 90],
        1 => [200, 150, 100],
        2 => [50, 120, 60],
        _ => [128, 128, 128],
    });
    let s = compute_image_stats(&img);
    assert_eq!(s.skin_count, 2);
    assert_eq!(s.warm_count, 2);
    assert_eq!(s.green_count, 1);
    assert_eq!(s.gray_count, 1);
    assert_eq!(s.gray_sum_g, 128);
}

#[test]
fn noise_estimate_is_low_percentile() {
    let img = raster_from(5, 5, |x, y| if (x + y) % 2 == 0 { [0, 0, 0] } else { [30, 30, 30] });
    let s = compute_image_stats(&img);
    assert_eq!(s.variances36.len(), 9);
    // every interior pixel differs from each axis neighbour by 90 in R+G+B
    assert_eq!(s.noise36, 4 * 90 * 90);
    assert_eq!(s.variance36_sum, 9 * 4 * 90 * 90);
}

#[test]
fn night_scene_classification() {
    // 20 % of the pixels black, the rest at 37 or 38: mean brightness 30.
    let img = raster_from(10, 10, |x, y| {
        let k = y * 10 + x;
        if k % 5 == 0 {
            [0, 0, 0]
        } else if k % 2 == 0 {
            [37, 37, 37]
        } else {
            [38, 38, 38]
        }
    });
    let s = compute_image_stats(&img);
    assert_eq!(s.sum_brightness, 3000);
    let d = detect_scene_details(&s);
    assert!(d.is_night);
    assert_eq!(d.dynamic_range, DynamicRange::High);
    assert!(!d.is_sunset && !d.is_portrait && !d.is_landscape);
}

#[test]
fn landscape_scene_classification() {
    // 30 % green pixels and strong contrast.
    let img = raster_from(10, 10, |x, y| {
        let k = (y * 10 + x) % 10;
        if k < 3 {
            [100, 200, 100]
        } else if k < 6 {
            [0, 0, 0]
        } else {
            [230, 230, 230]
        }
    });
    let s = compute_image_stats(&img);
    assert_eq!(s.green_count, 30);
    let d = detect_scene_details(&s);
    assert!(d.is_landscape);
    assert!(!d.is_sunset && !d.is_portrait && !d.is_macro);
}

#[test]
fn scene_type_priority() {
    let img = raster_from(4, 4, |_, _| [128, 128, 128]);
    let s = compute_image_stats(&img);
    let mut d = detect_scene_details(&s);
    assert_eq!(determine_scene_type(&d), SceneType::General);
    d.is_night = true;
    d.is_landscape = true;
    assert_eq!(determine_scene_type(&d), SceneType::Landscape);
    d.is_sunset = true;
    assert_eq!(determine_scene_type(&d), SceneType::Sunset);
    assert_eq!(SceneType::Sunset.name(), "sunset");
}

#[test]
fn color_cast_labels() {
    let warm = compute_image_stats(&raster_from(3, 3, |_, _| [200, 120, 100]));
    assert_eq!(detect_scene_details(&warm).color_cast, ColorCast::Warm);
    let cool = compute_image_stats(&raster_from(3, 3, |_, _| [100, 120, 200]));
    assert_eq!(detect_scene_details(&cool).color_cast, ColorCast::Cool);
    let green = compute_image_stats(&raster_from(3, 3, |_, _| [100, 160, 100]));
    assert_eq!(detect_scene_details(&green).color_cast, ColorCast::Green);
    let magenta = compute_image_stats(&raster_from(3, 3, |_, _| [150, 90, 150]));
    assert_eq!(detect_scene_details(&magenta).color_cast, ColorCast::Magenta);
    let neutral = compute_image_stats(&raster_from(3, 3, |_, _| [120, 120, 120]));
    let d = detect_scene_details(&neutral);
    assert_eq!(d.color_cast, ColorCast::Neutral);
    assert_eq!(d.dynamic_range, DynamicRange::Low);
}

#[test]
fn mid_gray_suggestion() {
    let img = raster_from(20, 20, |_, _| [128, 128, 128]);
    let s = compute_image_stats(&img);
    let d = detect_scene_details(&s);
    let sug = compute_suggestions_from_stats(&s, &d);
    assert_eq!(sug.exposure, 0);
    assert_eq!(sug.contrast, 3300);
    assert_eq!(sug.highlights, 0);
    assert_eq!(sug.shadows, 0);
    assert_eq!(sug.white_balance_temp, 550000);
    assert_eq!(sug.white_balance_tint, 0);
    assert_eq!(sug.saturation, 3500);
    assert_eq!(sug.vibrance, 2100);
    assert_eq!(sug.sharpening_amount, 2500);
    assert_eq!(sug.noise_reduction, 0);
    assert_eq!(sug.confidence, 90);
    assert!(sug.confidence >= 30);
    assert_eq!(sug.scene_type, SceneType::General);
}

#[test]
fn dark_image_suggestion() {
    let img = raster_from(10, 10, |_, _| [20, 20, 20]);
    let s = compute_image_stats(&img);
    let d = detect_scene_details(&s);
    let sug = compute_suggestions_from_stats(&s, &d);
    // (128 - 20) / 50 = 2.16 EV
    assert_eq!(sug.exposure, 216);
    // without a gray point: 85 - 15 for a mean below 30
    assert_eq!(calculate_confidence(&s, &d), 70);
}

#[test]
fn analyze_reports_each_item() {
    let empty = Raster { width: 0, height: 3, pixels: vec![] };
    assert_eq!(analyze_image(&empty).unwrap_err(), AnalyzeError::EmptyImage);
    let ok = raster_from(4, 4, |_, _| [128, 128, 128]);
    let batch = vec![("a".to_string(), empty.clone()), ("b".to_string(), ok)];
    let out = analyze_images_batch(&batch);
    assert_eq!(out.len(), 2);
    assert_eq!(out[0].0, "a");
    assert!(out[0].1.is_err());
    assert_eq!(out[1].0, "b");
    assert_eq!(out[1].1.as_ref().unwrap().exposure, 0);
}

#[test]
fn blend_strength_endpoints() {
    let edits = EditState { rating: 3, exposure: 10, contrast: -200, ..EditState::default() };
    let img = raster_from(4, 4, |_, _| [60, 60, 60]);
    let s = compute_image_stats(&img);
    let sug = compute_suggestions_from_stats(&s, &detect_scene_details(&s));
    let zero = apply_ai_suggestion(&edits, &sug, 0);
    assert_eq!(zero, edits);
    let full = apply_ai_suggestion(&edits, &sug, 10000);
    assert_eq!(full.exposure, sug.exposure);
    assert_eq!(full.contrast, sug.contrast);
    assert_eq!(full.white_balance_temp, sug.white_balance_temp);
    assert_eq!(full.noise_reduction, sug.noise_reduction);
    assert_eq!(full.rating, 3);
    let over = apply_ai_suggestion(&edits, &sug, 25000);
    assert_eq!(over, full);
}

#[test]
fn blend_is_linear_interpolation() {
    let edits = EditState::default();
    let img = raster_from(4, 4, |_, _| [60, 60, 60]);
    let s = compute_image_stats(&img);
    let mut sug = compute_suggestions_from_stats(&s, &detect_scene_details(&s));
    sug.exposure = 101;
    sug.contrast = -101;
    let half = apply_ai_suggestion(&edits, &sug, 5000);
    assert_eq!(half.exposure, 50);
    assert_eq!(half.contrast, -51);
    assert_eq!(half.sharpening_radius, 100);
    let quarter = apply_ai_suggestion(&edits, &sug, 2525);
    // 101 * 0.2525 = 25.5025
    assert_eq!(quarter.exposure, 25);
}

#[test]
fn cache_evicts_oldest_inserted() {
    let mut cache = ImageCache::new();
    let small = Raster { width: 1, height: 1, pixels: vec![1, 2, 3] };
    for i in 0..11 {
        cache.insert(PreviewKey { file_id: format!("img{}", i), max_size: 512 }, small.clone());
    }
    assert!(cache.get(&PreviewKey { file_id: "img0".to_string(), max_size: 512 }).is_none());
    for i in 1..11 {
        assert!(cache.get(&PreviewKey { file_id: format!("img{}", i), max_size: 512 }).is_some());
    }
    assert_eq!(cache.entries.len(), 10);
}

#[test]
fn cache_keys_include_size() {
    let mut cache = ImageCache::new();
    let a = Raster { width: 1, height: 1, pixels: vec![1, 1, 1] };
    let b = Raster { width: 1, height: 1, pixels: vec![2, 2, 2] };
    cache.insert(PreviewKey { file_id: "x".to_string(), max_size: 256 }, a);
    cache.insert(PreviewKey { file_id: "x".to_string(), max_size: 1024 }, b);
    let got = cache.get(&PreviewKey { file_id: "x".to_string(), max_size: 256 }).unwrap();
    assert_eq!(got.pixels, vec![1, 1, 1]);
    let got = cache.get(&PreviewKey { file_id: "x".to_string(), max_size: 1024 }).unwrap();
    assert_eq!(got.pixels, vec![2, 2, 2]);
    assert!(cache.get(&PreviewKey { file_id: "x".to_string(), max_size: 512 }).is_none());
}

#[test]
fn crop_is_clamped_into_bounds() {
    let img = raster_from(10, 8, |x, y| [x as u8, y as u8, 0]);
    let r = apply_crop(img.clone(), &CropRect { x: 7, y: -3, width: 50, height: 4 });
    assert_eq!((r.width, r.height), (3, 4));
    assert_eq!(px(&r, 0, 0), [7, 0, 0]);
    assert_eq!(px(&r, 2, 3), [9, 3, 0]);
    let r = apply_crop(img.clone(), &CropRect { x: 40, y: 40, width: 0, height: -5 });
    assert_eq!((r.width, r.height), (1, 1));
    assert_eq!(px(&r, 0, 0), [9, 7, 0]);
}

#[test]
fn rotations_move_pixels() {
    let img = raster_from(3, 2, |x, y| [x as u8, y as u8, 9]);
    let r = rotate_image(img.clone(), Rotation::Cw90);
    assert_eq!((r.width, r.height), (2, 3));
    assert_eq!(px(&r, 1, 0), [0, 0, 9]);
    let r = rotate_image(img.clone(), Rotation::Cw180);
    assert_eq!(px(&r, 2, 1), [0, 0, 9]);
    let r = rotate_image(img.clone(), Rotation::Cw270);
    assert_eq!(px(&r, 0, 2), [0, 0, 9]);
    let r = rotate_image(img.clone(), Rotation::from_degrees(45));
    assert_eq!(r.pixels, img.pixels);
}

#[test]
fn resize_fits_longest_side() {
    let img = raster_from(400, 100, |_, _| [10, 20, 30]);
    let r = resize_to_fit(img.clone(), 200);
    assert_eq!((r.width, r.height), (200, 50));
    assert_eq!(px(&r, 10, 10), [10, 20, 30]);
    let same = resize_to_fit(img, 400);
    assert_eq!((same.width, same.height), (400, 100));
}

#[test]
fn placeholder_pattern() {
    let p = create_placeholder_thumbnail();
    assert_eq!((p.width, p.height), (256, 256));
    assert_eq!(px(&p, 0, 0), [60, 60, 60]);
    assert_eq!(px(&p, 16, 0), [80, 80, 80]);
    assert_eq!(px(&p, 16, 16), [60, 60, 60]);
    assert_eq!(px(&p, 100, 120), [100, 100, 100]);
    assert_eq!(px(&p, 155, 135), [100, 100, 100]);
    assert_eq!(px(&p, 156, 135), [80, 80, 80]);
    assert_eq!(px(&p, 160, 135), [60, 60, 60]);
}

#[test]
fn sharpening_exact_values() {
    let img = raster_from(3, 3, |x, y| if x == 1 && y == 1 { [100, 100, 100] } else { [90, 90, 90] });
    let r = apply_sharpening_parallel(&img, 5000);
    // 100 + 0.5 * (400 - 360) = 120
    assert_eq!(px(&r, 1, 1), [120, 120, 120]);
    assert_eq!(px(&r, 0, 0), [90, 90, 90]);
    let r = apply_sharpening_parallel(&img, 100000);
    assert_eq!(px(&r, 1, 1), [255, 255, 255]);
}

#[test]
fn noise_reduction_exact_values() {
    let img = raster_from(3, 3, |x, y| if x == 1 && y == 1 { [200, 0, 9] } else { [100, 8, 1] });
    let r = apply_noise_reduction_parallel(&img, 5000);
    // 200 * 0.5 + 100 * 0.5 = 150; 0 * 0.5 + 8 * 0.5 = 4; 4.5 + 0.5 = 5
    assert_eq!(px(&r, 1, 1), [150, 4, 5]);
    let r = apply_noise_reduction_parallel(&img, 20000);
    assert_eq!(px(&r, 1, 1), [100, 8, 1]);
}

#[test]
fn detail_passes_identity_at_defaults() {
    let img = raster_from(5, 4, |x, y| [(x * 40) as u8, (y * 50) as u8, 7]);
    let r = apply_detail_passes(img.clone(), &EditState::default());
    assert_eq!(r.pixels, img.pixels);
    let edits = EditState { sharpening_amount: 5000, ..EditState::default() };
    let r = apply_detail_passes(img.clone(), &edits);
    assert_eq!(r.pixels, apply_sharpening_parallel(&img, 5000).pixels);
}

#[test]
fn extensions_are_case_insensitive() {
    assert!(ImageFile::is_supported_extension("CR2"));
    assert!(ImageFile::is_supported_extension("jpeg"));
    assert!(ImageFile::is_supported_extension("Tif"));
    assert!(!ImageFile::is_supported_extension("txt"));
    assert!(ImageFile::is_raw_extension("NeF"));
    assert!(!ImageFile::is_raw_extension("png"));
}

#[test]
fn raw_format_from_path() {
    assert!(RawDecoder::is_raw_format("/photos/a/IMG_1.CR3"));
    assert!(!RawDecoder::is_raw_format("/photos/a/IMG_1.mrw"));
    assert!(!RawDecoder::is_raw_format("/photos/a/IMG_1"));
}

#[test]
fn sidecar_and_thumbnail_paths() {
    assert_eq!(get_xmp_path("/photos/day/IMG_1.CR2"), "/photos/day/IMG_1.xmp");
    assert_eq!(get_xmp_path("shot.jpg"), "shot.xmp");
    assert_eq!(get_thumbnail_dir("/cache/photocull"), "/cache/photocull/thumbnails");
    assert_eq!(get_thumbnail_path("/cache/thumbnails", "abc"), "/cache/thumbnails/abc.jpg");
}

#[test]
fn flags_and_orientations_by_name() {
    assert_eq!(Flag::from_name("pick"), Flag::Pick);
    assert_eq!(Flag::from_name("reject"), Flag::Reject);
    assert_eq!(Flag::from_name("maybe"), Flag::Unflagged);
    assert_eq!(Rotation::from_orientation_code("6"), Rotation::Cw90);
    assert_eq!(Rotation::from_orientation_code("3"), Rotation::Cw180);
    assert_eq!(Rotation::from_orientation_code("8"), Rotation::Cw270);
    assert_eq!(Rotation::from_orientation_code("1"), Rotation::Upright);
    assert_eq!(Rotation::Cw270.orientation_code(), "8");
    assert_eq!(Rotation::from_degrees(180).degrees(), 180);
}

#[test]
fn rating_is_clamped() {
    let mut e = EditState::default();
    e.set_rating(9);
    assert_eq!(e.rating, 5);
    e.set_rating(2);
    assert_eq!(e.rating, 2);
}

#[test]
fn integer_helpers() {
    assert_eq!(isqrt(0), 0);
    assert_eq!(isqrt(99), 9);
    assert_eq!(isqrt(100), 10);
    assert_eq!(floor_div(-7, 2), -4);
    assert_eq!(floor_div(7, 2), 3);
}

#[test]
fn noise_estimate_uses_sorted_samples() {
    let row = [0u8, 100, 0, 10, 0, 50];
    let img = raster_from(6, 3, |x, y| if y == 1 { [row[x as usize]; 3] } else { [0, 0, 0] });
    let s = compute_image_stats(&img);
    assert_eq!(s.variances36, vec![3600, 23400, 90900, 360000]);
    assert_eq!(s.noise36, 23400);
}

#[test]
fn thumbnails_fit_the_bound() {
    let img = raster_from(1024, 512, |_, _| [10, 200, 30]);
    let t = thumbnail_or_placeholder(Some(img));
    assert_eq!((t.width, t.height), (256, 128));
    assert_eq!(px(&t, 100, 60), [10, 200, 30]);
    let p = thumbnail_or_placeholder(None);
    assert_eq!(p.pixels, create_placeholder_thumbnail().pixels);
    let empty = thumbnail_or_placeholder(Some(Raster { width: 0, height: 0, pixels: vec![] }));
    assert_eq!((empty.width, empty.height), (256, 256));
}
