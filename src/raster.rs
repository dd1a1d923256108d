//! An 8-bit RGB raster, stored row by row with three bytes per pixel.
use vstd::prelude::*;
use crate::models::{CropRect, Rotation};

verus! {

/// A decoded image: `width * height` pixels, each an (R, G, B) triple,
/// laid out row by row.
#[derive(Clone, Debug)]
pub struct Raster {
    pub width: u32,
    pub height: u32,
    pub pixels: Vec<u8>,
}

/// Index of the first channel of pixel (x, y) in a raster of the given width.
pub open spec fn px_index(width: int, x: int, y: int) -> int {
    3 * (y * width + x)
}

impl Raster {
    /// The pixel buffer holds exactly three bytes per pixel.
    pub open spec fn wf(&self) -> bool {
        self.pixels@.len() == 3 * (self.width as int) * (self.height as int)
    }

    /// Channel `c` (0 = R, 1 = G, 2 = B) of pixel (x, y).
    pub open spec fn chan(&self, x: int, y: int, c: int) -> u8 {
        self.pixels@[px_index(self.width as int, x, y) + c]
    }

    pub open spec fn in_bounds(&self, x: int, y: int) -> bool {
        0 <= x < self.width && 0 <= y < self.height
    }

    /// The raster as (width, height, channel bytes).
    pub open spec fn parts(&self) -> (u32, u32, Seq<u8>) {
        (self.width, self.height, self.pixels@)
    }

    /// Builds a raster from a width, a height and channel bytes; `None`
    /// when the bytes are not exactly three per pixel.
    pub fn from_rgb_parts(width: u32, height: u32, pixels: Vec<u8>) -> (r: Option<Raster>)
        ensures
            r matches Some(x) ==> x.wf() && x.parts() == (width, height, pixels@),
            r is None <==> pixels@.len() != 3 * (width as int) * (height as int),
    {
        assert((width as int) * (height as int) <= 0xFFFF_FFFF_FFFF_FFFF) by (nonlinear_arith)
            requires
                width <= 0xFFFF_FFFFu32,
                height <= 0xFFFF_FFFFu32,
        ;
        let wh: u128 = (width as u128) * (height as u128);
        let need: u128 = 3 * wh;
        assert(need as int == 3 * (width as int) * (height as int)) by (nonlinear_arith)
            requires
                wh as int == (width as int) * (height as int),
                need as int == 3 * (wh as int),
        ;
        if pixels.len() as u128 == need {
            Some(Raster { width, height, pixels })
        } else {
            None
        }
    }
}

/// A well-formed raster's parts, or `None`.
pub open spec fn raster_parts(r: Option<Raster>) -> Option<(u32, u32, Seq<u8>)> {
    match r {
        Some(x) => Some(x.parts()),
        None => None,
    }
}

/// `r` is the region of `img` with origin (x, y) and size `w` by `h`.
pub open spec fn is_region_of(r: Raster, img: Raster, x: int, y: int, w: int, h: int) -> bool {
    &&& r.wf()
    &&& r.width == w && r.height == h
    &&& forall|i: int, j: int, c: int|
        0 <= i < w && 0 <= j < h && 0 <= c < 3 ==> #[trigger] r.chan(i, j, c) == img.chan(
            x + i,
            y + j,
            c,
        )
}

/// `r` is `img` turned a quarter clockwise.
pub open spec fn is_rotated_90(r: Raster, img: Raster) -> bool {
    let (w, h) = (img.width as int, img.height as int);
    &&& r.wf()
    &&& r.width == img.height && r.height == img.width
    &&& forall|x: int, y: int, c: int|
        0 <= x < w && 0 <= y < h && 0 <= c < 3 ==> #[trigger] img.chan(x, y, c) == r.chan(
            h - 1 - y,
            x,
            c,
        )
}

/// `r` is `img` turned half a turn.
pub open spec fn is_rotated_180(r: Raster, img: Raster) -> bool {
    let (w, h) = (img.width as int, img.height as int);
    &&& r.wf()
    &&& r.width == img.width && r.height == img.height
    &&& forall|x: int, y: int, c: int|
        0 <= x < w && 0 <= y < h && 0 <= c < 3 ==> #[trigger] img.chan(x, y, c) == r.chan(
            w - 1 - x,
            h - 1 - y,
            c,
        )
}

/// `r` is `img` turned three quarters clockwise.
pub open spec fn is_rotated_270(r: Raster, img: Raster) -> bool {
    let (w, h) = (img.width as int, img.height as int);
    &&& r.wf()
    &&& r.width == img.height && r.height == img.width
    &&& forall|x: int, y: int, c: int|
        0 <= x < w && 0 <= y < h && 0 <= c < 3 ==> #[trigger] img.chan(x, y, c) == r.chan(
            y,
            w - 1 - x,
            c,
        )
}

/// Relies on `image::imageops::crop_imm` and `SubImage::to_image`: a region
/// inside the bounds is copied pixel for pixel.
#[verifier::external_body]
fn crop_region(img: &Raster, x: u32, y: u32, w: u32, h: u32) -> (r: Raster)
    requires
        img.wf(),
        x + w <= img.width,
        y + h <= img.height,
    ensures
        is_region_of(r, *img, x as int, y as int, w as int, h as int),
{
    let buf = image::RgbImage::from_raw(img.width, img.height, img.pixels.clone()).unwrap();
    let out = image::imageops::crop_imm(&buf, x, y, w, h).to_image();
    Raster { width: out.width(), height: out.height(), pixels: out.into_raw() }
}

/// Relies on `image::imageops::rotate90`: source pixel (x, y) lands at
/// (height - 1 - y, x).
#[verifier::external_body]
fn rotate_quarter(img: &Raster) -> (r: Raster)
    requires
        img.wf(),
    ensures
        is_rotated_90(r, *img),
{
    let buf = image::RgbImage::from_raw(img.width, img.height, img.pixels.clone()).unwrap();
    let out = image::imageops::rotate90(&buf);
    Raster { width: out.width(), height: out.height(), pixels: out.into_raw() }
}

/// Relies on `image::imageops::rotate180`: source pixel (x, y) lands at
/// (width - 1 - x, height - 1 - y).
#[verifier::external_body]
fn rotate_half(img: &Raster) -> (r: Raster)
    requires
        img.wf(),
    ensures
        is_rotated_180(r, *img),
{
    let buf = image::RgbImage::from_raw(img.width, img.height, img.pixels.clone()).unwrap();
    let out = image::imageops::rotate180(&buf);
    Raster { width: out.width(), height: out.height(), pixels: out.into_raw() }
}

/// Relies on `image::imageops::rotate270`: source pixel (x, y) lands at
/// (y, width - 1 - x).
#[verifier::external_body]
fn rotate_three_quarters(img: &Raster) -> (r: Raster)
    requires
        img.wf(),
    ensures
        is_rotated_270(r, *img),
{
    let buf = image::RgbImage::from_raw(img.width, img.height, img.pixels.clone()).unwrap();
    let out = image::imageops::rotate270(&buf);
    Raster { width: out.width(), height: out.height(), pixels: out.into_raw() }
}

/// What `image::imageops::resize` with the triangle filter makes of RGB
/// bytes of size `w` by `h` when asked for `nw` by `nh`.
pub uninterp spec fn resized_of(px: Seq<u8>, w: u32, h: u32, nw: u32, nh: u32) -> Seq<u8>;

/// Relies on `image::imageops::resize` with `FilterType::Triangle`: the
/// result has exactly the requested size, and depends on the pixels and
/// the sizes alone.
#[verifier::external_body]
fn resize_exact(img: &Raster, nw: u32, nh: u32) -> (r: Raster)
    requires
        img.wf(),
        nw > 0,
        nh > 0,
    ensures
        r.wf(),
        r.width == nw && r.height == nh,
        r.pixels@ == resized_of(img.pixels@, img.width, img.height, nw, nh),
{
    let buf = image::RgbImage::from_raw(img.width, img.height, img.pixels.clone()).unwrap();
    let out = image::imageops::resize(&buf, nw, nh, image::imageops::FilterType::Triangle);
    Raster { width: out.width(), height: out.height(), pixels: out.into_raw() }
}

/// What `DynamicImage::thumbnail` makes of an RGB raster of size `w` by
/// `h` with both sides bounded by `bound`, as (width, height, bytes).
pub uninterp spec fn thumbnail_of(px: Seq<u8>, w: u32, h: u32, bound: u32) -> (u32, u32, Seq<u8>);

/// Relies on `DynamicImage::thumbnail`: the size is scaled to fit the bound
/// keeping the aspect ratio, then `imageops::thumbnail` writes a fresh
/// 8-bit RGB buffer of exactly that size; it depends on the pixels, the
/// size and the bound alone.
#[verifier::external_body]
fn thumbnail_raster(img: &Raster, bound: u32) -> (r: Raster)
    requires
        img.wf(),
        img.width > 0 && img.height > 0,
        bound > 0,
    ensures
        r.wf(),
        r.parts() == thumbnail_of(img.pixels@, img.width, img.height, bound),
{
    let buf = image::RgbImage::from_raw(img.width, img.height, img.pixels.clone()).unwrap();
    let out = image::DynamicImage::ImageRgb8(buf).thumbnail(bound, bound).to_rgb8();
    Raster { width: out.width(), height: out.height(), pixels: out.into_raw() }
}

/// Largest side of a thumbnail.
pub const THUMBNAIL_SIZE: u32 = 256;

/// The thumbnail shown for an image: the decoded raster scaled to fit 256
/// by 256 when there is one with pixels, else the placeholder.
pub fn thumbnail_or_placeholder(img: Option<Raster>) -> (r: Raster)
    requires
        img matches Some(x) ==> x.wf(),
    ensures
        r.wf(),
        match img {
            Some(x) => if x.width > 0 && x.height > 0 {
                r.parts() == thumbnail_of(x.pixels@, x.width, x.height, THUMBNAIL_SIZE)
            } else {
                r.parts() == create_placeholder_thumbnail_spec()
            },
            None => r.parts() == create_placeholder_thumbnail_spec(),
        },
{
    match img {
        Some(x) => if x.width > 0 && x.height > 0 {
            thumbnail_raster(&x, THUMBNAIL_SIZE)
        } else {
            create_placeholder_thumbnail()
        },
        None => create_placeholder_thumbnail(),
    }
}

/// The crop rectangle clamped into a `w` by `h` image: the origin is moved
/// inside, the extent is cut at the far edges and is at least 1 by 1.
pub open spec fn clamped_crop(w: int, h: int, c: CropRect) -> (int, int, int, int) {
    let x = if c.x < 0 { 0 } else if c.x > w - 1 { w - 1 } else { c.x as int };
    let y = if c.y < 0 { 0 } else if c.y > h - 1 { h - 1 } else { c.y as int };
    let cw = if c.width < 1 { 1 } else if c.width > w - x { w - x } else { c.width as int };
    let ch = if c.height < 1 { 1 } else if c.height > h - y { h - y } else { c.height as int };
    (x, y, cw, ch)
}

/// Crops a raster; the rectangle is clamped so that the result lies inside
/// the image and is never empty. An empty raster is returned unchanged.
pub fn apply_crop(img: Raster, crop: &CropRect) -> (r: Raster)
    requires
        img.wf(),
    ensures
        img.width == 0 || img.height == 0 ==> r == img,
        img.width > 0 && img.height > 0 ==> {
            let (x, y, w, h) = clamped_crop(img.width as int, img.height as int, *crop);
            &&& 0 <= x && x + w <= img.width && 1 <= w
            &&& 0 <= y && y + h <= img.height && 1 <= h
            &&& is_region_of(r, img, x, y, w, h)
        },
{
    if img.width == 0 || img.height == 0 {
        return img;
    }
    let w = img.width as i64;
    let h = img.height as i64;
    let x: i64 = if crop.x < 0 { 0 } else if crop.x > w - 1 { w - 1 } else { crop.x };
    let y: i64 = if crop.y < 0 { 0 } else if crop.y > h - 1 { h - 1 } else { crop.y };
    let cw: i64 = if crop.width < 1 { 1 } else if crop.width > w - x { w - x } else { crop.width };
    let ch: i64 = if crop.height < 1 { 1 } else if crop.height > h - y { h - y } else { crop.height };
    crop_region(&img, x as u32, y as u32, cw as u32, ch as u32)
}

/// Turns a raster clockwise by the given rotation.
pub fn rotate_image(img: Raster, rotation: Rotation) -> (r: Raster)
    requires
        img.wf(),
    ensures
        rotation == Rotation::Upright ==> r == img,
        rotation == Rotation::Cw90 ==> is_rotated_90(r, img),
        rotation == Rotation::Cw180 ==> is_rotated_180(r, img),
        rotation == Rotation::Cw270 ==> is_rotated_270(r, img),
{
    match rotation {
        Rotation::Upright => img,
        Rotation::Cw90 => rotate_quarter(&img),
        Rotation::Cw180 => rotate_half(&img),
        Rotation::Cw270 => rotate_three_quarters(&img),
    }
}

/// The size that fits `w` by `h` within `max` on its longer side, keeping
/// the aspect ratio (rounded down, at least 1).
pub open spec fn fit_size(w: int, h: int, max: int) -> (int, int) {
    let m = if w >= h { w } else { h };
    let nw = (w * max) / m;
    let nh = (h * max) / m;
    (if nw < 1 { 1 } else { nw }, if nh < 1 { 1 } else { nh })
}

/// Scales a raster down so that neither side exceeds `max_size`; a raster
/// that already fits is returned unchanged.
pub fn resize_to_fit(img: Raster, max_size: u32) -> (r: Raster)
    requires
        img.wf(),
    ensures
        img.width <= max_size && img.height <= max_size ==> r == img,
        !(img.width <= max_size && img.height <= max_size) ==> {
            let (nw, nh) = fit_size(img.width as int, img.height as int, max_size as int);
            &&& r.wf()
            &&& r.width == nw && r.height == nh
            &&& r.pixels@ == resized_of(img.pixels@, img.width, img.height, nw as u32, nh as u32)
        },
{
    if img.width <= max_size && img.height <= max_size {
        return img;
    }
    let m: u64 = if img.width >= img.height { img.width as u64 } else { img.height as u64 };
    proof {
        assert((img.width as int) * (max_size as int) <= (m as int) * (max_size as int)
            && (img.height as int) * (max_size as int) <= (m as int) * (max_size as int)
            && (m as int) * (max_size as int) <= 0xFFFF_FFFF * 0xFFFF_FFFF) by (nonlinear_arith)
            requires
                img.width <= m,
                img.height <= m,
                m <= 0xFFFF_FFFF,
                max_size <= 0xFFFF_FFFFu32,
        ;
    }
    let nw0: u64 = (img.width as u64) * (max_size as u64) / m;
    let nh0: u64 = (img.height as u64) * (max_size as u64) / m;
    proof {
        assert(nw0 <= max_size && nh0 <= max_size) by (nonlinear_arith)
            requires
                nw0 == (img.width as int) * (max_size as int) / (m as int),
                nh0 == (img.height as int) * (max_size as int) / (m as int),
                img.width <= m,
                img.height <= m,
                m > 0,
        ;
    }
    let nw: u32 = if nw0 < 1 { 1 } else { nw0 as u32 };
    let nh: u32 = if nh0 < 1 { 1 } else { nh0 as u32 };
    resize_exact(&img, nw, nh)
}

/// The placeholder thumbnail's gray level at (x, y): a checkerboard of
/// 16-pixel blocks in 60 and 80, with a solid 100 marker block covering
/// x in [100, 156), y in [120, 136).
pub open spec fn placeholder_level(x: int, y: int) -> u8 {
    if 100 <= x < 156 && 120 <= y < 136 {
        100
    } else if (x / 16 + y / 16) % 2 == 0 {
        60
    } else {
        80
    }
}

/// The placeholder raster as (width, height, bytes): 256 by 256 gray
/// pixels at `placeholder_level`.
pub open spec fn create_placeholder_thumbnail_spec() -> (u32, u32, Seq<u8>) {
    (256, 256, Seq::new(3 * 65536, |i: int| placeholder_level((i / 3) % 256, (i / 3) / 256)))
}

/// The 256 by 256 placeholder shown when no raster can be produced.
pub fn create_placeholder_thumbnail() -> (r: Raster)
    ensures
        r.wf(),
        r.parts() == create_placeholder_thumbnail_spec(),
        r.width == 256 && r.height == 256,
        forall|x: int, y: int, c: int|
            0 <= x < 256 && 0 <= y < 256 && 0 <= c < 3 ==> #[trigger] r.chan(x, y, c)
                == placeholder_level(x, y),
{
    let mut px: Vec<u8> = Vec::new();
    let mut p: usize = 0;
    while p < 65536
        invariant
            p <= 65536,
            px@.len() == 3 * p,
            forall|q: int, c: int|
                0 <= q < p && 0 <= c < 3 ==> #[trigger] px@[3 * q + c] == placeholder_level(
                    q % 256,
                    q / 256,
                ),
        decreases 65536 - p,
    {
        let x: usize = p % 256;
        let y: usize = p / 256;
        let level: u8 = if 100 <= x && x < 156 && 120 <= y && y < 136 {
            100
        } else if (x / 16 + y / 16) % 2 == 0 {
            60
        } else {
            80
        };
        let ghost before = px@;
        px.push(level);
        px.push(level);
        px.push(level);
        assert forall|q: int, c: int| 0 <= q < p + 1 && 0 <= c < 3 implies #[trigger] px@[3 * q
            + c] == placeholder_level(q % 256, q / 256) by {
            if q < p {
                assert(px@[3 * q + c] == before[3 * q + c]);
            }
        }
        p = p + 1;
    }
    let r = Raster { width: 256, height: 256, pixels: px };
    assert forall|x: int, y: int, c: int|
        0 <= x < 256 && 0 <= y < 256 && 0 <= c < 3 implies #[trigger] r.chan(x, y, c)
            == placeholder_level(x, y) by {
        let q = y * 256 + x;
        vstd::arithmetic::div_mod::lemma_fundamental_div_mod_converse(q, 256, y, x);
        assert(px_index(256, x, y) + c == 3 * q + c);
    }
    assert forall|i: int| 0 <= i < 3 * 65536 implies #[trigger] r.pixels@[i] == placeholder_level(
        (i / 3) % 256,
        (i / 3) / 256,
    ) by {
        let q = i / 3;
        let c = i % 3;
        assert(i == 3 * q + c);
    }
    assert(r.pixels@ =~= create_placeholder_thumbnail_spec().2);
    r
}

} // verus!
