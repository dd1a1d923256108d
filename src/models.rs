//! The data model: image files, pick/reject flags, rotations, crop
//! rectangles and the per-image adjustment parameters.
use vstd::prelude::*;
use crate::text::{lower_of, lowercase, same_text};

verus! {

/// An image found in a folder.
#[derive(Clone, Debug)]
pub struct ImageFile {
    pub id: String,
    pub path: String,
    pub filename: String,
    pub extension: String,
    pub file_size: u64,
    pub modified_at: String,
    pub is_raw: bool,
    pub dimensions: Option<Dimensions>,
}

#[derive(Clone, Copy, Debug, PartialEq, Eq, Structural)]
pub struct Dimensions {
    pub width: u32,
    pub height: u32,
}

/// Pick/reject status of an image.
#[derive(Clone, Copy, Debug, PartialEq, Eq, Structural)]
pub enum Flag {
    Unflagged,
    Pick,
    Reject,
}

impl Flag {
    /// "pick" and "reject" name their flags; anything else is no flag.
    pub fn from_name(s: &str) -> (f: Flag)
        ensures
            f == (if s@ == "pick"@ {
                Flag::Pick
            } else if s@ == "reject"@ {
                Flag::Reject
            } else {
                Flag::Unflagged
            }),
    {
        if same_text(s, "pick") {
            Flag::Pick
        } else if same_text(s, "reject") {
            Flag::Reject
        } else {
            Flag::Unflagged
        }
    }

    pub fn name(&self) -> (r: &'static str)
        ensures
            r@ == match self {
                Flag::Unflagged => "none"@,
                Flag::Pick => "pick"@,
                Flag::Reject => "reject"@,
            },
    {
        match self {
            Flag::Unflagged => "none",
            Flag::Pick => "pick",
            Flag::Reject => "reject",
        }
    }
}

/// Rotation applied after every pixel edit, clockwise.
#[derive(Clone, Copy, Debug, PartialEq, Eq, Structural)]
pub enum Rotation {
    Upright,
    Cw90,
    Cw180,
    Cw270,
}

impl Rotation {
    pub open spec fn spec_degrees(&self) -> u16 {
        match self {
            Rotation::Upright => 0,
            Rotation::Cw90 => 90,
            Rotation::Cw180 => 180,
            Rotation::Cw270 => 270,
        }
    }

    /// 90, 180 and 270 degrees name their rotations; any other angle is no
    /// rotation.
    pub fn from_degrees(d: u16) -> (r: Rotation)
        ensures
            r == (if d == 90 {
                Rotation::Cw90
            } else if d == 180 {
                Rotation::Cw180
            } else if d == 270 {
                Rotation::Cw270
            } else {
                Rotation::Upright
            }),
            (d == 90 || d == 180 || d == 270) ==> r.spec_degrees() == d,
    {
        if d == 90 {
            Rotation::Cw90
        } else if d == 180 {
            Rotation::Cw180
        } else if d == 270 {
            Rotation::Cw270
        } else {
            Rotation::Upright
        }
    }

    pub fn degrees(&self) -> (d: u16)
        ensures
            d == self.spec_degrees(),
    {
        match self {
            Rotation::Upright => 0,
            Rotation::Cw90 => 90,
            Rotation::Cw180 => 180,
            Rotation::Cw270 => 270,
        }
    }

    /// The rotation that an EXIF-style orientation code stands for: "6" is
    /// 90 degrees, "3" is 180, "8" is 270, anything else none.
    pub fn from_orientation_code(s: &str) -> (r: Rotation)
        ensures
            r == (if s@ == "6"@ {
                Rotation::Cw90
            } else if s@ == "3"@ {
                Rotation::Cw180
            } else if s@ == "8"@ {
                Rotation::Cw270
            } else {
                Rotation::Upright
            }),
    {
        if same_text(s, "6") {
            Rotation::Cw90
        } else if same_text(s, "3") {
            Rotation::Cw180
        } else if same_text(s, "8") {
            Rotation::Cw270
        } else {
            Rotation::Upright
        }
    }

    /// The orientation code of the rotation ("1" for none).
    pub fn orientation_code(&self) -> (r: &'static str)
        ensures
            r@ == match self {
                Rotation::Upright => "1"@,
                Rotation::Cw90 => "6"@,
                Rotation::Cw180 => "3"@,
                Rotation::Cw270 => "8"@,
            },
    {
        match self {
            Rotation::Upright => "1",
            Rotation::Cw90 => "6",
            Rotation::Cw180 => "3",
            Rotation::Cw270 => "8",
        }
    }
}

/// A crop rectangle in pixel space: origin (x, y) and extent
/// (width, height). Values outside the image are clamped when applied.
#[derive(Clone, Copy, Debug, PartialEq, Eq, Structural)]
pub struct CropRect {
    pub x: i64,
    pub y: i64,
    pub width: i64,
    pub height: i64,
}

/// The adjustment parameters of one image. Numeric fields are integers in
/// hundredths of their unit: exposure in 1/100 EV, white-balance
/// temperature in 1/100 K, the straighten angle in 1/100 degree, and the
/// percentage-like fields in 1/100 %.
#[derive(Clone, Copy, Debug, PartialEq, Eq, Structural)]
pub struct EditState {
    pub rating: u8,
    pub flag: Flag,
    pub crop: Option<CropRect>,
    pub straighten_angle: i64,
    pub rotation: Rotation,
    pub exposure: i64,
    pub contrast: i64,
    pub highlights: i64,
    pub shadows: i64,
    pub white_balance_temp: i64,
    pub white_balance_tint: i64,
    pub saturation: i64,
    pub vibrance: i64,
    pub sharpening_amount: i64,
    pub sharpening_radius: i64,
    pub noise_reduction: i64,
}

pub open spec fn default_edit_state() -> EditState {
    EditState {
        rating: 0,
        flag: Flag::Unflagged,
        crop: None,
        straighten_angle: 0,
        rotation: Rotation::Upright,
        exposure: 0,
        contrast: 0,
        highlights: 0,
        shadows: 0,
        white_balance_temp: 550000,
        white_balance_tint: 0,
        saturation: 0,
        vibrance: 0,
        sharpening_amount: 0,
        sharpening_radius: 100,
        noise_reduction: 0,
    }
}

impl Default for EditState {
    /// No edits: neutral values, 5500 K, sharpening radius 1.
    fn default() -> (r: EditState)
        ensures
            r == default_edit_state(),
    {
        EditState {
            rating: 0,
            flag: Flag::Unflagged,
            crop: None,
            straighten_angle: 0,
            rotation: Rotation::Upright,
            exposure: 0,
            contrast: 0,
            highlights: 0,
            shadows: 0,
            white_balance_temp: 550000,
            white_balance_tint: 0,
            saturation: 0,
            vibrance: 0,
            sharpening_amount: 0,
            sharpening_radius: 100,
            noise_reduction: 0,
        }
    }
}

impl EditState {
    /// Sets the rating, clamped to 5.
    pub fn set_rating(&mut self, rating: u8)
        ensures
            final(self).rating == if rating > 5 {
                5
            } else {
                rating
            },
            *final(self) == (EditState { rating: final(self).rating, ..*old(self) }),
    {
        self.rating = if rating > 5 {
            5
        } else {
            rating
        };
    }
}

/// Export settings.
#[derive(Clone, Debug)]
pub struct ExportOptions {
    pub format: String,
    pub quality: u8,
    pub resize_mode: String,
    pub resize_value: Option<u32>,
}

/// Outcome of exporting one image.
#[derive(Clone, Debug)]
pub struct ExportResult {
    pub success: bool,
    pub source_id: String,
    pub destination_path: Option<String>,
    pub error: Option<String>,
}

/// Camera RAW extensions (lowercase).
pub open spec fn raw_extension(s: Seq<char>) -> bool {
    s == "cr2"@ || s == "cr3"@ || s == "nef"@ || s == "nrw"@ || s == "arw"@ || s == "srf"@ || s
        == "sr2"@ || s == "raf"@ || s == "orf"@ || s == "rw2"@ || s == "dng"@ || s == "pef"@ || s
        == "erf"@ || s == "3fr"@ || s == "fff"@ || s == "iiq"@ || s == "rwl"@ || s == "srw"@ || s
        == "x3f"@ || s == "mrw"@
}

/// Ordinary image extensions (lowercase).
pub open spec fn image_extension(s: Seq<char>) -> bool {
    s == "jpg"@ || s == "jpeg"@ || s == "png"@ || s == "tiff"@ || s == "tif"@ || s == "webp"@ || s
        == "heic"@ || s == "heif"@
}

fn in_raw_list(s: &str) -> (r: bool)
    ensures
        r == raw_extension(s@),
{
    same_text(s, "cr2") || same_text(s, "cr3") || same_text(s, "nef") || same_text(s, "nrw")
        || same_text(s, "arw") || same_text(s, "srf") || same_text(s, "sr2") || same_text(s, "raf")
        || same_text(s, "orf") || same_text(s, "rw2") || same_text(s, "dng") || same_text(s, "pef")
        || same_text(s, "erf") || same_text(s, "3fr") || same_text(s, "fff") || same_text(s, "iiq")
        || same_text(s, "rwl") || same_text(s, "srw") || same_text(s, "x3f") || same_text(s, "mrw")
}

fn in_image_list(s: &str) -> (r: bool)
    ensures
        r == image_extension(s@),
{
    same_text(s, "jpg") || same_text(s, "jpeg") || same_text(s, "png") || same_text(s, "tiff")
        || same_text(s, "tif") || same_text(s, "webp") || same_text(s, "heic") || same_text(s, "heif")
}

impl ImageFile {
    /// The extension, in any case, is a RAW or an ordinary image extension.
    pub fn is_supported_extension(ext: &str) -> (r: bool)
        ensures
            r == (raw_extension(lower_of(ext@)) || image_extension(lower_of(ext@))),
    {
        let lower = lowercase(ext);
        in_raw_list(lower.as_str()) || in_image_list(lower.as_str())
    }

    /// The extension, in any case, is a RAW extension.
    pub fn is_raw_extension(ext: &str) -> (r: bool)
        ensures
            r == raw_extension(lower_of(ext@)),
    {
        let lower = lowercase(ext);
        in_raw_list(lower.as_str())
    }
}

} // verus!
