//! Where sidecars and thumbnails live, and what a path's extension says
//! about its format.
use vstd::prelude::*;
use crate::text::{lower_of, lowercase, same_text};

verus! {

/// What `Path::with_extension` makes of a path and an extension.
pub uninterp spec fn with_extension_of(p: Seq<char>, ext: Seq<char>) -> Seq<char>;

/// What `Path::join` makes of a directory and a relative name.
pub uninterp spec fn joined(dir: Seq<char>, name: Seq<char>) -> Seq<char>;

/// What `Path::extension` reads from a path.
pub uninterp spec fn extension_of(p: Seq<char>) -> Option<Seq<char>>;

/// Relies on `Path::with_extension`: the path with its extension replaced
/// (or added), as text; it depends on the two texts alone. It panics on an
/// extension holding a path separator, so that is ruled out.
#[verifier::external_body]
fn path_with_extension(p: &str, ext: &str) -> (r: String)
    requires
        forall|i: int| 0 <= i < ext@.len() ==> ext@[i] != '/' && ext@[i] != '\\',
    ensures
        r@ == with_extension_of(p@, ext@),
{
    std::path::Path::new(p).with_extension(ext).to_string_lossy().to_string()
}

/// Relies on `Path::join`: the name appended to the directory, as text.
#[verifier::external_body]
fn join_path(dir: &str, name: &str) -> (r: String)
    ensures
        r@ == joined(dir@, name@),
{
    std::path::Path::new(dir).join(name).to_string_lossy().to_string()
}

/// Relies on `Path::extension`: the text after the last dot of the file
/// name, if there is one.
#[verifier::external_body]
fn path_extension(p: &str) -> (r: Option<String>)
    ensures
        match r {
            Some(e) => extension_of(p@) == Some(e@),
            None => extension_of(p@) is None,
        },
{
    match std::path::Path::new(p).extension() {
        Some(e) => Some(e.to_string_lossy().to_string()),
        None => None,
    }
}

/// The two texts joined by a dot.
fn dotted(stem: &str, ext: &str) -> (r: String)
    ensures
        r@ == stem@ + seq!['.'] + ext@,
{
    let mut r = String::from_str(stem);
    r.append(".");
    r.append(ext);
    proof {
        reveal_strlit(".");
    }
    assert(r@ =~= stem@ + seq!['.'] + ext@);
    r
}

/// The sidecar of an image: the same path with the extension `xmp`.
pub fn get_xmp_path(image_path: &str) -> (r: String)
    ensures
        r@ == with_extension_of(image_path@, "xmp"@),
{
    proof {
        reveal_strlit("xmp");
    }
    path_with_extension(image_path, "xmp")
}

/// The thumbnail directory inside a cache directory.
pub fn get_thumbnail_dir(cache_dir: &str) -> (r: String)
    ensures
        r@ == joined(cache_dir@, "thumbnails"@),
{
    join_path(cache_dir, "thumbnails")
}

/// The thumbnail file of an image: `<file_id>.jpg` in the thumbnail
/// directory.
pub fn get_thumbnail_path(thumb_dir: &str, file_id: &str) -> (r: String)
    ensures
        r@ == joined(thumb_dir@, file_id@ + seq!['.'] + "jpg"@),
{
    let name = dotted(file_id, "jpg");
    join_path(thumb_dir, name.as_str())
}

/// RAW formats that the RAW decoder reads (lowercase extensions).
pub open spec fn decodable_raw(s: Seq<char>) -> bool {
    s == "cr2"@ || s == "cr3"@ || s == "nef"@ || s == "arw"@ || s == "orf"@ || s == "rw2"@ || s
        == "dng"@ || s == "raf"@ || s == "pef"@ || s == "srw"@
}

fn in_decodable_list(s: &str) -> (r: bool)
    ensures
        r == decodable_raw(s@),
{
    same_text(s, "cr2") || same_text(s, "cr3") || same_text(s, "nef") || same_text(s, "arw")
        || same_text(s, "orf") || same_text(s, "rw2") || same_text(s, "dng") || same_text(s, "raf")
        || same_text(s, "pef") || same_text(s, "srw")
}

/// Decoder of camera RAW files.
pub struct RawDecoder;

impl RawDecoder {
    /// The path's extension, in any case, names a RAW format the decoder
    /// reads.
    pub fn is_raw_format(path: &str) -> (r: bool)
        ensures
            r == match extension_of(path@) {
                Some(e) => decodable_raw(lower_of(e)),
                None => false,
            },
    {
        match path_extension(path) {
            Some(e) => {
                let lower = lowercase(e.as_str());
                in_decodable_list(lower.as_str())
            },
            None => false,
        }
    }
}

} // verus!
