//! Locating embedded JPEG streams inside a camera RAW container, and
//! choosing which of them to decode as a preview.
use vstd::prelude::*;
use crate::raster::{Raster, raster_parts};

verus! {

/// `Some(i)` read as a mathematical integer.
pub open spec fn opt_int(r: Option<usize>) -> Option<int> {
    match r {
        Some(i) => Some(i as int),
        None => None,
    }
}

/// A start-of-image marker `FF D8` begins at position `i`.
pub open spec fn is_soi(d: Seq<u8>, i: int) -> bool {
    0 <= i && i + 1 < d.len() && d[i] == 0xFF && d[i + 1] == 0xD8
}

/// An end-of-image marker `FF D9` begins at position `i`.
pub open spec fn is_eoi(d: Seq<u8>, i: int) -> bool {
    0 <= i && i + 1 < d.len() && d[i] == 0xFF && d[i + 1] == 0xD9
}

/// Position of the first start marker at or after `i`.
pub open spec fn first_soi(d: Seq<u8>, i: int) -> Option<int>
    decreases d.len() - i,
{
    if i < 0 || i + 1 >= d.len() {
        None
    } else if is_soi(d, i) {
        Some(i)
    } else {
        first_soi(d, i + 1)
    }
}

/// Position of the last byte of the first end marker at or after `i`.
pub open spec fn first_eoi_end(d: Seq<u8>, i: int) -> Option<int>
    decreases d.len() - i,
{
    if i < 0 || i + 1 >= d.len() {
        None
    } else if is_eoi(d, i) {
        Some(i + 1)
    } else {
        first_eoi_end(d, i + 1)
    }
}

/// The embedded JPEG segments found by scanning `d` left to right from
/// `pos`, as inclusive (start, end) byte ranges. Outside a segment
/// (`open` is `None`) a start marker opens one; inside a segment that began
/// at `s` the first end marker at least two bytes after it closes it, and
/// scanning resumes just past the end marker. Segments never overlap.
pub open spec fn segments_from(d: Seq<u8>, pos: int, open: Option<int>) -> Seq<(int, int)>
    decreases d.len() - pos,
{
    if pos < 0 || pos + 1 >= d.len() {
        seq![]
    } else {
        match open {
            None => if is_soi(d, pos) {
                segments_from(d, pos + 2, Some(pos))
            } else {
                segments_from(d, pos + 1, None)
            },
            Some(s) => if is_eoi(d, pos) {
                seq![(s, pos + 1)] + segments_from(d, pos + 2, None)
            } else {
                segments_from(d, pos + 1, Some(s))
            },
        }
    }
}

/// All embedded JPEG segments of `d`.
pub open spec fn jpeg_segments(d: Seq<u8>) -> Seq<(int, int)> {
    segments_from(d, 0, None)
}

pub open spec fn seg_view(v: Seq<(usize, usize)>) -> Seq<(int, int)> {
    v.map_values(|p: (usize, usize)| (p.0 as int, p.1 as int))
}

proof fn lemma_scan_outside(d: Seq<u8>, pos: int)
    requires
        0 <= pos,
    ensures
        segments_from(d, pos, None) == match first_soi(d, pos) {
            None => seq![],
            Some(s) => segments_from(d, s + 2, Some(s)),
        },
    decreases d.len() - pos,
{
    if pos + 1 < d.len() && !is_soi(d, pos) {
        lemma_scan_outside(d, pos + 1);
    }
}

proof fn lemma_scan_inside(d: Seq<u8>, pos: int, s: int)
    requires
        0 <= pos,
    ensures
        segments_from(d, pos, Some(s)) == match first_eoi_end(d, pos) {
            None => seq![],
            Some(e) => seq![(s, e)] + segments_from(d, e + 1, None),
        },
    decreases d.len() - pos,
{
    if pos + 1 < d.len() && !is_eoi(d, pos) {
        lemma_scan_inside(d, pos + 1, s);
    }
}

proof fn lemma_first_soi_bounds(d: Seq<u8>, i: int)
    ensures
        first_soi(d, i) matches Some(s) ==> i <= s && is_soi(d, s),
    decreases d.len() - i,
{
    if 0 <= i && i + 1 < d.len() && !is_soi(d, i) {
        lemma_first_soi_bounds(d, i + 1);
    }
}

proof fn lemma_first_eoi_bounds(d: Seq<u8>, i: int)
    ensures
        first_eoi_end(d, i) matches Some(e) ==> i < e < d.len() && is_eoi(d, e - 1),
    decreases d.len() - i,
{
    if 0 <= i && i + 1 < d.len() && !is_eoi(d, i) {
        lemma_first_eoi_bounds(d, i + 1);
    }
}

/// Position of the first start marker `FF D8` at or after `from`.
pub fn find_jpeg_start_from(data: &[u8], from: usize) -> (r: Option<usize>)
    ensures
        opt_int(r) == first_soi(data@, from as int),
{
    let n = data.len();
    let last: usize = if n > 0 { n - 1 } else { 0 };
    let mut i: usize = from;
    while i < last
        invariant
            n == data@.len(),
            last as int == if n > 0 { n - 1 } else { 0 },
            from <= i,
            first_soi(data@, from as int) == first_soi(data@, i as int),
        decreases n - i,
    {
        if data[i] == 0xFF && data[i + 1] == 0xD8 {
            return Some(i);
        }
        i = i + 1;
    }
    None
}

/// Position of the last byte of the first end marker `FF D9` that begins at
/// least two bytes after `start`.
pub fn find_jpeg_end(data: &[u8], start: usize) -> (r: Option<usize>)
    ensures
        opt_int(r) == first_eoi_end(data@, start + 2),
{
    let n = data.len();
    if start >= n || n - start <= 2 {
        return None;
    }
    let mut i: usize = start + 2;
    while i < n - 1
        invariant
            n == data@.len(),
            n >= 1,
            start + 2 <= i,
            first_eoi_end(data@, start + 2) == first_eoi_end(data@, i as int),
        decreases n - i,
    {
        if data[i] == 0xFF && data[i + 1] == 0xD9 {
            return Some(i + 1);
        }
        i = i + 1;
    }
    None
}

/// Every embedded JPEG segment of `data`, left to right, as inclusive
/// (start, end) byte ranges.
pub fn find_all_jpeg_segments(data: &[u8]) -> (r: Vec<(usize, usize)>)
    ensures
        seg_view(r@) == jpeg_segments(data@),
{
    let mut segments: Vec<(usize, usize)> = Vec::new();
    let mut search_start: usize = 0;
    let n = data.len();
    proof {
        lemma_scan_outside(data@, 0);
    }
    while search_start < n
        invariant
            n == data@.len(),
            seg_view(segments@) + segments_from(data@, search_start as int, None)
                == jpeg_segments(data@),
        decreases n - search_start,
    {
        proof {
            lemma_scan_outside(data@, search_start as int);
            lemma_first_soi_bounds(data@, search_start as int);
        }
        match find_jpeg_start_from(data, search_start) {
            None => {
                assert(seg_view(segments@) + seq![] =~= seg_view(segments@));
                return segments;
            },
            Some(start) => {
                proof {
                    lemma_scan_inside(data@, start + 2, start as int);
                    lemma_first_eoi_bounds(data@, start + 2);
                }
                match find_jpeg_end(data, start) {
                    None => {
                        assert(seg_view(segments@) + seq![] =~= seg_view(segments@));
                        return segments;
                    },
                    Some(end) => {
                        let ghost old_segs = segments@;
                        segments.push((start, end));
                        assert(seg_view(segments@) =~= seg_view(old_segs).push(
                            (start as int, end as int),
                        ));
                        assert(seg_view(old_segs) + (seq![(start as int, end as int)]
                            + segments_from(data@, end + 1, None)) =~= seg_view(segments@)
                            + segments_from(data@, end + 1, None));
                        search_start = end + 1;
                    },
                }
            },
        }
    }
    proof {
        assert(segments_from(data@, search_start as int, None) == Seq::<(int, int)>::empty());
        assert(seg_view(segments@) + seq![] =~= seg_view(segments@));
    }
    segments
}

/// Segments at most this many bytes long (end minus start) are taken for
/// small thumbnails and are not preferred as previews.
pub const PREVIEW_MIN_SPAN: usize = 10000;

pub open spec fn span(p: (int, int)) -> int {
    p.1 - p.0
}

pub open spec fn is_large(p: (int, int)) -> bool {
    span(p) > PREVIEW_MIN_SPAN
}

/// Inserts `x` into a list ordered by non-increasing span, after every
/// element whose span is at least that of `x`.
pub open spec fn insert_by_span(x: (int, int), s: Seq<(int, int)>) -> Seq<(int, int)>
    decreases s.len(),
{
    if s.len() == 0 {
        seq![x]
    } else if span(x) > span(s[0]) {
        seq![x] + s
    } else {
        seq![s[0]] + insert_by_span(x, s.drop_first())
    }
}

/// The large segments of `s`, largest first; segments of equal span keep
/// their order of discovery.
pub open spec fn large_by_span(s: Seq<(int, int)>) -> Seq<(int, int)>
    decreases s.len(),
{
    if s.len() == 0 {
        seq![]
    } else if is_large(s.last()) {
        insert_by_span(s.last(), large_by_span(s.drop_last()))
    } else {
        large_by_span(s.drop_last())
    }
}

/// The order in which segments are tried as a preview: the large ones from
/// largest to smallest, then every segment in order of discovery.
pub open spec fn preview_order(s: Seq<(int, int)>) -> Seq<(int, int)> {
    large_by_span(s) + s
}

pub open spec fn non_increasing_span(s: Seq<(int, int)>) -> bool {
    forall|i: int, j: int| 0 <= i < j < s.len() ==> span(s[i]) >= span(s[j])
}

proof fn lemma_insert_at(x: (int, int), s: Seq<(int, int)>, p: int)
    requires
        0 <= p <= s.len(),
        forall|i: int| 0 <= i < p ==> !(span(x) > span(#[trigger] s[i])),
        p < s.len() ==> span(x) > span(s[p]),
    ensures
        insert_by_span(x, s) == s.take(p) + seq![x] + s.skip(p),
    decreases s.len(),
{
    if s.len() == 0 {
        assert(s.take(p) + seq![x] + s.skip(p) =~= seq![x]);
    } else if p == 0 {
        assert(s.take(p) + seq![x] + s.skip(p) =~= seq![x] + s);
    } else {
        let t = s.drop_first();
        assert forall|i: int| 0 <= i < p - 1 implies !(span(x) > span(#[trigger] t[i])) by {
            assert(t[i] == s[i + 1]);
        }
        lemma_insert_at(x, t, p - 1);
        assert(seq![s[0]] + (t.take(p - 1) + seq![x] + t.skip(p - 1)) =~= s.take(p) + seq![x]
            + s.skip(p));
    }
}

proof fn lemma_insert_keeps_order(x: (int, int), s: Seq<(int, int)>)
    requires
        non_increasing_span(s),
    ensures
        non_increasing_span(insert_by_span(x, s)),
        insert_by_span(x, s).len() == s.len() + 1,
        forall|k: int| 0 <= k < insert_by_span(x, s).len() ==>
            #[trigger] insert_by_span(x, s)[k] == x || s.contains(insert_by_span(x, s)[k]),
    decreases s.len(),
{
    if s.len() > 0 && !(span(x) > span(s[0])) {
        let t = s.drop_first();
        assert(non_increasing_span(t)) by {
            assert forall|i: int, j: int| 0 <= i < j < t.len() implies span(t[i]) >= span(
                t[j],
            ) by {
                assert(t[i] == s[i + 1] && t[j] == s[j + 1]);
            }
        }
        lemma_insert_keeps_order(x, t);
        let r = insert_by_span(x, s);
        let rt = insert_by_span(x, t);
        assert(r == seq![s[0]] + rt);
        assert forall|k: int| 0 <= k < rt.len() implies span(s[0]) >= span(#[trigger] rt[k]) by {
            if rt[k] != x {
                let j = choose|j: int| 0 <= j < t.len() && t[j] == rt[k];
                assert(t[j] == s[j + 1]);
            }
        }
        assert forall|k: int| 0 <= k < r.len() implies #[trigger] r[k] == x || s.contains(r[k]) by {
            if k > 0 {
                assert(r[k] == rt[k - 1]);
                if rt[k - 1] != x {
                    let j = choose|j: int| 0 <= j < t.len() && t[j] == rt[k - 1];
                    assert(s[j + 1] == t[j]);
                }
            } else {
                assert(s[0] == s[0]);
            }
        }
        assert forall|i: int, j: int| 0 <= i < j < r.len() implies span(r[i]) >= span(r[j]) by {
            if i > 0 {
                assert(r[i] == rt[i - 1] && r[j] == rt[j - 1]);
            } else {
                assert(r[j] == rt[j - 1]);
            }
        }
    } else if s.len() > 0 {
        let r = insert_by_span(x, s);
        assert forall|k: int| 0 <= k < r.len() implies #[trigger] r[k] == x || s.contains(r[k]) by {
            if k > 0 {
                assert(r[k] == s[k - 1]);
            }
        }
    }
}

/// The large segments come out largest first.
pub proof fn lemma_large_by_span_ordered(s: Seq<(int, int)>)
    ensures
        non_increasing_span(large_by_span(s)),
        forall|k: int| 0 <= k < large_by_span(s).len() ==>
            s.contains(#[trigger] large_by_span(s)[k]) && is_large(large_by_span(s)[k]),
    decreases s.len(),
{
    if s.len() > 0 {
        let t = s.drop_last();
        lemma_large_by_span_ordered(t);
        assert forall|k: int| 0 <= k < t.len() implies s.contains(#[trigger] t[k]) by {
            assert(s[k] == t[k]);
        }
        if is_large(s.last()) {
            lemma_insert_keeps_order(s.last(), large_by_span(t));
            let r = large_by_span(s);
            assert forall|k: int| 0 <= k < r.len() implies s.contains(#[trigger] r[k]) && is_large(
                r[k],
            ) by {
                if r[k] != s.last() {
                    let j = choose|j: int|
                        0 <= j < large_by_span(t).len() && large_by_span(t)[j] == r[k];
                }
                assert(s[s.len() - 1] == s.last());
            }
        }
    }
}

/// Orders segments for preview decoding: the large ones from largest to
/// smallest (stable), followed by all segments in order of discovery.
pub fn preview_candidates(segs: &Vec<(usize, usize)>) -> (r: Vec<(usize, usize)>)
    requires
        forall|k: int| 0 <= k < segs@.len() ==> (#[trigger] segs@[k]).0 <= segs@[k].1,
    ensures
        seg_view(r@) == preview_order(seg_view(segs@)),
{
    let ghost sv = seg_view(segs@);
    let mut large: Vec<(usize, usize)> = Vec::new();
    let mut i: usize = 0;
    while i < segs.len()
        invariant
            i <= segs@.len(),
            sv == seg_view(segs@),
            sv.len() == segs@.len(),
            forall|k: int| 0 <= k < segs@.len() ==> (#[trigger] segs@[k]).0 <= segs@[k].1,
            forall|k: int| 0 <= k < large@.len() ==> (#[trigger] large@[k]).0 <= large@[k].1,
            seg_view(large@) == large_by_span(sv.take(i as int)),
        decreases segs@.len() - i,
    {
        let x = segs[i];
        assert(x.0 <= x.1);
        assert(sv[i as int] == (x.0 as int, x.1 as int));
        assert(sv.take(i + 1).drop_last() =~= sv.take(i as int));
        assert(sv.take(i + 1).last() == sv[i as int]);
        if x.1 - x.0 > PREVIEW_MIN_SPAN {
            let ghost lv = seg_view(large@);
            let mut p: usize = 0;
            while p < large.len() && !(x.1 - x.0 > large[p].1 - large[p].0)
                invariant
                    p <= large@.len(),
                    lv == seg_view(large@),
                    x.0 <= x.1,
                    forall|k: int| 0 <= k < large@.len() ==> (#[trigger] large@[k]).0 <= large@[k].1,
                    forall|k: int| 0 <= k < p ==> !(span((x.0 as int, x.1 as int)) > span(#[trigger] lv[k])),
                decreases large@.len() - p,
            {
                p = p + 1;
            }
            proof {
                if p < large@.len() {
                    assert(lv[p as int] == (large@[p as int].0 as int, large@[p as int].1 as int));
                }
                lemma_insert_at(sv[i as int], lv, p as int);
            }
            let ghost before = large@;
            large.insert(p, x);
            assert(large@ == before.insert(p as int, x));
            assert(seg_view(large@) =~= lv.take(p as int) + seq![sv[i as int]] + lv.skip(p as int));
            assert forall|k: int| 0 <= k < large@.len() implies (#[trigger] large@[k]).0 <= large@[k].1 by {
                if k < p {
                    assert(large@[k] == before[k]);
                } else if k > p {
                    assert(large@[k] == before[k - 1]);
                }
            }
        }
        i = i + 1;
    }
    assert(sv.take(segs@.len() as int) =~= sv);
    let mut r = large;
    let mut j: usize = 0;
    while j < segs.len()
        invariant
            j <= segs@.len(),
            sv == seg_view(segs@),
            sv.len() == segs@.len(),
            seg_view(r@) == large_by_span(sv) + sv.take(j as int),
        decreases segs@.len() - j,
    {
        let ghost before = r@;
        r.push(segs[j]);
        assert(seg_view(r@) =~= seg_view(before).push(sv[j as int]));
        assert(sv.take(j + 1) =~= sv.take(j as int).push(sv[j as int]));
        assert(seg_view(r@) =~= large_by_span(sv) + sv.take(j + 1));
        j = j + 1;
    }
    r
}

/// What the image codec decodes `b` to, as (width, height, RGB bytes).
pub uninterp spec fn decoded_rgb(b: Seq<u8>) -> Option<(u32, u32, Seq<u8>)>;

/// Relies on `image::load_from_memory` followed by `DynamicImage::to_rgb8`:
/// the codec guesses the format from the bytes, decodes them, and the result
/// is converted to 8-bit RGB. It depends on the bytes alone.
#[verifier::external_body]
fn decode_rgb8(b: &[u8]) -> (r: Option<(u32, u32, Vec<u8>)>)
    ensures
        decoded_rgb(b@) == match r {
            Some(t) => Some((t.0, t.1, t.2@)),
            None => None,
        },
{
    match image::load_from_memory(b) {
        Ok(img) => {
            let rgb = img.to_rgb8();
            let (w, h) = rgb.dimensions();
            Some((w, h, rgb.into_raw()))
        },
        Err(_) => None,
    }
}

/// What `b` gives as a well-formed raster, if anything.
pub open spec fn preview_raster(b: Seq<u8>) -> Option<(u32, u32, Seq<u8>)> {
    match decoded_rgb(b) {
        Some(t) => if t.2.len() == 3 * (t.0 as int) * (t.1 as int) {
            Some(t)
        } else {
            None
        },
        None => None,
    }
}

/// The bytes of segment `p` of `d`, both ends included.
pub open spec fn segment_bytes(d: Seq<u8>, p: (int, int)) -> Seq<u8> {
    d.subrange(p.0, p.1 + 1)
}

/// The first of `cands`, in order, whose bytes decode to a raster.
pub open spec fn first_preview(d: Seq<u8>, cands: Seq<(int, int)>) -> Option<(u32, u32, Seq<u8>)>
    decreases cands.len(),
{
    if cands.len() == 0 {
        None
    } else {
        match preview_raster(segment_bytes(d, cands[0])) {
            Some(t) => Some(t),
            None => first_preview(d, cands.drop_first()),
        }
    }
}

/// The preview that a RAW container's bytes yield: the first candidate in
/// preview order that decodes.
pub open spec fn embedded_preview(d: Seq<u8>) -> Option<(u32, u32, Seq<u8>)> {
    first_preview(d, preview_order(jpeg_segments(d)))
}

proof fn lemma_segments_ordered(d: Seq<u8>, pos: int, open: Option<int>)
    requires
        open matches Some(s) ==> 0 <= s < pos,
    ensures
        forall|k: int| 0 <= k < segments_from(d, pos, open).len() ==>
            0 <= (#[trigger] segments_from(d, pos, open)[k]).0 < segments_from(d, pos, open)[k].1
                < d.len(),
    decreases d.len() - pos,
{
    if 0 <= pos && pos + 1 < d.len() {
        match open {
            None => if is_soi(d, pos) {
                lemma_segments_ordered(d, pos + 2, Some(pos));
                assert(segments_from(d, pos, open) == segments_from(d, pos + 2, Some(pos)));
            } else {
                lemma_segments_ordered(d, pos + 1, None);
                assert(segments_from(d, pos, open) == segments_from(d, pos + 1, None));
            },
            Some(s) => if is_eoi(d, pos) {
                lemma_segments_ordered(d, pos + 2, None);
                let rest = segments_from(d, pos + 2, None);
                let all = segments_from(d, pos, open);
                assert(all == seq![(s, pos + 1)] + rest);
                assert forall|k: int| 0 <= k < all.len() implies 0 <= (#[trigger] all[k]).0 < all[k].1
                    < d.len() by {
                    if k > 0 {
                        assert(all[k] == rest[k - 1]);
                    }
                }
            } else {
                lemma_segments_ordered(d, pos + 1, Some(s));
                assert(segments_from(d, pos, open) == segments_from(d, pos + 1, Some(s)));
            },
        }
    }
}

/// Finds the embedded preview of a RAW container that the codec cannot
/// decode as a whole: the JPEG segments are tried in preview order and the
/// first that decodes wins.
pub fn decode_embedded_preview(data: &[u8]) -> (r: Option<Raster>)
    ensures
        r matches Some(x) ==> x.wf(),
        raster_parts(r) == embedded_preview(data@),
{
    let segs = find_all_jpeg_segments(data);
    proof {
        lemma_segments_ordered(data@, 0, None);
        assert forall|k: int| 0 <= k < segs@.len() implies (#[trigger] segs@[k]).0 <= segs@[k].1 by {
            assert(seg_view(segs@)[k] == (segs@[k].0 as int, segs@[k].1 as int));
        }
    }
    let cands = preview_candidates(&segs);
    let ghost cv = seg_view(cands@);
    proof {
        lemma_large_by_span_ordered(seg_view(segs@));
        assert forall|k: int| 0 <= k < cv.len() implies 0 <= (#[trigger] cv[k]).0 <= cv[k].1
            < data@.len() by {
            if k < large_by_span(seg_view(segs@)).len() {
                let j = choose|j: int|
                    0 <= j < seg_view(segs@).len() && seg_view(segs@)[j] == cv[k];
            } else {
                assert(cv[k] == seg_view(segs@)[k - large_by_span(seg_view(segs@)).len()]);
            }
        }
    }
    let n = data.len();
    assert(cv.skip(0) =~= cv);
    let mut i: usize = 0;
    while i < cands.len()
        invariant
            n == data@.len(),
            i <= cands@.len(),
            cv == seg_view(cands@),
            cv == preview_order(jpeg_segments(data@)),
            forall|k: int| 0 <= k < cv.len() ==> 0 <= (#[trigger] cv[k]).0 <= cv[k].1 < data@.len(),
            first_preview(data@, cv) == first_preview(data@, cv.skip(i as int)),
        decreases cands@.len() - i,
    {
        let (s, e) = cands[i];
        assert(cv[i as int] == (s as int, e as int));
        let bytes = &data[s..e + 1];
        let ghost rest = cv.skip(i as int);
        assert(rest[0] == cv[i as int]);
        assert(rest.drop_first() =~= cv.skip(i + 1));
        match decode_rgb8(bytes) {
            Some((w, h, px)) => {
                match Raster::from_rgb_parts(w, h, px) {
                    Some(img) => {
                        return Some(img);
                    },
                    None => {},
                }
            },
            None => {},
        }
        i = i + 1;
    }
    None
}

} // verus!
