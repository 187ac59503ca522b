//! Gallery image rules: an image must be square (within 2%) and at least 1000px on each side.
//! The dimensions are read elsewhere from the image header; this module decides.

use vstd::prelude::*;
use crate::text::{chars_of, string_of};

verus! {

/// Minimum side length (the feed serves gallery images at 1000×1000).
pub const MIN_DIM: u32 = 1000;

/// Square within the 2% tolerance: `|w/h - 1| < 2%`, stated without division.
pub open spec fn square_within_tolerance(w: int, h: int) -> bool {
    if w >= h {
        50 * (w - h) < h
    } else {
        50 * (h - w) < h
    }
}

/// `(is_square, meets_min, ok)` of a `w × h` image; a zero side fails everything.
pub open spec fn image_rules(w: u32, h: u32) -> (bool, bool, bool) {
    if w == 0 || h == 0 {
        (false, false, false)
    } else {
        let sq = square_within_tolerance(w as int, h as int);
        let mm = w >= MIN_DIM && h >= MIN_DIM;
        (sq, mm, sq && mm)
    }
}

/// Evaluates the rules for a `w × h` image.
pub fn evaluate(w: u32, h: u32) -> (r: (bool, bool, bool))
    ensures
        r == image_rules(w, h),
        r.2 == (r.0 && r.1),
        r.1 == (w >= 1000 && h >= 1000),
        r.0 == (w > 0 && h > 0 && 50 * (if w >= h { w - h } else { h - w }) < h),
{
    if w == 0 || h == 0 {
        return (false, false, false);
    }
    let wi = w as u64;
    let hi = h as u64;
    let diff = if wi >= hi { wi - hi } else { hi - wi };
    let is_square = 50 * diff < hi;
    let meets_min = w >= MIN_DIM && h >= MIN_DIM;
    (is_square, meets_min, is_square && meets_min)
}

/// The outcome of checking one gallery image.
#[derive(Debug, Clone, PartialEq)]
pub struct ImageCheck {
    pub url: String,
    pub width: u32,
    pub height: u32,
    pub is_square: bool,
    pub meets_min: bool,
    pub ok: bool,
    pub error: Option<String>,
}

/// Turns the dimension read of one image (or the reason it failed) into its check row:
/// a failed read is a failed check with zero dimensions and the reason kept.
pub fn check_from_dims(url: &str, dims: Result<(u32, u32), String>) -> (r: ImageCheck)
    ensures
        r.url@ == url@,
        match dims {
            Ok((w, h)) => {
                &&& r.width == w && r.height == h
                &&& (r.is_square, r.meets_min, r.ok) == image_rules(w, h)
                &&& r.error is None
            },
            Err(e) => {
                &&& r.width == 0 && r.height == 0
                &&& !r.is_square && !r.meets_min && !r.ok
                &&& r.error matches Some(m) && m@ == e@
            },
        },
{
    let u = string_of(chars_of(url).as_slice());
    match dims {
        Ok((w, h)) => {
            let (is_square, meets_min, ok) = evaluate(w, h);
            ImageCheck { url: u, width: w, height: h, is_square, meets_min, ok, error: None }
        },
        Err(e) => ImageCheck {
            url: u,
            width: 0,
            height: 0,
            is_square: false,
            meets_min: false,
            ok: false,
            error: Some(e),
        },
    }
}

/// What `imagesize::blob_size` reads from an image's header: its width and height, or the
/// text of the error (unsupported format, data ending before the size). A function of the
/// bytes alone.
pub uninterp spec fn header_size(bytes: Seq<u8>) -> Result<(usize, usize), Seq<char>>;

/// Calls `imagesize::blob_size`, which reads the size from the header without decoding.
#[verifier::external_body]
fn blob_size_of(bytes: &[u8]) -> (r: Result<(usize, usize), String>)
    ensures
        match r {
            Ok(p) => header_size(bytes@) == Ok::<(usize, usize), Seq<char>>(p),
            Err(e) => header_size(bytes@) == Err::<(usize, usize), Seq<char>>(e@),
        },
{
    match imagesize::blob_size(bytes) {
        Ok(s) => Ok((s.width, s.height)),
        Err(e) => Err(e.to_string()),
    }
}

/// The dimensions of a downloaded image, or why they could not be read.
pub fn dims_from_bytes(bytes: &[u8]) -> (r: Result<(u32, u32), String>)
    ensures
        match header_size(bytes@) {
            Ok((w, h)) => r == Ok::<(u32, u32), String>((w as u32, h as u32)),
            Err(m) => r matches Err(e) && e@ == "Boyut okunamadı: "@ + m,
        },
{
    match blob_size_of(bytes) {
        Ok((w, h)) => Ok((w as u32, h as u32)),
        Err(m) => {
            let mut out = chars_of("Boyut okunamadı: ");
            crate::text::extend_str(&mut out, m.as_str());
            Err(string_of(out.as_slice()))
        },
    }
}

/// An image passes exactly when it is both square within the tolerance and at least
/// 1000px on each side; the size rule and the squareness rule read the sides directly.
pub proof fn law_ok_iff_square_and_large(w: u32, h: u32)
    ensures
        image_rules(w, h).2 == (image_rules(w, h).0 && image_rules(w, h).1),
        image_rules(w, h).1 == (w >= 1000 && h >= 1000),
        image_rules(w, h).0 == (w > 0 && h > 0 && 50 * (if w >= h { w - h } else { h - w }) < h),
        image_rules(w, h).2 ==> w >= 1000 && h >= 1000,
{
}

} // verus!
