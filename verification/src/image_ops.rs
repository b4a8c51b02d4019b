//! Image operations: rotation, text stamp placement and PDF layout.

use vstd::prelude::*;
use image::codecs::jpeg::JpegEncoder;
use image::{DynamicImage, RgbaImage};
use std::path::PathBuf;
use zune_core::bytestream::ZCursor;
use zune_core::colorspace::ColorSpace;
use zune_core::options::DecoderOptions;
use zune_jpeg::JpegDecoder;
use crate::paths::{display_path, path_display};
use crate::text::{
    ascii_lowercase, chars_of, concat, decimal, decimal_string, owned, push_char,
    to_ascii_lowercase,
};

verus! {

/// Rotation direction (clockwise).
#[derive(Debug, Clone, Copy, PartialEq, Eq, Hash, Structural)]
pub enum Rotation {
    NoRotation,
    Cw90,
    Cw180,
    Cw270,
}

/// Where to place the text overlay on the image.
#[derive(Debug, Clone, Copy, PartialEq, Eq, Hash, Structural)]
pub enum TextPosition {
    TopLeft,
    TopRight,
    BottomLeft,
    BottomRight,
    Center,
}

/// RGBA color for text overlay.
#[derive(Debug, Clone, Copy, PartialEq, Eq, Structural)]
pub struct TextColor {
    pub r: u8,
    pub g: u8,
    pub b: u8,
    pub a: u8,
}

impl Default for TextColor {
    /// Opaque white.
    fn default() -> (c: Self)
        ensures
            c == (TextColor { r: 255, g: 255, b: 255, a: 255 }),
    {
        TextColor { r: 255, g: 255, b: 255, a: 255 }
    }
}

/// The image crate's decoded image, carried as an opaque value.
#[verifier::external_type_specification]
#[verifier::external_body]
pub struct ExDynamicImage(DynamicImage);

// ---------------------------------------------------------------------------
// Rotation
// ---------------------------------------------------------------------------

/// The image crate's turn of `img` by 90 degrees clockwise; it depends on
/// the image alone.
pub uninterp spec fn rotated_90(img: DynamicImage) -> DynamicImage;

/// `DynamicImage::rotate90`: the image turned 90 degrees clockwise.
///
/// Trusted: the result is named `rotated_90`; the pixels themselves are
/// left to that name.
#[verifier::external_body]
fn rotate90(img: &DynamicImage) -> (r: DynamicImage)
    ensures
        r == rotated_90(*img),
{
    img.rotate90()
}

/// The image crate's turn of `img` by 180 degrees clockwise; it depends on
/// the image alone.
pub uninterp spec fn rotated_180(img: DynamicImage) -> DynamicImage;

/// `DynamicImage::rotate180`: the image turned 180 degrees clockwise.
///
/// Trusted: the result is named `rotated_180`; the pixels themselves are
/// left to that name.
#[verifier::external_body]
fn rotate180(img: &DynamicImage) -> (r: DynamicImage)
    ensures
        r == rotated_180(*img),
{
    img.rotate180()
}

/// The image crate's turn of `img` by 270 degrees clockwise; it depends on
/// the image alone.
pub uninterp spec fn rotated_270(img: DynamicImage) -> DynamicImage;

/// `DynamicImage::rotate270`: the image turned 270 degrees clockwise.
///
/// Trusted: the result is named `rotated_270`; the pixels themselves are
/// left to that name.
#[verifier::external_body]
fn rotate270(img: &DynamicImage) -> (r: DynamicImage)
    ensures
        r == rotated_270(*img),
{
    img.rotate270()
}

/// `DynamicImage::clone`. Trusted: it clones the image buffer of its
/// variant (pixel data, width, height and colour space) into the same
/// variant, so the copy is the same value.
#[verifier::external_body]
fn copy_image(img: &DynamicImage) -> (r: DynamicImage)
    ensures
        r == *img,
{
    img.clone()
}

/// Rotate the image clockwise: an unrotated copy for `NoRotation`, else
/// the image crate's rotation by 90, 180 or 270 degrees.
pub fn rotate_image(img: &DynamicImage, rotation: Rotation) -> (r: DynamicImage)
    ensures
        r == match rotation {
            Rotation::NoRotation => *img,
            Rotation::Cw90 => rotated_90(*img),
            Rotation::Cw180 => rotated_180(*img),
            Rotation::Cw270 => rotated_270(*img),
        },
{
    match rotation {
        Rotation::NoRotation => copy_image(img),
        Rotation::Cw90 => rotate90(img),
        Rotation::Cw180 => rotate180(img),
        Rotation::Cw270 => rotate270(img),
    }
}

// ---------------------------------------------------------------------------
// Text stamp placement
// ---------------------------------------------------------------------------

/// `a - b`, or 0 where `b` is larger (`u32::saturating_sub`).
pub open spec fn saturating_sub(a: int, b: int) -> int {
    if a > b {
        a - b
    } else {
        0
    }
}

/// Where the top-left corner of a `stamp_w` x `stamp_h` text stamp goes on
/// an `img_w` x `img_h` image, `margin` pixels in from the chosen corner,
/// or centred.
pub open spec fn stamp_origin_spec(
    position: TextPosition,
    margin: int,
    img_w: int,
    img_h: int,
    stamp_w: int,
    stamp_h: int,
) -> (int, int) {
    match position {
        TextPosition::TopLeft => (margin, margin),
        TextPosition::TopRight => (saturating_sub(img_w, stamp_w + margin), margin),
        TextPosition::BottomLeft => (margin, saturating_sub(img_h, stamp_h + margin)),
        TextPosition::BottomRight => (
            saturating_sub(img_w, stamp_w + margin),
            saturating_sub(img_h, stamp_h + margin),
        ),
        TextPosition::Center => (
            saturating_sub(img_w, stamp_w) / 2,
            saturating_sub(img_h, stamp_h) / 2,
        ),
    }
}

/// Where to draw a pre-rendered text stamp on an image, as
/// `overlay_text_with_stamp` places it.
pub fn stamp_origin(
    position: TextPosition,
    margin: u32,
    img_w: u32,
    img_h: u32,
    stamp_w: u32,
    stamp_h: u32,
) -> (r: (i64, i64))
    requires
        position == TextPosition::TopRight || position == TextPosition::BottomRight ==> stamp_w
            + margin <= u32::MAX,
        position == TextPosition::BottomLeft || position == TextPosition::BottomRight ==> stamp_h
            + margin <= u32::MAX,
    ensures
        (r.0 as int, r.1 as int) == stamp_origin_spec(
            position,
            margin as int,
            img_w as int,
            img_h as int,
            stamp_w as int,
            stamp_h as int,
        ),
{
    match position {
        TextPosition::TopLeft => (margin as i64, margin as i64),
        TextPosition::TopRight => (img_w.saturating_sub(stamp_w + margin) as i64, margin as i64),
        TextPosition::BottomLeft => (margin as i64, img_h.saturating_sub(stamp_h + margin) as i64),
        TextPosition::BottomRight => (
            img_w.saturating_sub(stamp_w + margin) as i64,
            img_h.saturating_sub(stamp_h + margin) as i64,
        ),
        TextPosition::Center => (
            (img_w.saturating_sub(stamp_w) / 2) as i64,
            (img_h.saturating_sub(stamp_h) / 2) as i64,
        ),
    }
}

/// When the stamp and the margin fit in the image, the stamp is drawn
/// wholly inside the image, wherever it is placed.
pub proof fn law_stamp_fits_inside_image(
    position: TextPosition,
    margin: int,
    img_w: int,
    img_h: int,
    stamp_w: int,
    stamp_h: int,
)
    requires
        0 <= margin,
        0 <= stamp_w,
        0 <= stamp_h,
        stamp_w + margin <= img_w,
        stamp_h + margin <= img_h,
    ensures
        ({
            let (x, y) = stamp_origin_spec(position, margin, img_w, img_h, stamp_w, stamp_h);
            &&& 0 <= x && x + stamp_w <= img_w
            &&& 0 <= y && y + stamp_h <= img_h
        }),
{
}

// ---------------------------------------------------------------------------
// Text template
// ---------------------------------------------------------------------------

/// The placeholder replaced by the file name: `{filename}`.
pub open spec fn filename_placeholder() -> Seq<char> {
    seq!['{', 'f', 'i', 'l', 'e', 'n', 'a', 'm', 'e', '}']
}

/// `s` holds the placeholder at position `i`.
pub open spec fn placeholder_at(s: Seq<char>, i: int) -> bool {
    0 <= i && i + 10 <= s.len() && s.subrange(i, i + 10) == filename_placeholder()
}

/// `template` with every `{filename}` replaced by `filename`, matches
/// found left to right without overlap (`str::replace`).
pub open spec fn expand_template_spec(template: Seq<char>, filename: Seq<char>) -> Seq<char>
    decreases template.len(),
{
    if template.len() == 0 {
        Seq::empty()
    } else if placeholder_at(template, 0) {
        filename + expand_template_spec(template.skip(10), filename)
    } else {
        seq![template[0]] + expand_template_spec(template.drop_first(), filename)
    }
}

/// Whether `v[i..]` starts with `{filename}`.
fn placeholder_starts_at(v: &Vec<char>, i: usize) -> (b: bool)
    requires
        i <= v@.len(),
    ensures
        b == placeholder_at(v@, i as int),
{
    if v.len() - i < 10 {
        return false;
    }
    let b = v[i] == '{' && v[i + 1] == 'f' && v[i + 2] == 'i' && v[i + 3] == 'l' && v[i + 4]
        == 'e' && v[i + 5] == 'n' && v[i + 6] == 'a' && v[i + 7] == 'm' && v[i + 8] == 'e' && v[i
        + 9] == '}';
    proof {
        if b {
            assert(v@.subrange(i as int, i + 10) =~= filename_placeholder());
        } else {
            if v@.subrange(i as int, i + 10) == filename_placeholder() {
                assert(v@.subrange(i as int, i + 10)[0] == v@[i as int]);
                assert(v@.subrange(i as int, i + 10)[1] == v@[i + 1]);
                assert(v@.subrange(i as int, i + 10)[2] == v@[i + 2]);
                assert(v@.subrange(i as int, i + 10)[3] == v@[i + 3]);
                assert(v@.subrange(i as int, i + 10)[4] == v@[i + 4]);
                assert(v@.subrange(i as int, i + 10)[5] == v@[i + 5]);
                assert(v@.subrange(i as int, i + 10)[6] == v@[i + 6]);
                assert(v@.subrange(i as int, i + 10)[7] == v@[i + 7]);
                assert(v@.subrange(i as int, i + 10)[8] == v@[i + 8]);
                assert(v@.subrange(i as int, i + 10)[9] == v@[i + 9]);
            }
        }
    }
    b
}

/// The text of a stamp: `template` with `{filename}` replaced by
/// `filename`.
pub fn expand_template(template: &str, filename: &str) -> (r: String)
    ensures
        r@ == expand_template_spec(template@, filename@),
{
    let v = chars_of(template);
    let mut r = String::new();
    let mut i: usize = 0;
    proof {
        assert(v@.skip(0) =~= v@);
    }
    while i < v.len()
        invariant
            i <= v@.len(),
            v@ == template@,
            r@ + expand_template_spec(v@.skip(i as int), filename@) == expand_template_spec(
                template@,
                filename@,
            ),
        decreases v@.len() - i,
    {
        let ghost rest = v@.skip(i as int);
        if placeholder_starts_at(&v, i) {
            proof {
                assert(rest.subrange(0, 10) =~= v@.subrange(i as int, i + 10));
                assert(rest.skip(10) =~= v@.skip(i + 10));
                assert(r@ + filename@ + expand_template_spec(v@.skip(i + 10), filename@) =~= r@
                    + expand_template_spec(rest, filename@));
            }
            r = concat(r.as_str(), filename);
            i = i + 10;
        } else {
            proof {
                if i + 10 <= v@.len() {
                    assert(rest.subrange(0, 10) =~= v@.subrange(i as int, i + 10));
                }
                assert(rest.drop_first() =~= v@.skip(i + 1));
                assert(rest[0] == v@[i as int]);
                assert(r@.push(v@[i as int]) + expand_template_spec(v@.skip(i + 1), filename@)
                    =~= r@ + expand_template_spec(rest, filename@));
            }
            push_char(&mut r, v[i]);
            i = i + 1;
        }
    }
    proof {
        assert(v@.skip(i as int) =~= Seq::<char>::empty());
        assert(r@ + Seq::<char>::empty() =~= r@);
    }
    r
}

/// Whether `template` holds `{filename}` (`str::contains`).
pub fn template_mentions_filename(template: &str) -> (b: bool)
    ensures
        b == exists|i: int| placeholder_at(template@, i),
{
    let v = chars_of(template);
    let mut i: usize = 0;
    while i < v.len()
        invariant
            i <= v@.len(),
            v@ == template@,
            forall|k: int| 0 <= k < i ==> !placeholder_at(template@, k),
        decreases v@.len() - i,
    {
        if placeholder_starts_at(&v, i) {
            return true;
        }
        i = i + 1;
    }
    proof {
        assert forall|k: int| !placeholder_at(template@, k) by {
            if k >= i && placeholder_at(template@, k) {
                assert(k + 10 <= v@.len());
            }
        }
    }
    false
}

/// A template without `{filename}` gives the same text for every file
/// name: the template itself. (This is why one stamp can be rendered for
/// a whole batch when the template does not mention the file name.)
pub proof fn law_template_without_placeholder_is_fixed(template: Seq<char>, filename: Seq<char>)
    requires
        forall|i: int| !placeholder_at(template, i),
    ensures
        expand_template_spec(template, filename) == template,
    decreases template.len(),
{
    if template.len() > 0 {
        let t = template.drop_first();
        assert forall|i: int| !placeholder_at(t, i) by {
            if placeholder_at(t, i) {
                assert(template.subrange(i + 1, i + 11) =~= t.subrange(i, i + 10));
                assert(placeholder_at(template, i + 1));
            }
        }
        law_template_without_placeholder_is_fixed(t, filename);
        assert(seq![template[0]] + t =~= template);
    }
}

// ---------------------------------------------------------------------------
// PDF layout
// ---------------------------------------------------------------------------

/// Object number of the PDF catalog.
pub const PDF_CATALOG_ID: i32 = 1;

/// Object number of the PDF page tree.
pub const PDF_PAGE_TREE_ID: i32 = 2;

/// The PDF objects of one page: the page, its content stream and its image.
#[derive(Clone, Copy, Debug, PartialEq, Eq, Structural)]
pub struct PdfPageRefs {
    pub page: i32,
    pub content: i32,
    pub image: i32,
}

/// Page `i` has objects `3i + 3`, `3i + 4` and `3i + 5`, for every page.
pub open spec fn is_pdf_layout(refs: Seq<PdfPageRefs>) -> bool {
    forall|i: int|
        #![trigger refs[i]]
        0 <= i < refs.len() ==> {
            &&& refs[i].page == 3 * i + 3
            &&& refs[i].content == 3 * i + 4
            &&& refs[i].image == 3 * i + 5
        }
}

/// The object numbers of one page: page object, content stream, image.
pub open spec fn page_object_ids(r: PdfPageRefs) -> Seq<int> {
    seq![r.page as int, r.content as int, r.image as int]
}

/// Object numbers for a PDF of `count` pages: after the catalog (1) and
/// the page tree (2), each page takes three consecutive numbers, for its
/// page object, its content stream and its image.
pub fn pdf_object_layout(count: usize) -> (refs: Vec<PdfPageRefs>)
    requires
        3 * count + 2 <= i32::MAX,
    ensures
        refs@.len() == count,
        is_pdf_layout(refs@),
{
    let mut refs: Vec<PdfPageRefs> = Vec::new();
    let mut next_id: i32 = 3;
    let mut i: usize = 0;
    while i < count
        invariant
            i <= count,
            3 * count + 2 <= i32::MAX,
            next_id == 3 * i + 3,
            refs@.len() == i,
            is_pdf_layout(refs@),
        decreases count - i,
    {
        refs.push(PdfPageRefs { page: next_id, content: next_id + 1, image: next_id + 2 });
        next_id = next_id + 3;
        i = i + 1;
    }
    refs
}

/// The name under which page `i` refers to its image: `Im` and `i`.
pub fn pdf_image_name(i: usize) -> (name: String)
    ensures
        name@ == seq!['I', 'm'] + decimal(i as nat),
{
    let digits = decimal_string(i);
    let mut name = String::new();
    push_char(&mut name, 'I');
    push_char(&mut name, 'm');
    let r = concat(name.as_str(), digits.as_str());
    r
}

/// Every object of the PDF has its own number: no page object, content
/// stream or image shares one with another, and all come after the catalog
/// and the page tree.
pub proof fn law_pdf_objects_are_distinct(refs: Seq<PdfPageRefs>)
    requires
        is_pdf_layout(refs),
    ensures
        0 < PDF_CATALOG_ID < PDF_PAGE_TREE_ID,
        forall|i: int, a: int|
            0 <= i < refs.len() && 0 <= a < 3 ==> #[trigger] page_object_ids(refs[i])[a]
                > PDF_PAGE_TREE_ID,
        forall|i: int, j: int, a: int, b: int|
            0 <= i < refs.len() && 0 <= j < refs.len() && 0 <= a < 3 && 0 <= b < 3 && (i != j
                || a != b) ==> #[trigger] page_object_ids(refs[i])[a] != #[trigger] page_object_ids(
                refs[j],
            )[b],
{
    assert forall|i: int, a: int| 0 <= i < refs.len() && 0 <= a < 3 implies #[trigger] page_object_ids(
        refs[i],
    )[a] == 3 * i + 3 + a by {
        assert(refs[i].page == 3 * i + 3);
    }
}

// ---------------------------------------------------------------------------
// Which files are images
// ---------------------------------------------------------------------------

/// File extensions, in any ASCII case, of the images a folder is opened
/// for: `jpg`, `jpeg` and `png`.
pub open spec fn is_supported_extension(ext: Option<Seq<char>>) -> bool {
    match ext {
        Some(e) => {
            let lower = ascii_lowercase(e);
            lower == "jpg"@ || lower == "jpeg"@ || lower == "png"@
        },
        None => false,
    }
}

/// Whether a file with extension `ext` (where it has a UTF-8 one) is
/// listed as an image.
pub fn is_supported_image_extension(ext: Option<&str>) -> (b: bool)
    ensures
        b == is_supported_extension(
            match ext {
                Some(e) => Some(e@),
                None => None,
            },
        ),
{
    match ext {
        Some(e) => {
            let lower = to_ascii_lowercase(e);
            lower == owned("jpg") || lower == owned("jpeg") || lower == owned("png")
        },
        None => false,
    }
}

// ---------------------------------------------------------------------------
// Decoding, encoding and thumbnails
// ---------------------------------------------------------------------------

/// What zune-jpeg makes of `bytes` when asked for RGBA output: the width,
/// the height and the interleaved RGBA samples, or nothing where the
/// headers or the scan cannot be decoded. It depends on the bytes alone.
pub uninterp spec fn jpeg_rgba_decoded(bytes: Seq<u8>) -> Option<(usize, usize, Seq<u8>)>;

/// zune-jpeg's `JpegDecoder` with RGBA output: `decode_headers`, then
/// `dimensions`, then `decode`.
///
/// Trusted: what comes back is named `jpeg_rgba_decoded`; which streams
/// decode, and to which samples, is left to that name.
#[verifier::external_body]
fn zune_decode_rgba(bytes: &[u8]) -> (r: Option<(usize, usize, Vec<u8>)>)
    ensures
        match r {
            Some((w, h, px)) => jpeg_rgba_decoded(bytes@) == Some((w, h, px@)),
            None => jpeg_rgba_decoded(bytes@) is None,
        },
{
    let options = DecoderOptions::default().jpeg_set_out_colorspace(ColorSpace::RGBA);
    let mut decoder = JpegDecoder::new_with_options(ZCursor::new(bytes), options);
    decoder.decode_headers().ok()?;
    let (w, h) = decoder.dimensions()?;
    let pixels = decoder.decode().ok()?;
    Some((w, h, pixels))
}

/// The RGBA image that the image crate builds from `w` by `h` pixels whose
/// samples are `px`, where there are enough of them.
pub uninterp spec fn rgba_from_raw(w: u32, h: u32, px: Seq<u8>) -> Option<DynamicImage>;

/// `RgbaImage::from_raw`, held as `DynamicImage::ImageRgba8`.
///
/// Trusted: the image is named `rgba_from_raw`; as the crate's source
/// shows, there is one exactly when the four samples of each of the
/// `w * h` pixels fit in `px` (a size that overflows `usize` never fits).
#[verifier::external_body]
fn rgba_image_from_raw(w: u32, h: u32, px: Vec<u8>) -> (r: Option<DynamicImage>)
    ensures
        r == rgba_from_raw(w, h, px@),
        r is Some <==> 4 * w * h <= px@.len(),
{
    RgbaImage::from_raw(w, h, px).map(DynamicImage::ImageRgba8)
}

/// The image that the fast JPEG path makes of `bytes`: zune-jpeg's RGBA
/// samples laid out as an RGBA image of the decoded size.
pub open spec fn jpeg_fast_decoded(bytes: Seq<u8>) -> Option<DynamicImage> {
    match jpeg_rgba_decoded(bytes) {
        Some((w, h, px)) => rgba_from_raw(w as u32, h as u32, px),
        None => None,
    }
}

/// Decode JPEG bytes with zune-jpeg into an RGBA image. `None` where the
/// bytes do not decode, or decode to fewer samples than the image needs;
/// the caller then falls back to the image crate's own reader.
pub fn decode_jpeg_rgba(bytes: &[u8]) -> (r: Option<DynamicImage>)
    ensures
        r == jpeg_fast_decoded(bytes@),
{
    match zune_decode_rgba(bytes) {
        Some((w, h, pixels)) => rgba_image_from_raw(w as u32, h as u32, pixels),
        None => None,
    }
}

/// What the image crate's JPEG encoder writes for `img` at `quality`: the
/// bytes, or the text of its error. It depends on its arguments alone.
pub uninterp spec fn jpeg_encoded(img: DynamicImage, quality: u8) -> Result<Seq<u8>, Seq<char>>;

/// `DynamicImage::write_with_encoder` with `JpegEncoder::new_with_quality`,
/// writing into memory; an error is turned into its text.
///
/// Trusted: the outcome is named `jpeg_encoded`.
#[verifier::external_body]
fn jpeg_bytes(img: &DynamicImage, quality: u8) -> (r: Result<Vec<u8>, String>)
    ensures
        match r {
            Ok(b) => jpeg_encoded(*img, quality) == Ok::<Seq<u8>, Seq<char>>(b@),
            Err(e) => jpeg_encoded(*img, quality) == Err::<Seq<u8>, Seq<char>>(e@),
        },
{
    let mut bytes: Vec<u8> = Vec::new();
    let written = img.write_with_encoder(JpegEncoder::new_with_quality(&mut bytes, quality));
    written.map(|()| bytes).map_err(|e| e.to_string())
}

/// Encode the image as JPEG at `quality` (clamped by the encoder to
/// 1..=100). On failure the error reads `Failed to encode JPEG <path>:
/// <encoder error>`, naming the file the bytes are meant for.
pub fn encode_jpeg(img: &DynamicImage, path: &PathBuf, quality: u8) -> (r: Result<Vec<u8>, String>)
    ensures
        match jpeg_encoded(*img, quality) {
            Ok(b) => r matches Ok(v) && v@ == b,
            Err(e) => r matches Err(m) && m@ == encode_failed_text(*path, e),
        },
{
    match jpeg_bytes(img, quality) {
        Ok(b) => Ok(b),
        Err(e) => Err(encode_failed_message(path, e.as_str())),
    }
}

/// `<prefix><path>: <error>`, the shape of every image I/O error.
pub open spec fn io_failure_text(prefix: Seq<char>, path: PathBuf, error: Seq<char>) -> Seq<char> {
    prefix + path_display(path) + ": "@ + error
}

/// `Failed to open <path>: <error>`.
pub open spec fn open_failed_text(path: PathBuf, error: Seq<char>) -> Seq<char> {
    io_failure_text("Failed to open "@, path, error)
}

/// `Failed to decode <path>: <error>`.
pub open spec fn decode_failed_text(path: PathBuf, error: Seq<char>) -> Seq<char> {
    io_failure_text("Failed to decode "@, path, error)
}

/// `Failed to create <path>: <error>`.
pub open spec fn create_failed_text(path: PathBuf, error: Seq<char>) -> Seq<char> {
    io_failure_text("Failed to create "@, path, error)
}

/// `Failed to encode JPEG <path>: <error>`.
pub open spec fn encode_failed_text(path: PathBuf, error: Seq<char>) -> Seq<char> {
    io_failure_text("Failed to encode JPEG "@, path, error)
}

fn io_failure_message(prefix: &str, path: &PathBuf, error: &str) -> (m: String)
    ensures
        m@ == io_failure_text(prefix@, *path, error@),
{
    let shown = display_path(path);
    let mut m = concat(prefix, shown.as_str());
    m = concat(m.as_str(), ": ");
    concat(m.as_str(), error)
}

/// The error when an image file cannot be opened.
pub fn open_failed_message(path: &PathBuf, error: &str) -> (m: String)
    ensures
        m@ == open_failed_text(*path, error@),
{
    io_failure_message("Failed to open ", path, error)
}

/// The error when an image file cannot be decoded.
pub fn decode_failed_message(path: &PathBuf, error: &str) -> (m: String)
    ensures
        m@ == decode_failed_text(*path, error@),
{
    io_failure_message("Failed to decode ", path, error)
}

/// The error when an output file cannot be created.
pub fn create_failed_message(path: &PathBuf, error: &str) -> (m: String)
    ensures
        m@ == create_failed_text(*path, error@),
{
    io_failure_message("Failed to create ", path, error)
}

/// The error when an image cannot be encoded or its JPEG bytes written.
pub fn encode_failed_message(path: &PathBuf, error: &str) -> (m: String)
    ensures
        m@ == encode_failed_text(*path, error@),
{
    io_failure_message("Failed to encode JPEG ", path, error)
}

/// The image crate's thumbnail of `img` fitting within `max_size` pixels on
/// each side (aspect ratio kept), converted to RGBA. It depends on its
/// arguments alone.
pub uninterp spec fn thumbnail_rgba(img: DynamicImage, max_size: u32) -> DynamicImage;

/// Generate a thumbnail that fits within `max_size` pixels on the longest
/// side: `DynamicImage::thumbnail`, then `to_rgba8`, held as an RGBA image.
///
/// Trusted: the thumbnail is named `thumbnail_rgba`; its size and pixels
/// are left to that name.
#[verifier::external_body]
pub fn generate_thumbnail(img: &DynamicImage, max_size: u32) -> (r: DynamicImage)
    ensures
        r == thumbnail_rgba(*img, max_size),
{
    DynamicImage::ImageRgba8(img.thumbnail(max_size, max_size).to_rgba8())
}

/// Whether a file counts as an image depends on its extension only up to
/// ASCII case: the case variants of `jpg`, `jpeg` and `png` count, and
/// nothing else does; a file without an extension does not count.
pub proof fn law_supported_extension_ignores_case(e: Seq<char>)
    ensures
        is_supported_extension(Some(e)) == is_supported_extension(Some(ascii_lowercase(e))),
        is_supported_extension(Some(e)) <==> (ascii_lowercase(e) == "jpg"@ || ascii_lowercase(e)
            == "jpeg"@ || ascii_lowercase(e) == "png"@),
        !is_supported_extension(None),
{
    crate::text::lemma_ascii_lowercase_idempotent(e);
}

} // verus!
