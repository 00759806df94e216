//! A picture of a window as PNG bytes.
use vstd::prelude::*;

use crate::geometry::Rect;
use crate::pixels::{
    downsample_rgba_nearest, make_opaque, opaque, red_blue_swapped, swap_red_blue, thumbnail,
    thumbnail_height,
};

verus! {

#[verifier::external_type_specification]
#[verifier::external_body]
pub struct ExEncodingError(png::EncodingError);

/// What `png` makes of an eight-bit RGBA picture of the given width and
/// height; `None` where it refuses it.
pub uninterp spec fn png_rgba(rgba: Seq<u8>, width: u32, height: u32) -> Option<Seq<u8>>;

/// Writes a picture with `png::Encoder` (colour type RGBA, eight bits), through
/// `Encoder::new`, `write_header` and `Writer::write_image_data`.
///
/// Taken on trust: the bytes depend on the arguments alone; a picture without
/// rows or columns, or with another number of bytes than its size asks for, is
/// refused, and every other one is written, since the bytes go to memory; what
/// is written starts with the eight bytes that mark a PNG file. Left unsaid is
/// what the rest of the bytes are.
#[verifier::external_body]
fn encode_rgba(rgba: &Vec<u8>, width: u32, height: u32) -> (r: Result<Vec<u8>, png::EncodingError>)
    requires
        width * height * 4 <= usize::MAX,
    ensures
        png_rgba(rgba@, width, height) == (match r {
            Ok(bytes) => Some(bytes@),
            Err(_) => None,
        }),
        r is Err == (width == 0 || height == 0 || rgba@.len() != width * height * 4),
        r matches Ok(bytes) ==> seq![137u8, 80, 78, 71, 13, 10, 26, 10].is_prefix_of(bytes@),
{
    let mut out: Vec<u8> = Vec::new();
    {
        let mut encoder = png::Encoder::new(std::io::Cursor::new(&mut out), width, height);
        encoder.set_color(png::ColorType::Rgba);
        encoder.set_depth(png::BitDepth::Eight);
        let mut writer = encoder.write_header()?;
        writer.write_image_data(rgba)?;
    }
    Ok(out)
}

#[derive(Debug, Clone, Copy, PartialEq, Eq, Structural)]
pub enum CaptureError {
    /// The window has no client area.
    EmptyClientArea { width: i64, height: i64 },
    /// The picture could not be written.
    Encoding,
}

/// Width and height of a picture.
#[derive(Debug, Clone, Copy, PartialEq, Eq, Structural)]
pub struct PictureSize {
    pub width: u32,
    pub height: u32,
}

/// An RGBA picture.
#[derive(Debug)]
pub struct Picture {
    pub size: PictureSize,
    pub rgba: Vec<u8>,
}

pub open spec fn area_of(client: Rect) -> Result<PictureSize, CaptureError> {
    let w = client.right - client.left;
    let h = client.bottom - client.top;
    if w <= 0 || h <= 0 {
        Err(CaptureError::EmptyClientArea { width: w as i64, height: h as i64 })
    } else {
        Ok(PictureSize { width: w as u32, height: h as u32 })
    }
}

/// The size to capture a window at.
pub fn client_area(client: Rect) -> (r: Result<PictureSize, CaptureError>)
    ensures
        r == area_of(client),
        r matches Ok(s) ==> s.width > 0 && s.height > 0,
{
    let width: i64 = client.right as i64 - client.left as i64;
    let height: i64 = client.bottom as i64 - client.top as i64;
    if width <= 0 || height <= 0 {
        Err(CaptureError::EmptyClientArea { width, height })
    } else {
        Ok(PictureSize { width: width as u32, height: height as u32 })
    }
}

/// Whether a picture is to be made smaller.
pub open spec fn shrinks(size: PictureSize, max_width: Option<u32>) -> bool {
    max_width matches Some(w) && 0 < w < size.width
}

pub open spec fn shrunk_size(size: PictureSize, max_width: Option<u32>) -> PictureSize {
    if shrinks(size, max_width) {
        PictureSize {
            width: max_width->0,
            height: thumbnail_height(
                size.width as int,
                size.height as int,
                max_width->0 as int,
            ) as u32,
        }
    } else {
        size
    }
}

pub open spec fn shrunk_pixels(rgba: Seq<u8>, size: PictureSize, max_width: Option<u32>) -> Seq<
    u8,
> {
    if shrinks(size, max_width) {
        thumbnail(rgba, size.width as int, size.height as int, max_width->0 as int)
    } else {
        rgba
    }
}

proof fn lemma_shrunk_fits(w: int, h: int, target: int)
    requires
        0 < target < w,
        0 < h,
    ensures
        1 <= thumbnail_height(w, h, target) <= h,
        target * thumbnail_height(w, h, target) * 4 <= w * h * 4,
{
    assert(h * target <= h * w) by (nonlinear_arith)
        requires
            0 < target < w,
            0 < h,
    ;
    assert((h * w) / w == h) by (nonlinear_arith)
        requires
            w > 0,
    ;
    vstd::arithmetic::div_mod::lemma_div_is_ordered(h * target, h * w, w);
    let t = thumbnail_height(w, h, target);
    assert(target * t <= w * h) by (nonlinear_arith)
        requires
            0 < target < w,
            0 < t <= h,
    ;
}

/// Makes an opaque RGBA picture out of captured BGRA pixels, no wider than
/// `max_width` where that is given.
pub fn prepare_capture(size: PictureSize, bgra: Vec<u8>, max_width: Option<u32>) -> (r: Picture)
    requires
        size.width > 0,
        size.height > 0,
        bgra@.len() == size.width * size.height * 4,
    ensures
        r.size == shrunk_size(size, max_width),
        r.rgba@ == shrunk_pixels(opaque(red_blue_swapped(bgra@)), size, max_width),
        r.rgba@.len() == r.size.width * r.size.height * 4,
        r.size.width > 0,
        r.size.height > 0,
{
    let mut rgba: Vec<u8> = bgra;
    swap_red_blue(&mut rgba);
    make_opaque(&mut rgba);
    match max_width {
        Some(target) => {
            if target > 0 && target < size.width {
                proof {
                    lemma_shrunk_fits(size.width as int, size.height as int, target as int);
                    assert(rgba.len() == size.width * size.height * 4);
                }
                let (small, height): (Vec<u8>, u32) = downsample_rgba_nearest(
                    &rgba,
                    size.width,
                    size.height,
                    target,
                );
                return Picture { size: PictureSize { width: target, height }, rgba: small };
            }
        },
        None => {},
    }
    Picture { size, rgba }
}

/// Turns the outcome of the encoder into the outcome of a capture.
pub fn encoded(result: Result<Vec<u8>, png::EncodingError>) -> (r: Result<Vec<u8>, CaptureError>)
    ensures
        match (result, r) {
            (Ok(a), Ok(b)) => a@ == b@,
            (Err(_), Err(e)) => e == CaptureError::Encoding,
            _ => false,
        },
{
    match result {
        Ok(bytes) => Ok(bytes),
        Err(_) => Err(CaptureError::Encoding),
    }
}

/// PNG bytes of the captured client area of a window. `bgra` holds its pixels,
/// row by row from the top.
pub fn capture_window_png(client: Rect, bgra: Vec<u8>, max_width: Option<u32>) -> (r: Result<
    Vec<u8>,
    CaptureError,
>)
    requires
        area_of(client) matches Ok(s) ==> bgra@.len() == s.width * s.height * 4,
    ensures
        match area_of(client) {
            Err(e) => r matches Err(x) && x == e,
            Ok(s) => {
                let size = shrunk_size(s, max_width);
                let rgba = shrunk_pixels(opaque(red_blue_swapped(bgra@)), s, max_width);
                r matches Ok(b) && png_rgba(rgba, size.width, size.height) == Some(b@)
            },
        },
{
    match client_area(client) {
        Err(e) => Err(e),
        Ok(size) => {
            let picture: Picture = prepare_capture(size, bgra, max_width);
            proof {
                assert(picture.rgba.len() == picture.size.width * picture.size.height * 4);
            }
            encoded(encode_rgba(&picture.rgba, picture.size.width, picture.size.height))
        },
    }
}

/// A picture is made smaller exactly where a width above nothing and below its
/// own is asked for, and then it is that wide. It never gets larger.
pub proof fn law_pictures_only_shrink(size: PictureSize, max_width: Option<u32>)
    requires
        size.width > 0,
        size.height > 0,
    ensures
        ({
            let r = shrunk_size(size, max_width);
            &&& 1 <= r.width <= size.width
            &&& 1 <= r.height <= size.height
            &&& max_width is Some && 0 < max_width->0 <= size.width ==> r.width == max_width->0
            &&& max_width is None || max_width->0 == 0 || max_width->0 >= size.width ==> r == size
        }),
{
    if shrinks(size, max_width) {
        lemma_shrunk_fits(size.width as int, size.height as int, max_width->0 as int);
    }
}

/// A window is captured at the size of its client area, and not at all where
/// that has no extent.
pub proof fn law_windows_are_captured_at_their_size(client: Rect)
    ensures
        match area_of(client) {
            Ok(s) => s.width > 0 && s.height > 0 && client.left + s.width == client.right
                && client.top + s.height == client.bottom,
            Err(CaptureError::EmptyClientArea { width, height }) => (width <= 0 || height <= 0)
                && client.left + width == client.right && client.top + height == client.bottom,
            Err(CaptureError::Encoding) => false,
        },
{
}

} // verus!
