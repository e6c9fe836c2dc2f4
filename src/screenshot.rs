//! The screenshot capturer's own logic: where a capture goes, how its file
//! is named, and how a captured RGBA frame becomes a JPEG file's bytes.
//! Taking the frame from the display and writing the file are left to the
//! host.

use vstd::prelude::*;
use crate::config::{join_path, path_join};

verus! {

/// image's error type, carried opaquely by the encoding wrapper.
#[verifier::external_type_specification]
#[verifier::external_body]
pub struct ExImageError(image::ImageError);

/// The JPEG quality screenshots are stored at.
pub const JPEG_QUALITY: u8 = 80;

/// A capture to make: into `dir`, scaled to `resolution` if given.
pub struct CaptureJob {
    pub dir: String,
    pub resolution: Option<(u32, u32)>,
}

/// Why a captured frame could not be stored.
#[derive(Clone, Copy, Debug, PartialEq, Eq, Structural)]
pub enum CaptureError {
    /// A side of the frame or of the requested size is zero.
    EmptyFrame,
    /// The pixel buffer holds fewer than width × height × 4 bytes.
    BadBuffer,
    /// The requested size does not fit in memory.
    TooLarge,
    /// The JPEG encoder refused the frame.
    Encode,
}

/// The screenshot directory under a log root.
pub open spec fn shots_dir(base: Seq<char>) -> Seq<char> {
    path_join(base, "screenshots"@)
}

/// The screenshot directory under the log root `base`.
pub fn screenshot_dir(base: &str) -> (r: String)
    ensures
        r@ == shots_dir(base@),
{
    join_path(base, "screenshots")
}

/// The file name of a screenshot taken at `stamp`.
pub open spec fn shot_name(stamp: Seq<char>) -> Seq<char> {
    "screenshot_"@ + stamp + ".jpg"@
}

/// The file name of a screenshot taken at `stamp`; stamps that sort in time
/// order give names that sort the same way.
pub fn screenshot_file_name(stamp: &str) -> (r: String)
    ensures
        r@ == shot_name(stamp@),
{
    let mut out = String::from_str("screenshot_");
    out.append(stamp);
    out.append(".jpg");
    out
}

/// The capture that a flush asks for: none when capture is off, else one
/// into the screenshot directory under `output_base_dir`.
pub fn capture_one_screenshot(
    output_base_dir: &str,
    capture_flag: bool,
    resolution: Option<(u32, u32)>,
) -> (r: Option<CaptureJob>)
    ensures
        r is Some == capture_flag,
        r is Some ==> r->0.dir@ == shots_dir(output_base_dir@) && r->0.resolution == resolution,
{
    if !capture_flag {
        return None;
    }
    Some(CaptureJob { dir: screenshot_dir(output_base_dir), resolution })
}

/// What `image::imageops::resize` with the triangle filter makes of an RGBA frame.
pub uninterp spec fn resized_of(px: Seq<u8>, w: u32, h: u32, nw: u32, nh: u32) -> Seq<u8>;

/// Relies on `image::imageops::resize` with `FilterType::Triangle` on an RGBA
/// image (`ImageBuffer::from_raw` wraps the bytes, `into_raw` unwraps the
/// result): a frame of `nw` × `nh` pixels of four bytes, which depends on
/// the arguments alone. Its buffers must fit in memory.
#[verifier::external_body]
fn resize_rgba(px: &Vec<u8>, w: u32, h: u32, nw: u32, nh: u32) -> (r: Vec<u8>)
    requires
        px@.len() == w * h * 4,
        w > 0 && h > 0 && nw > 0 && nh > 0,
        nw * nh * 4 <= usize::MAX,
        w * nh * 4 <= usize::MAX,
    ensures
        r@ == resized_of(px@, w, h, nw, nh),
        r@.len() == nw * nh * 4,
{
    let img: image::RgbaImage = image::ImageBuffer::from_raw(w, h, px.clone()).unwrap_or_default();
    image::imageops::resize(&img, nw, nh, image::imageops::FilterType::Triangle).into_raw()
}

/// What the JPEG encoder writes for an RGBA frame at a quality, or `None`
/// where it fails.
pub uninterp spec fn jpeg_of(px: Seq<u8>, w: u32, h: u32, quality: u8) -> Option<Seq<u8>>;

/// Relies on `image::codecs::jpeg::JpegEncoder::encode` (made with
/// `new_with_quality`) on RGBA bytes, writing into a `Vec`: the bytes
/// written depend on the arguments alone, or it fails, as for a side over
/// 65535 pixels.
#[verifier::external_body]
fn encode_jpeg(px: &Vec<u8>, w: u32, h: u32, quality: u8) -> (r: Result<Vec<u8>, image::ImageError>)
    requires
        px@.len() == w * h * 4,
        w > 0 && h > 0,
    ensures
        r is Ok == jpeg_of(px@, w, h, quality) is Some,
        r is Ok ==> r->Ok_0@ == jpeg_of(px@, w, h, quality)->0,
{
    let mut out: Vec<u8> = Vec::new();
    let res = image::codecs::jpeg::JpegEncoder::new_with_quality(&mut out, quality).encode(
        px.as_slice(),
        w,
        h,
        image::ColorType::Rgba8,
    );
    match res {
        Ok(()) => Ok(out),
        Err(e) => Err(e),
    }
}

/// The stored form of a captured RGBA frame of `w` × `h` pixels: the frame
/// (its first w × h × 4 bytes), scaled to `resolution` if given, as a JPEG
/// at the fixed quality.
pub open spec fn frame_jpeg(px: Seq<u8>, w: u32, h: u32, resolution: Option<(u32, u32)>) -> Result<
    Seq<u8>,
    CaptureError,
> {
    if w == 0 || h == 0 || (resolution matches Some((nw, nh)) && (nw == 0 || nh == 0)) {
        Err(CaptureError::EmptyFrame)
    } else if px.len() < w * h * 4 {
        Err(CaptureError::BadBuffer)
    } else if resolution matches Some((nw, nh)) && (nw * nh * 4 > usize::MAX || w * nh * 4
        > usize::MAX) {
        Err(CaptureError::TooLarge)
    } else {
        let frame = px.subrange(0, w * h * 4);
        let (out, ow, oh) = match resolution {
            Some((nw, nh)) => (resized_of(frame, w, h, nw, nh), nw, nh),
            None => (frame, w, h),
        };
        match jpeg_of(out, ow, oh, JPEG_QUALITY) {
            Some(b) => Ok(b),
            None => Err(CaptureError::Encode),
        }
    }
}

proof fn lemma_u32_product(a: u32, b: u32)
    ensures
        (a as int) * (b as int) * 4 <= 0xffff_ffff * 0xffff_ffff * 4,
{
    assert((a as int) * (b as int) <= 0xffff_ffff * 0xffff_ffff) by (nonlinear_arith)
        requires
            a <= 0xffff_ffff,
            b <= 0xffff_ffff,
    ;
}

/// Turns a captured RGBA frame into the bytes of its JPEG file.
pub fn render_frame(pixels: Vec<u8>, w: u32, h: u32, resolution: Option<(u32, u32)>) -> (r: Result<
    Vec<u8>,
    CaptureError,
>)
    ensures
        match r {
            Ok(b) => frame_jpeg(pixels@, w, h, resolution) == Ok::<Seq<u8>, CaptureError>(b@),
            Err(e) => frame_jpeg(pixels@, w, h, resolution) == Err::<Seq<u8>, CaptureError>(e),
        },
{
    if w == 0 || h == 0 {
        return Err(CaptureError::EmptyFrame);
    }
    match resolution {
        Some((nw, nh)) => {
            if nw == 0 || nh == 0 {
                return Err(CaptureError::EmptyFrame);
            }
        },
        None => {},
    }
    proof {
        lemma_u32_product(w, h);
    }
    let need: u128 = (w as u128) * (h as u128) * 4;
    if (pixels.len() as u128) < need {
        return Err(CaptureError::BadBuffer);
    }
    let mut frame = pixels;
    frame.truncate(need as usize);
    assert(frame@ =~= pixels@.subrange(0, w * h * 4));
    let (out, ow, oh) = match resolution {
        Some((nw, nh)) => {
            proof {
                lemma_u32_product(nw, nh);
                lemma_u32_product(w, nh);
            }
            let big: u128 = (nw as u128) * (nh as u128) * 4;
            let wide: u128 = (w as u128) * (nh as u128) * 4;
            if big > usize::MAX as u128 || wide > usize::MAX as u128 {
                return Err(CaptureError::TooLarge);
            }
            (resize_rgba(&frame, w, h, nw, nh), nw, nh)
        },
        None => (frame, w, h),
    };
    match encode_jpeg(&out, ow, oh, JPEG_QUALITY) {
        Ok(b) => Ok(b),
        Err(_) => Err(CaptureError::Encode),
    }
}

} // verus!
