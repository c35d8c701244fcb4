//! Encoding of RGBA pixel buffers as PNG or JPEG bytes, through the `image`
//! crate, and the checks that come before it.

use vstd::prelude::*;
use crate::text::{chars_of, push_chars, string_of};

verus! {

#[verifier::external_type_specification]
#[verifier::external_body]
pub struct ExImageError(image::ImageError);

/// The PNG file that the `image` crate writes for an RGBA buffer.
pub uninterp spec fn png_encoding(width: u32, height: u32, rgba: Seq<u8>) -> Seq<u8>;

/// The JPEG file that the `image` crate writes for an RGBA buffer at a quality.
pub uninterp spec fn jpeg_encoding(width: u32, height: u32, rgba: Seq<u8>, quality: u8) -> Seq<u8>;

/// What decoding PNG bytes with the `image` crate gives, as width, height and
/// RGBA pixels, or `None` where the decoder refuses the bytes.
pub uninterp spec fn png_decoding(bytes: Seq<u8>) -> Option<(u32, u32, Seq<u8>)>;

/// The byte count of `width × height` RGBA pixels.
pub open spec fn rgba_len(width: u32, height: u32) -> int {
    4 * (width as int * height as int)
}

/// `ImageBuffer::from_raw` accepts the buffer: `4 × width` and the whole
/// byte count fit in `usize` (its checked multiplications do not overflow)
/// and the buffer holds at least that many bytes.
pub open spec fn rgba_fits(width: u32, height: u32, len: nat) -> bool {
    &&& 4 * (width as int) <= usize::MAX
    &&& rgba_len(width, height) <= usize::MAX
    &&& rgba_len(width, height) <= len
}

/// The buffer holds exactly `width × height` RGBA pixels, as the PNG encoder
/// asserts of the bytes it is handed.
pub open spec fn rgba_exact(width: u32, height: u32, len: nat) -> bool {
    rgba_fits(width, height, len) && rgba_len(width, height) == len
}

/// `ImageBuffer::from_raw` followed by `DynamicImage::write_to` with
/// `ImageFormat::Png` into memory. Under the `requires`, `from_raw` accepts
/// the buffer (its source checks exactly `rgba_fits`) and the encoder's
/// length assertion holds (`rgba_exact`). The `png` encoder refuses only a
/// zero width or height, and writing into a `Vec` does not fail, so with
/// both edges at least 1 the call succeeds; its bytes are named
/// `png_encoding` of the arguments.
#[verifier::external_body]
fn encode_png_with_image(width: u32, height: u32, rgba: Vec<u8>) -> (r: Result<Vec<u8>, image::ImageError>)
    requires
        rgba_exact(width, height, rgba@.len()),
    ensures
        (width >= 1 && height >= 1) <==> r is Ok,
        r matches Ok(bytes) ==> bytes@ == png_encoding(width, height, rgba@),
{
    let buffer: image::RgbaImage = image::ImageBuffer::from_raw(width, height, rgba).unwrap();
    let mut cursor = std::io::Cursor::new(Vec::new());
    image::DynamicImage::ImageRgba8(buffer).write_to(&mut cursor, image::ImageFormat::Png).map(|_| cursor.into_inner())
}

/// `ImageBuffer::from_raw` followed by `JpegEncoder::new_with_quality` and
/// `encode_image` into memory. Under the `requires`, `from_raw` accepts the
/// buffer; `encode_image` refuses exactly an edge of 0 or above 65535, and
/// writing into a `Vec` does not fail; when it succeeds its bytes are named
/// `jpeg_encoding` of the arguments.
#[verifier::external_body]
fn encode_jpeg_with_image(width: u32, height: u32, rgba: Vec<u8>, quality: u8) -> (r: Result<Vec<u8>, image::ImageError>)
    requires
        rgba_fits(width, height, rgba@.len()),
    ensures
        (1 <= width <= 65535 && 1 <= height <= 65535) <==> r is Ok,
        r matches Ok(bytes) ==> bytes@ == jpeg_encoding(width, height, rgba@, quality),
{
    let buffer: image::RgbaImage = image::ImageBuffer::from_raw(width, height, rgba).unwrap();
    let mut out: Vec<u8> = Vec::new();
    image::codecs::jpeg::JpegEncoder::new_with_quality(&mut out, quality).encode_image(&buffer).map(|_| out)
}

/// `image::load_from_memory_with_format` with `ImageFormat::Png`, then
/// `DynamicImage::to_rgba8`. Whether the bytes decode, and to what, is named
/// `png_decoding` of the bytes. The decoder's source allocates exactly
/// `width × height × bytes per pixel` and the RGBA conversion keeps one
/// four-byte pixel per pixel, so the pixels are exactly `rgba_len` long.
#[verifier::external_body]
fn decode_png_with_image(bytes: &[u8]) -> (r: Result<(u32, u32, Vec<u8>), image::ImageError>)
    ensures
        r is Ok <==> png_decoding(bytes@) is Some,
        r matches Ok((w, h, d)) ==> png_decoding(bytes@) == Some((w, h, d@)),
        r matches Ok((w, h, d)) ==> d@.len() == rgba_len(w, h),
{
    match image::load_from_memory_with_format(bytes, image::ImageFormat::Png) {
        Ok(image) => {
            let rgba = image.to_rgba8();
            Ok((rgba.width(), rgba.height(), rgba.into_raw()))
        },
        Err(error) => Err(error),
    }
}

/// The text of an `image` error (its `Display`).
#[verifier::external_body]
fn image_error_text(error: &image::ImageError) -> String {
    format!("{error}")
}

fn fits(width: u32, height: u32, len: usize) -> (r: bool)
    ensures
        r == rgba_fits(width, height, len as nat),
{
    let w = width as u128;
    let h = height as u128;
    proof {
        assert(w * h <= 0xffff_ffff_ffff_ffff_ffff_ffff) by (nonlinear_arith)
            requires
                w <= 0xffff_ffff,
                h <= 0xffff_ffff,
        ;
    }
    let need = 4 * (w * h);
    4 * w <= usize::MAX as u128 && need <= usize::MAX as u128 && need <= len as u128
}

fn prefixed(prefix: &str, detail: String) -> (r: String)
    ensures
        r@ == prefix@ + detail@,
{
    let mut v = chars_of(prefix);
    push_chars(&mut v, detail.as_str());
    string_of(v)
}

/// Decodes PNG bytes to RGBA pixels (see `png_decoding`); a refusal is
/// reported as `prefix` followed by the decoder's error.
pub fn png_rgba_from_bytes(bytes: &[u8], prefix: &str) -> (r: Result<(u32, u32, Vec<u8>), String>)
    ensures
        png_decoding(bytes@) is None ==> (r matches Err(e) && e@.len() >= prefix@.len()
            && e@.take(prefix@.len() as int) == prefix@),
        png_decoding(bytes@) matches Some((w, h, d)) ==> (r matches Ok((rw, rh, rd)) && rw == w && rh == h && rd@ == d),
        r matches Ok((w, h, d)) ==> d@.len() == rgba_len(w, h),
{
    match decode_png_with_image(bytes) {
        Ok(decoded) => Ok(decoded),
        Err(error) => {
            let e = prefixed(prefix, image_error_text(&error));
            assert(e@.take(prefix@.len() as int) =~= prefix@);
            Err(e)
        },
    }
}

/// The error given when a pixel buffer does not fit its dimensions.
pub open spec fn buffer_error() -> Seq<char> {
    "无法从 SVG 渲染结果构建图像缓冲"@
}

/// Encodes an RGBA buffer as PNG; the buffer must hold exactly
/// `width × height` pixels, else the buffer error is returned. An image
/// with a zero edge is refused by the encoder, with the prefix
/// `编码 PNG 失败: `; every other image is encoded.
pub fn png_bytes_from_rgba(width: u32, height: u32, rgba: Vec<u8>) -> (r: Result<Vec<u8>, String>)
    ensures
        !rgba_exact(width, height, rgba@.len()) ==> (r matches Err(e) && e@ == buffer_error()),
        rgba_exact(width, height, rgba@.len()) && width >= 1 && height >= 1 ==>
            (r matches Ok(bytes) && bytes@ == png_encoding(width, height, rgba@)),
        rgba_exact(width, height, rgba@.len()) && (width == 0 || height == 0) ==>
            (r matches Err(e) && e@.take(11) == "编码 PNG 失败: "@ && e@.len() >= 11),
{
    if !fits(width, height, rgba.len()) || rgba.len() as u128 != 4 * (width as u128 * height as u128) {
        return Err(String::from_str("无法从 SVG 渲染结果构建图像缓冲"));
    }
    match encode_png_with_image(width, height, rgba) {
        Ok(bytes) => Ok(bytes),
        Err(error) => {
            let e = prefixed("编码 PNG 失败: ", image_error_text(&error));
            proof {
                reveal_strlit("编码 PNG 失败: ");
                assert(e@.take(11) =~= "编码 PNG 失败: "@);
            }
            Err(e)
        },
    }
}

/// The JPEG quality actually used: the requested one clamped to 1..=100.
pub open spec fn jpeg_quality(q: u8) -> u8 {
    if q < 1 {
        1
    } else if q > 100 {
        100
    } else {
        q
    }
}

/// Encodes an RGBA buffer as JPEG at the requested quality clamped to
/// 1..=100. A buffer too short for its dimensions gives the buffer error;
/// an edge of 0 or above 65535 is refused by the encoder, with the prefix
/// `写入 JPG 失败: `; every other image is encoded.
pub fn jpeg_bytes_from_rgba(width: u32, height: u32, rgba: Vec<u8>, quality: u8) -> (r: Result<Vec<u8>, String>)
    ensures
        !rgba_fits(width, height, rgba@.len()) ==> (r matches Err(e) && e@ == buffer_error()),
        rgba_fits(width, height, rgba@.len()) && 1 <= width <= 65535 && 1 <= height <= 65535 ==>
            (r matches Ok(bytes) && bytes@ == jpeg_encoding(width, height, rgba@, jpeg_quality(quality))),
        rgba_fits(width, height, rgba@.len()) && !(1 <= width <= 65535 && 1 <= height <= 65535) ==>
            (r matches Err(e) && e@.take(11) == "写入 JPG 失败: "@ && e@.len() >= 11),
{
    if !fits(width, height, rgba.len()) {
        return Err(String::from_str("无法从 SVG 渲染结果构建图像缓冲"));
    }
    let q: u8 = if quality < 1 {
        1
    } else if quality > 100 {
        100
    } else {
        quality
    };
    match encode_jpeg_with_image(width, height, rgba, q) {
        Ok(bytes) => Ok(bytes),
        Err(error) => {
            let e = prefixed("写入 JPG 失败: ", image_error_text(&error));
            proof {
                reveal_strlit("写入 JPG 失败: ");
                assert(e@.take(11) =~= "写入 JPG 失败: "@);
            }
            Err(e)
        },
    }
}

} // verus!
