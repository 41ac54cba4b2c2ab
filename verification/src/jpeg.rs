//! JPEG frames: how they are told apart, and how RGB pixels become one.

use image::codecs::jpeg::JpegEncoder;
use image::{DynamicImage, ImageBuffer, ImageFormat, Rgb};
use vstd::prelude::*;

verus! {

/// Whether `data` begins like a JPEG file and holds more than its two outer markers.
pub open spec fn is_jpeg(data: Seq<u8>) -> bool {
    data.len() > 4 && data[0] == 0xFF && data[1] == 0xD8
}

/// Whether the bytes of a frame are JPEG.
pub fn looks_like_jpeg(data: &[u8]) -> (yes: bool)
    ensures
        yes == is_jpeg(data@),
{
    data.len() > 4 && data[0] == 0xFF && data[1] == 0xD8
}

/// Whether a JPEG file can have this width or height.
pub open spec fn jpeg_side(n: u32) -> bool {
    1 <= n <= 65535
}

/// The name of what the encoder of image makes of the first `width * height` pixels of `rgb`
/// at `quality`: the file, or the message of its error.
pub uninterp spec fn jpeg_at_quality(
    width: u32,
    height: u32,
    rgb: Seq<u8>,
    quality: u8,
) -> Result<Seq<u8>, Seq<char>>;

/// The name of what `DynamicImage::write_to` of image writes of the pixels in `rgb` for the
/// format JPEG: the file, or the message of its error.
pub uninterp spec fn jpeg_by_default(
    width: u32,
    height: u32,
    rgb: Seq<u8>,
) -> Result<Seq<u8>, Seq<char>>;

/// What an encoder gave back, with its sides replaced by their views.
pub open spec fn encoder_view(r: Result<Vec<u8>, String>) -> Result<Seq<u8>, Seq<char>> {
    match r {
        Ok(file) => Ok(file@),
        Err(message) => Err(message@),
    }
}

/// What an encoder answered, by its view.
pub open spec fn answer_view(answer: Option<Result<Vec<u8>, String>>) -> Option<
    Result<Seq<u8>, Seq<char>>,
> {
    match answer {
        Some(r) => Some(encoder_view(r)),
        None => None,
    }
}

/// `ImageBuffer::from_raw` of image, then `JpegEncoder::encode_image` at `quality`. There is
/// no image where `rgb` has too few bytes for its pixels. The encoder fails on a width or
/// height that JPEG has no room for, and on nothing else; the file it writes begins with the
/// start marker and is longer than its markers. The rest of the file is only named.
#[verifier::external_body]
pub(crate) fn encode_at_quality(width: u32, height: u32, rgb: Vec<u8>, quality: u8) -> (r: Option<
    Result<Vec<u8>, String>,
>)
    ensures
        r is None <==> rgb@.len() < 3 * width * height,
        r matches Some(e) ==> {
            &&& encoder_view(e) == jpeg_at_quality(width, height, rgb@, quality)
            &&& e is Ok <==> jpeg_side(width) && jpeg_side(height)
            &&& e matches Ok(file) ==> is_jpeg(file@)
        },
{
    let image = ImageBuffer::<Rgb<u8>, Vec<u8>>::from_raw(width, height, rgb)?;
    let mut file: Vec<u8> = Vec::new();
    let mut encoder = JpegEncoder::new_with_quality(&mut file, quality);
    let done = encoder.encode_image(&DynamicImage::ImageRgb8(image));
    Some(done.map(|_| file).map_err(|e| e.to_string()))
}

/// `ImageBuffer::from_raw` of image, then `DynamicImage::write_to` for the format JPEG. There
/// is no image where `rgb` has too few bytes for its pixels; `write_to` panics where it has
/// too many, so they are excluded. The encoder fails on a width or height that JPEG has no
/// room for, and on nothing else; the file it writes begins with the start marker and is
/// longer than its markers. The rest of the file is only named.
#[verifier::external_body]
pub(crate) fn encode_by_default(width: u32, height: u32, rgb: Vec<u8>) -> (r: Option<
    Result<Vec<u8>, String>,
>)
    requires
        rgb@.len() <= 3 * width * height,
    ensures
        r is None <==> rgb@.len() < 3 * width * height,
        r matches Some(e) ==> {
            &&& encoder_view(e) == jpeg_by_default(width, height, rgb@)
            &&& e is Ok <==> jpeg_side(width) && jpeg_side(height)
            &&& e matches Ok(file) ==> is_jpeg(file@)
        },
{
    let image = ImageBuffer::<Rgb<u8>, Vec<u8>>::from_raw(width, height, rgb)?;
    let mut file = std::io::Cursor::new(Vec::new());
    let done = DynamicImage::ImageRgb8(image).write_to(&mut file, ImageFormat::Jpeg);
    Some(done.map(|_| file.into_inner()).map_err(|e| e.to_string()))
}

/// A frame is JPEG where it begins with the start marker and more than two bytes follow; no other
/// byte matters.
pub proof fn jpeg_is_told_by_its_start(first: u8, second: u8, rest: Seq<u8>)
    ensures
        is_jpeg(seq![first, second] + rest) <==> first == 255 && second == 216 && rest.len() > 2,
        !is_jpeg(Seq::empty()),
        !is_jpeg(seq![first]),
{
}

/// What an encoder answers is compared by what it holds.
pub proof fn answers_are_seen_by_what_they_hold(file: Vec<u8>, message: String)
    ensures
        answer_view(Some(Ok(file))) == Some(Ok::<Seq<u8>, Seq<char>>(file@)),
        answer_view(Some(Err(message))) == Some(Err::<Seq<u8>, Seq<char>>(message@)),
        answer_view(None) is None,
{
}

}
