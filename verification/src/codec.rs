//! What the library takes on trust from the `base64` and `image` crates.
//!
//! Nothing in this file is proved. Each item names the outside function that
//! it stands for and says what is claimed of it.

use crate::grid::Rgb;
use vstd::prelude::*;

verus! {

/// The error of `base64`'s decoder, carried through unread.
#[verifier::external_type_specification]
#[verifier::external_body]
pub struct ExDecodeError(base64::DecodeError);

/// The error of `image`'s decoders, carried through unread.
#[verifier::external_type_specification]
#[verifier::external_body]
pub struct ExImageError(image::ImageError);

/// A decoded image of the `image` crate. Its pixels are read through
/// `image_size`, `pixel_at` and `luma_plane` only.
#[verifier::external_type_specification]
#[verifier::external_body]
pub struct ExDynamicImage(image::DynamicImage);

/// What `base64`'s standard engine (standard alphabet, canonical padding
/// required) decodes `text` to, or `None` where it rejects `text`.
pub uninterp spec fn base64_decoding(text: Seq<u8>) -> Option<Seq<u8>>;

/// The width and the height that `GenericImageView::dimensions` reports of
/// `img`.
pub uninterp spec fn image_dimensions(img: image::DynamicImage) -> (u32, u32);

/// The red, green and blue channels of what `GenericImageView::get_pixel`
/// returns for column `x` of row `y` of `img`.
pub uninterp spec fn image_pixel(img: image::DynamicImage, x: int, y: int) -> (u8, u8, u8);

/// The raw buffer of the 8-bit gray image that `DynamicImage::to_luma8` makes
/// of `img`, one byte for each pixel in row-major order.
pub uninterp spec fn image_luma(img: image::DynamicImage) -> Seq<u8>;

/// Calls `Engine::decode` of `base64::engine::general_purpose::STANDARD`.
/// The outcome is a function of the text alone: the decoded bytes, or an
/// error where the text is not canonical padded base64.
#[verifier::external_body]
pub(crate) fn decode_base64(text: &[u8]) -> (decoded: Result<Vec<u8>, base64::DecodeError>)
    ensures
        match decoded {
            Ok(bytes) => base64_decoding(text@) == Some(bytes@),
            Err(_) => base64_decoding(text@) is None,
        },
{
    base64::Engine::decode(&base64::engine::general_purpose::STANDARD, text)
}

/// The text that `base64::DecodeError` displays as. Nothing is claimed of it.
#[verifier::external_body]
pub(crate) fn base64_error_text(error: &base64::DecodeError) -> (text: String) {
    format!("{}", error)
}

/// Calls `image::load_from_memory`, which guesses the format from the first
/// bytes and decodes. Nothing is claimed of the outcome: it also depends on
/// the decoders that the process has registered with the `image` crate.
#[verifier::external_body]
pub(crate) fn load_image(bytes: &[u8]) -> (loaded: Result<image::DynamicImage, image::ImageError>) {
    image::load_from_memory(bytes)
}

/// The text that `image::ImageError` displays as. Nothing is claimed of it.
#[verifier::external_body]
pub(crate) fn image_error_text(error: &image::ImageError) -> (text: String) {
    format!("{}", error)
}

/// Calls `GenericImageView::dimensions`, which reads the width and the height
/// that the image buffer was made with.
#[verifier::external_body]
pub(crate) fn image_size(img: &image::DynamicImage) -> (size: (u32, u32))
    ensures
        size == image_dimensions(*img),
{
    image::GenericImageView::dimensions(img)
}

/// Calls `GenericImageView::get_pixel` and keeps the first three of its four
/// channels. The call panics outside the image, so the pixel must lie inside.
#[verifier::external_body]
pub(crate) fn pixel_at(img: &image::DynamicImage, x: u32, y: u32) -> (color: Rgb)
    requires
        x < image_dimensions(*img).0,
        y < image_dimensions(*img).1,
    ensures
        (color.r, color.g, color.b) == image_pixel(*img, x as int, y as int),
{
    let pixel = image::GenericImageView::get_pixel(img, x, y);
    Rgb { r: pixel.0[0], g: pixel.0[1], b: pixel.0[2] }
}

/// Calls `DynamicImage::to_luma8` and takes the raw buffer of the gray image
/// with `ImageBuffer::into_raw`. The buffer is a function of the image alone.
/// An image buffer holds at least one sample for each pixel of its
/// dimensions, which are those of `img`; an 8-bit gray image that was made
/// from a longer buffer keeps the surplus.
#[verifier::external_body]
pub(crate) fn luma_plane(img: &image::DynamicImage) -> (plane: Vec<u8>)
    ensures
        plane@ == image_luma(*img),
        plane@.len() >= image_dimensions(*img).0 * image_dimensions(*img).1,
{
    img.to_luma8().into_raw()
}

} // verus!
