//! The way from a base64 string to a quality verdict. The data-URI prefix is
//! stripped, the base64 text decoded, the image decoded and its pixels analyzed.

use crate::brightness::brightness;
use crate::codec::{
    base64_decoding,
    base64_error_text,
    decode_base64,
    image_dimensions,
    image_error_text,
    image_luma,
    image_pixel,
    image_size,
    load_image,
    luma_plane,
    pixel_at,
};
use crate::data_uri::{data_uri_payload, payload};
use crate::grid::{lemma_index_in_range, GridView, PixelGrid, Rgb};
use crate::quality::{analyze_image_quality, ImageQualityResult};
use crate::sharpness::blur_score;
use vstd::arithmetic::div_mod::lemma_fundamental_div_mod_converse;
use vstd::prelude::*;
use vstd::string::{StringExecFns, StringSliceAdditionalSpecFns};

verus! {

/// Why no verdict was reached. Each kind carries the diagnostic of the stage
/// that failed.
#[derive(Debug)]
pub enum ValidationError {
    /// The text is not valid base64.
    Base64Decode(String),
    /// The decoded bytes are not an image in a supported format.
    ImageDecode(String),
    /// A verdict could not be brought into its transport format.
    Serialization(String),
}

impl ValidationError {
    /// The error as one line of text that names the failing stage.
    pub open spec fn spec_message(&self) -> Seq<char> {
        match self {
            ValidationError::Base64Decode(detail) => "Base64 decode error: "@ + detail@,
            ValidationError::ImageDecode(detail) => "Image load error: "@ + detail@,
            ValidationError::Serialization(detail) => detail@,
        }
    }

    /// The error as one line of text that names the failing stage.
    pub fn message(&self) -> (text: String)
        ensures
            text@ == self.spec_message(),
    {
        match self {
            ValidationError::Base64Decode(detail) => {
                let lead = String::from_str("Base64 decode error: ");
                lead.concat(detail.as_str())
            },
            ValidationError::ImageDecode(detail) => {
                let lead = String::from_str("Image load error: ");
                lead.concat(detail.as_str())
            },
            ValidationError::Serialization(detail) => detail.clone(),
        }
    }
}

/// The color of the pixel in column `x` of row `y` of a decoded image.
pub open spec fn color_of(img: image::DynamicImage, x: int, y: int) -> Rgb {
    let (r, g, b) = image_pixel(img, x, y);
    Rgb { r, g, b }
}

/// The grid that the analyzers read from a decoded image: its dimensions, the
/// color of each pixel as the image reports it, and the gray level of each
/// pixel as the image's own conversion to 8-bit gray gives it.
pub open spec fn grid_of(img: image::DynamicImage) -> GridView {
    let (width, height) = image_dimensions(img);
    GridView {
        width: width as nat,
        height: height as nat,
        colors: Seq::new(
            (width * height) as nat,
            |i: int| color_of(img, i % (width as int), i / (width as int)),
        ),
        gray: image_luma(img).take(width * height),
    }
}

/// The place of a pixel in the row-major color plane.
proof fn lemma_pixel_place(x: int, y: int, width: int, height: int)
    requires
        0 <= x < width,
        0 <= y < height,
    ensures
        0 <= y * width + x < width * height,
        (y * width + x) % width == x,
        (y * width + x) / width == y,
        (y + 1) * width == y * width + width,
{
    lemma_index_in_range(x, y, width, height);
    lemma_fundamental_div_mod_converse(y * width + x, width, y, x);
    assert((y + 1) * width == y * width + width) by (nonlinear_arith);
}

impl PixelGrid {
    /// Reads the pixels of a decoded image into a grid.
    pub fn from_image(img: &image::DynamicImage) -> (grid: PixelGrid)
        ensures
            grid@ == grid_of(*img),
            grid@.wf(),
    {
        let (width, height) = image_size(img);
        let mut gray = luma_plane(img);
        assert(width * height <= gray.len());
        let count: usize = (width as usize) * (height as usize);
        gray.truncate(count);
        let mut colors: Vec<Rgb> = Vec::new();
        let mut y: u32 = 0;
        while y < height
            invariant
                (width, height) == image_dimensions(*img),
                count == width * height,
                0 <= y <= height,
                colors@.len() == y * width,
                forall|k: int|
                    0 <= k < colors@.len() ==> #[trigger] colors@[k] == color_of(
                        *img,
                        k % (width as int),
                        k / (width as int),
                    ),
            decreases height - y,
        {
            let mut x: u32 = 0;
            while x < width
                invariant
                    (width, height) == image_dimensions(*img),
                    count == width * height,
                    0 <= y < height,
                    0 <= x <= width,
                    colors@.len() == y * width + x,
                    forall|k: int|
                        0 <= k < colors@.len() ==> #[trigger] colors@[k] == color_of(
                            *img,
                            k % (width as int),
                            k / (width as int),
                        ),
                decreases width - x,
            {
                proof {
                    lemma_pixel_place(x as int, y as int, width as int, height as int);
                }
                let color = pixel_at(img, x, y);
                colors.push(color);
                x = x + 1;
            }
            proof {
                assert((y + 1) * width == y * width + width) by (nonlinear_arith);
            }
            y = y + 1;
        }
        proof {
            assert(colors@.len() == width * height) by (nonlinear_arith)
                requires
                    colors@.len() == y * width,
                    y == height,
            ;
            assert(colors@ =~= grid_of(*img).colors);
            assert(gray@ =~= grid_of(*img).gray);
        }
        let made = PixelGrid::new(width, height, colors, gray);
        made.unwrap()
    }
}

/// `result` is what the outcome `decoded` of the image decoder leads to: for
/// an image the verdict on its pixels, for an error an image decode error.
pub open spec fn assessment_of(
    decoded: Result<image::DynamicImage, image::ImageError>,
    result: Result<ImageQualityResult, ValidationError>,
) -> bool {
    match decoded {
        Ok(img) => {
            &&& result matches Ok(verdict)
            &&& verdict.consistent()
            &&& verdict.blur_score@ == blur_score(grid_of(img))
            &&& verdict.brightness@ == brightness(grid_of(img))
            &&& 0 <= verdict.blur_score@.num
            &&& 0 <= verdict.brightness@.num <= verdict.brightness@.den
        },
        Err(_) => result matches Err(ValidationError::ImageDecode(_)),
    }
}

/// The verdict on what the image decoder returned: the verdict on the pixels
/// of the image, or the decoder's error as an image decode error.
pub fn assess_decoded(decoded: Result<image::DynamicImage, image::ImageError>) -> (result: Result<
    ImageQualityResult,
    ValidationError,
>)
    ensures
        assessment_of(decoded, result),
{
    match decoded {
        Ok(img) => {
            let grid = PixelGrid::from_image(&img);
            Ok(analyze_image_quality(&grid))
        },
        Err(error) => Err(ValidationError::ImageDecode(image_error_text(&error))),
    }
}

/// The bytes that the base64 text of `base64_data` stands for. The text is
/// what follows the first `base64,` in the string, or the whole string where
/// that marker does not occur.
pub fn decode_payload(base64_data: &str) -> (result: Result<Vec<u8>, ValidationError>)
    ensures
        match base64_decoding(payload(base64_data.spec_bytes())) {
            Some(bytes) => result matches Ok(decoded) && decoded@ == bytes,
            None => result matches Err(ValidationError::Base64Decode(_)),
        },
{
    let text = data_uri_payload(base64_data.as_bytes());
    match decode_base64(text) {
        Ok(bytes) => Ok(bytes),
        Err(error) => Err(ValidationError::Base64Decode(base64_error_text(&error))),
    }
}

/// The quality of an image given as base64 text, with or without a
/// data-URI prefix.
///
/// The result is a base64 decode error exactly where the text is not valid
/// base64. Otherwise the decoded bytes go to the image decoder, and the result
/// is what `assess_decoded` makes of its outcome: an image decode error where
/// it fails, the verdict on the pixels of its image where it succeeds.
pub fn validate_image_quality(base64_data: &str) -> (result: Result<
    ImageQualityResult,
    ValidationError,
>)
    ensures
        base64_decoding(payload(base64_data.spec_bytes())) is None <==> result matches Err(
            ValidationError::Base64Decode(_),
        ),
        base64_decoding(payload(base64_data.spec_bytes())) is Some ==> exists|
            decoded: Result<image::DynamicImage, image::ImageError>,
        | #[trigger] assessment_of(decoded, result),
        !(result matches Err(ValidationError::Serialization(_))),
        result matches Ok(verdict) ==> {
            &&& verdict.consistent()
            &&& 0 <= verdict.blur_score@.num
            &&& 0 <= verdict.brightness@.num <= verdict.brightness@.den
        },
{
    match decode_payload(base64_data) {
        Err(error) => Err(error),
        Ok(image_data) => {
            let decoded = load_image(image_data.as_slice());
            let ghost outcome = decoded;
            let result = assess_decoded(decoded);
            assert(assessment_of(outcome, result));
            result
        },
    }
}

} // verus!
