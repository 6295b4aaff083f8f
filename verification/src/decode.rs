//! Image data from encoded images (PNG, JPEG, GIF, BMP).

use vstd::prelude::*;
use crate::arith::lemma_product_bounds;
use crate::error::ImageDataError;
use crate::format::TextureFormat;
use crate::image_data::ImageData;
use crate::model::ImageModel;

verus! {

/// Decodes with `image::load_from_memory` and converts what it gives with
/// `DynamicImage::into_rgba8`; width, height and buffer are those of the
/// resulting `ImageBuffer`.
///
/// What comes back depends on more than `data`: the `image` crate asks the
/// decoders and format detectors that were registered with it in this
/// process before its own. So the contract says nothing of which pixels or
/// which error come back. It claims only what holds of every `ImageBuffer`
/// of RGBA bytes, which can be built only over a buffer that is long enough
/// for its dimensions: four bytes for each of `width * height` pixels are
/// there.
#[verifier::external_body]
fn decode_rgba8(data: &[u8]) -> (result: Result<(u32, u32, Vec<u8>), image::ImageError>)
    ensures
        result matches Ok((width, height, pixels)) ==> width * height * 4 <= pixels@.len(),
{
    let decoded = image::load_from_memory(data)?.into_rgba8();
    let (width, height) = (decoded.width(), decoded.height());
    Ok((width, height, decoded.into_raw()))
}

impl ImageData {
    /// Whether `result` is what a decoded image of the given dimensions and
    /// RGBA pixels becomes.
    ///
    /// Dimensions that cannot be reported as an `i32`, or whose byte count
    /// does not fit a `usize`, are unsupported. Otherwise the pixels are
    /// taken as raw `Rgba8` data: too few are an error, and any beyond what
    /// the dimensions need are cut off.
    pub open spec fn is_decoded(
        result: Result<ImageData, ImageDataError>,
        width: u32,
        height: u32,
        pixels: Seq<u8>,
    ) -> bool {
        let expected = Self::expected_len(width as int, height as int, TextureFormat::Rgba8);
        if width > i32::MAX || height > i32::MAX || expected > usize::MAX {
            result matches Err(error) && error == (ImageDataError::UnsupportedSize {
                width,
                height,
            })
        } else if pixels.len() < expected {
            result matches Err(error) && error == (ImageDataError::NotEnoughData {
                expected: expected as usize,
                actual: pixels.len() as usize,
            })
        } else {
            result matches Ok(image) && image@.wf() && image@ == (ImageModel {
                width: width as nat,
                height: height as nat,
                format: TextureFormat::Rgba8,
                bytes: pixels.take(expected),
            })
        }
    }

    /// Creates `Rgba8` image data from the dimensions and the RGBA pixels of
    /// a decoded image.
    pub fn from_decoded(width: u32, height: u32, pixels: Vec<u8>) -> (result: Result<
        ImageData,
        ImageDataError,
    >)
        ensures
            Self::is_decoded(result, width, height, pixels@),
    {
        if width > 0x7fff_ffff || height > 0x7fff_ffff {
            return Err(ImageDataError::UnsupportedSize { width, height });
        }
        let pixel_count = match (width as usize).checked_mul(height as usize) {
            Some(count) => count,
            None => {
                proof {
                    lemma_product_bounds(width as int, height as int, 4);
                }
                return Err(ImageDataError::UnsupportedSize { width, height });
            },
        };
        if pixel_count.checked_mul(4).is_none() {
            return Err(ImageDataError::UnsupportedSize { width, height });
        }
        ImageData::from_data(width as i32, height as i32, TextureFormat::Rgba8, pixels)
    }

    /// Decodes image data that is encoded as PNG, JPEG, GIF or BMP.
    ///
    /// The encoding is determined from the 'magic bytes' at the beginning of
    /// the data. The result is always `Rgba8`, whatever the encoded image's
    /// own layout is.
    ///
    /// Which pixels the data decodes to is the decoder's matter. Whatever it
    /// gives: data that it rejects is an `InvalidTexture`, and an image that
    /// it hands over becomes what `from_decoded` makes of it, its pixels
    /// being enough for its dimensions.
    pub fn from_encoded(data: &[u8]) -> (result: Result<ImageData, ImageDataError>)
        ensures
            result matches Ok(image) ==> image@.wf() && image@.format == TextureFormat::Rgba8,
            (result matches Err(ImageDataError::InvalidTexture(_))) || exists|
                width: u32,
                height: u32,
                pixels: Seq<u8>,
            |
                width * height * 4 <= pixels.len() && Self::is_decoded(
                    result,
                    width,
                    height,
                    pixels,
                ),
            !(result matches Err(ImageDataError::NotEnoughData { .. })),
    {
        match decode_rgba8(data) {
            Ok((width, height, pixels)) => {
                let ghost decoded = pixels@;
                let image = ImageData::from_decoded(width, height, pixels);
                assert(Self::is_decoded(image, width, height, decoded));
                image
            },
            Err(error) => Err(ImageDataError::InvalidTexture(error)),
        }
    }
}

} // verus!
