//! What can go wrong when image data is built.

use vstd::prelude::*;

verus! {

/// The error of the `image` crate, carried through unopened.
#[verifier::external_type_specification]
#[verifier::external_body]
pub struct ExImageError(image::ImageError);

/// Why image data could not be built.
#[derive(Debug)]
pub enum ImageDataError {
    /// Fewer bytes were supplied than the dimensions and the format need.
    NotEnoughData { expected: usize, actual: usize },
    /// The bytes are not an image in any of the encodings that are read.
    InvalidTexture(image::ImageError),
    /// The image was read, but its dimensions are beyond what image data
    /// can address.
    UnsupportedSize { width: u32, height: u32 },
}

} // verus!
