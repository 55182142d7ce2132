//! Lossless encoding of the output image as an 8-bit grayscale PNG stream.

use vstd::prelude::*;
use crate::resample::OutputImage;
use image::codecs::png::PngEncoder;
use image::{ExtendedColorType, ImageEncoder};

verus! {

/// The error type of the `image` crate, carried through as it is.
#[verifier::external_type_specification]
#[verifier::external_body]
pub struct ExImageError(image::ImageError);

/// Why an image could not be encoded.
#[derive(Debug)]
pub enum EncodeError {
    /// The error type of the encoder's call. The encoder reports an error
    /// only for an image with a zero side, for a pixel sequence of the wrong
    /// length and for a failing writer; an `OutputImage` written to memory is
    /// none of these, and the contract of `encode_png` says that this variant
    /// does not come back.
    Encoder(image::ImageError),
}

/// The byte stream that the `image` crate's PNG encoder, with its default
/// compression and filter, writes for an 8-bit grayscale image of `width` by
/// `height` pixels; `None` where the encoder reports an error.
pub uninterp spec fn png_stream(pixels: Seq<u8>, width: u32, height: u32) -> Option<Seq<u8>>;

/// Runs `image::codecs::png::PngEncoder::write_image` with the colour type
/// `L8` into a byte vector. The encoder computes its output from the pixels
/// and the size alone, and the contract gives that output its name. Writing
/// to a vector does not fail and the pixel count is required to match, so the
/// encoder succeeds exactly where neither side is zero.
#[verifier::external_body]
fn write_grayscale(pixels: &[u8], width: u32, height: u32) -> (r: Result<
    Vec<u8>,
    image::ImageError,
>)
    requires
        pixels@.len() == width * height,
    ensures
        (width >= 1 && height >= 1) == (r is Ok),
        match r {
            Ok(stream) => png_stream(pixels@, width, height) == Some(stream@),
            Err(_) => png_stream(pixels@, width, height) is None,
        },
{
    let mut stream: Vec<u8> = Vec::new();
    match PngEncoder::new(&mut stream).write_image(pixels, width, height, ExtendedColorType::L8) {
        Ok(()) => Ok(stream),
        Err(e) => Err(e),
    }
}

/// Encodes the image as a single-channel 8-bit PNG and returns the bytes of
/// the file: the encoder's stream for the image's pixels and size. Encoding
/// an `OutputImage` always succeeds.
pub fn encode_png(image: &OutputImage) -> (r: Result<Vec<u8>, EncodeError>)
    ensures
        r is Ok,
        r matches Ok(stream) ==> png_stream(
            image@.cells,
            image@.width as u32,
            image@.height as u32,
        ) == Some(stream@),
{
    match write_grayscale(image.pixels(), image.width(), image.height()) {
        Ok(stream) => Ok(stream),
        Err(e) => Err(EncodeError::Encoder(e)),
    }
}

} // verus!
