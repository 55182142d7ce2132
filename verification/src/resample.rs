//! Reduction of the supersampled canvas to the output resolution.

use vstd::prelude::*;
use crate::canvas::Canvas;
use crate::config::{max_cells, ConfigError};
use crate::raster::SuperBuffer;
use fast_image_resize::images::Image;
use fast_image_resize::{FilterType, PixelType, ResizeAlg, ResizeOptions, Resizer};

verus! {

/// The error type of `fast_image_resize`'s resizer, carried through as it is.
#[verifier::external_type_specification]
#[verifier::external_body]
pub struct ExResizeError(fast_image_resize::ResizeError);

/// Why a canvas could not be resampled.
#[derive(Debug)]
pub enum ResampleError {
    /// The target size is unusable: a side is zero, or the resampler's
    /// buffers would be larger than a single allocation may be.
    Config(ConfigError),
    /// The error type of the resampler's call. The resampler reports an error
    /// only for images of differing or unknown pixel types and for a crop box
    /// outside the source; `resize_image` hands it neither, and its contract
    /// says that this variant does not come back.
    Resizer(fast_image_resize::ResizeError),
}

/// The image at output resolution: one 8-bit intensity per pixel.
#[derive(Debug)]
pub struct OutputImage {
    width: u32,
    height: u32,
    pixels: Vec<u8>,
}

impl View for OutputImage {
    type V = Canvas;

    closed spec fn view(&self) -> Canvas {
        Canvas { width: self.width as nat, height: self.height as nat, cells: self.pixels@ }
    }
}

/// Whether every buffer that resampling from `source_width` by
/// `source_height` to `width` by `height` allocates stays within the size of
/// a single allocation: the target image, the intermediate image between the
/// vertical and the horizontal pass, and the two tables of 8-byte filter
/// weights (at most six per source column or row plus seven per target column
/// or row).
pub open spec fn resample_fits(source_width: nat, source_height: nat, width: nat, height: nat) -> bool {
    &&& width * height <= max_cells()
    &&& source_width * height < max_cells()
    &&& 8 * (6 * source_width + 7 * width) <= max_cells()
    &&& 8 * (6 * source_height + 7 * height) <= max_cells()
}

/// Why resampling `source` to `width` by `height` is refused before it
/// starts, if it is: a target side is zero, or the sizes do not pass
/// `resample_fits`.
pub open spec fn resample_refusal(source: Canvas, width: u32, height: u32) -> Option<ConfigError> {
    if width == 0 || height == 0 {
        Some(ConfigError::ZeroDimension)
    } else if !resample_fits(source.width, source.height, width as nat, height as nat) {
        Some(ConfigError::TooLarge)
    } else {
        None
    }
}

/// What holds of every image that resampling `source` to `width` by `height`
/// gives: it has exactly the size asked for, and it is the source itself
/// where that is the source's size.
pub open spec fn resampled(source: Canvas, width: u32, height: u32, image: Canvas) -> bool {
    &&& image.sized()
    &&& image.width == width
    &&& image.height == height
    &&& (source.width == width && source.height == height ==> image == source)
}

/// Runs `fast_image_resize::Resizer::resize` with the Lanczos3 convolution on
/// a single-channel 8-bit image of `source_width` by `source_height` pixels
/// and returns the pixels of the `width` by `height` target.
///
/// The resizer returns an error only where the two images differ in pixel
/// type, where a pixel type is unknown, or where a crop box lies outside the
/// source. Both images here are single-channel 8-bit and no crop is set, so
/// the contract claims success. The filter weights come out of floating-point
/// arithmetic, so of the pixels it fixes only what holds of every outcome: the
/// target has one byte per pixel, and where the two sizes are equal the
/// resizer copies the source unchanged.
#[verifier::external_body]
fn lanczos3_resize(
    source: &[u8],
    source_width: u32,
    source_height: u32,
    width: u32,
    height: u32,
) -> (r: Result<Vec<u8>, fast_image_resize::ResizeError>)
    requires
        source@.len() == source_width * source_height,
        resample_fits(source_width as nat, source_height as nat, width as nat, height as nat),
    ensures
        r is Ok,
        r matches Ok(pixels) ==> {
            &&& pixels@.len() == width * height
            &&& (width == source_width && height == source_height ==> pixels@ == source@)
        },
{
    let mut source_image = Image::new(source_width, source_height, PixelType::U8);
    source_image.buffer_mut().copy_from_slice(source);
    let mut target = Image::new(width, height, PixelType::U8);
    let options = ResizeOptions::new().resize_alg(ResizeAlg::Convolution(FilterType::Lanczos3));
    match Resizer::new().resize(&source_image, &mut target, &options) {
        Ok(()) => Ok(target.into_vec()),
        Err(e) => Err(e),
    }
}

impl OutputImage {
    /// Every image holds one pixel for each cell of a grid with at least one
    /// row and one column.
    #[verifier::type_invariant]
    closed spec fn inv(&self) -> bool {
        self@.sized()
    }

    /// The image of `width` by `height` pixels whose rows, one after the
    /// other, are `pixels`. Fails with `ZeroDimension` if a side is zero and
    /// with `SizeMismatch` if `pixels` does not hold `width * height` values.
    pub fn from_pixels(width: u32, height: u32, pixels: Vec<u8>) -> (r: Result<
        OutputImage,
        ConfigError,
    >)
        ensures
            match r {
                Ok(image) => {
                    &&& image@.sized()
                    &&& image@ == (Canvas {
                        width: width as nat,
                        height: height as nat,
                        cells: pixels@,
                    })
                },
                Err(e) => if width == 0 || height == 0 {
                    e == ConfigError::ZeroDimension
                } else {
                    e == ConfigError::SizeMismatch && pixels@.len() != width * height
                },
            },
    {
        if width == 0 || height == 0 {
            return Err(ConfigError::ZeroDimension);
        }
        assert(width * height <= 0xffff_ffff * 0xffff_ffff) by (nonlinear_arith)
            requires
                width <= 0xffff_ffff,
                height <= 0xffff_ffff,
        ;
        if pixels.len() as u64 != width as u64 * height as u64 {
            return Err(ConfigError::SizeMismatch);
        }
        Ok(OutputImage { width, height, pixels })
    }

    /// Number of columns.
    pub fn width(&self) -> (w: u32)
        ensures
            w == self@.width,
            self@.sized(),
    {
        proof {
            use_type_invariant(self);
        }
        self.width
    }

    /// Number of rows.
    pub fn height(&self) -> (h: u32)
        ensures
            h == self@.height,
            self@.sized(),
    {
        proof {
            use_type_invariant(self);
        }
        self.height
    }

    /// The pixels, row by row.
    pub fn pixels(&self) -> (pixels: &[u8])
        ensures
            pixels@ == self@.cells,
            self@.sized(),
    {
        proof {
            use_type_invariant(self);
        }
        self.pixels.as_slice()
    }
}

/// Whether the sizes pass `resample_fits`.
fn fits(source_width: u32, source_height: u32, width: u32, height: u32) -> (r: bool)
    ensures
        r == resample_fits(source_width as nat, source_height as nat, width as nat, height as nat),
{
    let limit: u64 = isize::MAX as u64;
    assert(width * height <= 0xffff_ffff * 0xffff_ffff && source_width * height <= 0xffff_ffff
        * 0xffff_ffff) by (nonlinear_arith)
        requires
            width <= 0xffff_ffff,
            height <= 0xffff_ffff,
            source_width <= 0xffff_ffff,
    ;
    width as u64 * height as u64 <= limit && (source_width as u64 * height as u64) < limit && 8 * (6
        * source_width as u64 + 7 * width as u64) <= limit && 8 * (6 * source_height as u64 + 7
        * height as u64) <= limit
}

/// Resamples the canvas to `width` by `height` pixels with a Lanczos filter of
/// three lobes.
///
/// Fails with `ZeroDimension` if a target side is zero, and with `TooLarge` if
/// the sizes do not pass `resample_fits`; on every other input it succeeds.
/// The image has exactly the size asked for, and it is the canvas itself where
/// the size does not change.
pub fn resize_image(source: &SuperBuffer, width: u32, height: u32) -> (r: Result<
    OutputImage,
    ResampleError,
>)
    ensures
        resample_refusal(source@, width, height) is None ==> r is Ok,
        match r {
            Ok(image) => {
                &&& resample_refusal(source@, width, height) is None
                &&& resampled(source@, width, height, image@)
            },
            Err(ResampleError::Config(e)) => resample_refusal(source@, width, height) == Some(e),
            Err(ResampleError::Resizer(_)) => false,
        },
{
    if width == 0 || height == 0 {
        return Err(ResampleError::Config(ConfigError::ZeroDimension));
    }
    if !fits(source.width(), source.height(), width, height) {
        return Err(ResampleError::Config(ConfigError::TooLarge));
    }
    match lanczos3_resize(source.cells(), source.width(), source.height(), width, height) {
        Ok(pixels) => Ok(OutputImage { width, height, pixels }),
        Err(e) => Err(ResampleError::Resizer(e)),
    }
}

} // verus!
