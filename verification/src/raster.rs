//! The decoded picture: an `image::RgbImage`, seen through its size and its
//! samples.
//!
//! The buffer belongs to the `image` crate and is opaque to the verifier. What
//! the conversion needs of it is named here, and the three calls into the
//! crate are given contracts over those names. Those contracts are not proved:
//! they restate what the crate's source shows. Everything else is verified
//! against them.

use image::RgbImage;
use vstd::prelude::*;

verus! {

/// A picture of `width x height` pixels, each one a red, a green and a blue
/// sample between 0 and 255. It is read, never changed.
///
/// The picture is an `image::RgbImage`, which the verifier cannot look into:
/// all that is known of one is what `buffer_dimensions` and `buffer_samples`
/// name.
#[verifier::external_body]
pub struct PixelBuffer {
    image: RgbImage,
}

/// Width and height of the picture, in pixels: what `ImageBuffer::dimensions`
/// returns.
pub uninterp spec fn buffer_dimensions(buffer: PixelBuffer) -> (u32, u32);

/// The samples the picture holds, as `image` lays them out: row after row from
/// the top, pixel after pixel from the left, three samples (red, green, blue)
/// for each pixel.
pub uninterp spec fn buffer_samples(buffer: PixelBuffer) -> Seq<u8>;

/// `ImageBuffer::from_raw` on a `Vec<u8>`: the buffer is accepted when it holds
/// at least three samples for each of the `width * height` pixels, and that
/// count can be formed in a `usize` (the crate multiplies by the width first).
/// An accepted buffer keeps the two dimensions and the samples as given.
#[verifier::external_body]
fn from_raw(width: u32, height: u32, samples: Vec<u8>) -> (made: Option<PixelBuffer>)
    ensures
        made.is_some() == (3 * width <= usize::MAX && 3 * width * height <= samples.len()),
        made matches Some(buffer) ==> buffer_dimensions(buffer).0 == width,
        made matches Some(buffer) ==> buffer_dimensions(buffer).1 == height,
        made matches Some(buffer) ==> buffer_samples(buffer) == samples@,
{
    match RgbImage::from_raw(width, height, samples) {
        Some(image) => Some(PixelBuffer { image }),
        None => None,
    }
}

/// `ImageBuffer::dimensions`: the width and height the buffer was made with.
#[verifier::external_body]
pub(crate) fn dimensions(buffer: &PixelBuffer) -> (dims: (u32, u32))
    ensures
        dims == buffer_dimensions(*buffer),
{
    buffer.image.dimensions()
}

/// `ImageBuffer::get_pixel`, and the pixel's `data`: the three samples that
/// start at `(y * width + x) * 3`. The call panics when `x` or `y` is outside
/// the picture, so both must lie inside.
#[verifier::external_body]
pub(crate) fn get_pixel(buffer: &PixelBuffer, x: u32, y: u32) -> (data: [u8; 3])
    requires
        x < buffer_dimensions(*buffer).0,
        y < buffer_dimensions(*buffer).1,
    ensures
        data[0] == buffer_samples(*buffer)[(y * buffer_dimensions(*buffer).0 + x) * 3],
        data[1] == buffer_samples(*buffer)[(y * buffer_dimensions(*buffer).0 + x) * 3 + 1],
        data[2] == buffer_samples(*buffer)[(y * buffer_dimensions(*buffer).0 + x) * 3 + 2],
{
    buffer.image.get_pixel(x, y).data
}

impl PixelBuffer {
    /// Width of the picture in pixels.
    pub open spec fn spec_width(self) -> int {
        buffer_dimensions(self).0 as int
    }

    /// Height of the picture in pixels.
    pub open spec fn spec_height(self) -> int {
        buffer_dimensions(self).1 as int
    }

    /// The red, green and blue samples of pixel `(x, y)`, counted from the
    /// top left corner.
    pub open spec fn pixel_at(self, x: int, y: int) -> (u8, u8, u8) {
        let at = (y * self.spec_width() + x) * 3;
        (buffer_samples(self)[at], buffer_samples(self)[at + 1], buffer_samples(self)[at + 2])
    }

    /// Whether `count` samples are exactly those of a `width x height` picture:
    /// three for each pixel. Three times the width has to fit in a `usize` as
    /// well, which it always does where a `usize` has 64 bits.
    pub open spec fn fills(width: u32, height: u32, count: nat) -> bool {
        count == 3 * width * height && 3 * width <= usize::MAX
    }

    /// Makes a picture of `width x height` pixels from its samples, three for
    /// each pixel, rows from the top and pixels from the left. Any other number
    /// of samples gives `None`.
    pub fn new(width: u32, height: u32, samples: Vec<u8>) -> (made: Option<PixelBuffer>)
        ensures
            made is Some <==> Self::fills(width, height, samples@.len()),
            made matches Some(buffer) ==> buffer.spec_width() == width && buffer.spec_height()
                == height && buffer_samples(buffer) == samples@,
    {
        assert(width * height <= 0xffff_ffff * 0xffff_ffff) by (nonlinear_arith)
            requires
                width <= 0xffff_ffff,
                height <= 0xffff_ffff,
        ;
        assert(3 * width * height == 3 * (width * height)) by (nonlinear_arith);
        let pixels: u64 = (width as u64) * (height as u64);
        let wanted: u128 = 3 * (pixels as u128);
        if samples.len() as u128 != wanted {
            return None;
        }
        from_raw(width, height, samples)
    }

    /// Width and height of the picture, in pixels.
    pub fn dimensions(&self) -> (dims: (u32, u32))
        ensures
            dims.0 == self.spec_width(),
            dims.1 == self.spec_height(),
    {
        dimensions(self)
    }
}

} // verus!
