//! The shared data unit of the pipeline: a width x height grid of RGBA8
//! pixels, owned by one pipeline stage at a time.

use crate::errors::PConvertError;
use vstd::prelude::*;

verus! {

/// A single RGBA pixel with 8-bit channels.
#[derive(Clone, Copy, PartialEq, Eq, Structural, Debug)]
pub struct Pixel {
    pub r: u8,
    pub g: u8,
    pub b: u8,
    pub a: u8,
}

impl Pixel {
    pub fn new(r: u8, g: u8, b: u8, a: u8) -> (p: Pixel)
        ensures
            p == (Pixel { r, g, b, a }),
    {
        Pixel { r, g, b, a }
    }
}

/// A width x height RGBA8 pixel grid; the pixel storage holds exactly
/// `width * height` pixels, row by row.
#[derive(Clone, Debug)]
pub struct ImageBuf {
    width: u32,
    height: u32,
    pixels: Vec<Pixel>,
}

impl View for ImageBuf {
    type V = Seq<Pixel>;

    closed spec fn view(&self) -> Seq<Pixel> {
        self.pixels@
    }
}

impl ImageBuf {
    /// The storage invariant: one pixel per grid cell.
    pub open spec fn wf(&self) -> bool {
        self@.len() == self.spec_width() * self.spec_height()
    }

    pub closed spec fn spec_width(&self) -> u32 {
        self.width
    }

    pub closed spec fn spec_height(&self) -> u32 {
        self.height
    }

    /// Builds a buffer from its dimensions and pixel storage; rejects storage
    /// whose length does not match the dimensions.
    pub fn from_pixels(width: u32, height: u32, pixels: Vec<Pixel>) -> (r: Result<
        ImageBuf,
        PConvertError,
    >)
        ensures
            pixels@.len() == width * height ==> (r matches Ok(img) && img@ == pixels@
                && img.spec_width() == width && img.spec_height() == height && img.wf()),
            pixels@.len() != width * height ==> (r matches Err(
                PConvertError::UnsupportedImageTypeError,
            )),
    {
        proof {
            assert((width as int) * (height as int) <= u64::MAX) by (nonlinear_arith)
                requires
                    width <= u32::MAX,
                    height <= u32::MAX,
            ;
        }
        let expected = (width as u64) * (height as u64);
        if (pixels.len() as u64) == expected {
            Ok(ImageBuf { width, height, pixels })
        } else {
            Err(PConvertError::UnsupportedImageTypeError)
        }
    }

    /// Crate-internal constructor for storage already known to match the
    /// dimensions.
    pub(crate) fn from_pixels_exact(width: u32, height: u32, pixels: Vec<Pixel>) -> (r: ImageBuf)
        requires
            pixels@.len() == width * height,
        ensures
            r@ == pixels@,
            r.spec_width() == width,
            r.spec_height() == height,
            r.wf(),
    {
        ImageBuf { width, height, pixels }
    }

    pub fn width(&self) -> (r: u32)
        ensures
            r == self.spec_width(),
    {
        self.width
    }

    pub fn height(&self) -> (r: u32)
        ensures
            r == self.spec_height(),
    {
        self.height
    }

    pub fn len(&self) -> (r: usize)
        ensures
            r == self@.len(),
    {
        self.pixels.len()
    }

    pub fn pixel(&self, i: usize) -> (p: Pixel)
        requires
            i < self@.len(),
        ensures
            p == self@[i as int],
    {
        self.pixels[i]
    }

    pub fn set_pixel(&mut self, i: usize, p: Pixel)
        requires
            i < old(self)@.len(),
        ensures
            final(self)@ == old(self)@.update(i as int, p),
            final(self).spec_width() == old(self).spec_width(),
            final(self).spec_height() == old(self).spec_height(),
    {
        self.pixels.set(i, p);
    }
}

} // verus!
