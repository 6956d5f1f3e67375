//! The binarized raster and its trusted view.
//!
//! The raster is an `image::GrayImage`, consumed as already binarized. The
//! buffer type of that crate is generic over its pixel trait, which the
//! verifier cannot take as a bound, so the image is held in a private field
//! of a struct of this library and seen only through three names: its width,
//! its height, and its single-channel contents by (x, y) pixel coordinate.
//! Nothing here interprets the pixel values.

use vstd::prelude::*;

verus! {

/// A binarized grayscale raster, wrapping the outside crate's image buffer.
#[verifier::external_body]
pub struct Raster {
    img: image::GrayImage,
}

/// The width in pixels of a raster.
pub uninterp spec fn gray_width(r: Raster) -> nat;

/// The height in pixels of a raster.
pub uninterp spec fn gray_height(r: Raster) -> nat;

/// The single-channel contents of a raster, by (x, y) pixel coordinate.
pub uninterp spec fn gray_pixels(r: Raster) -> Map<(int, int), u8>;

impl Raster {
    /// Relies on image::ImageBuffer::from_raw: builds an image over a
    /// row-major single-channel buffer, and returns `None` exactly when the
    /// buffer is shorter than `width * height`.
    #[verifier::external_body]
    pub fn new(width: u32, height: u32, data: Vec<u8>) -> (r: Option<Raster>)
        ensures
            match r {
                Some(ras) => {
                    &&& width * height <= data@.len()
                    &&& gray_width(ras) == width
                    &&& gray_height(ras) == height
                    &&& forall|x: int, y: int|
                        0 <= x < width && 0 <= y < height ==> gray_pixels(ras)[(x, y)] == data@[y
                            * width + x]
                },
                None => width * height > data@.len(),
            },
    {
        match image::GrayImage::from_raw(width, height, data) {
            Some(img) => Some(Raster { img }),
            None => None,
        }
    }

    /// Relies on image::ImageBuffer::width: the raster's width in pixels.
    #[verifier::external_body]
    pub(crate) fn width(&self) -> (w: u32)
        ensures
            w as nat == gray_width(*self),
    {
        self.img.width()
    }

    /// Relies on image::ImageBuffer::height: the raster's height in pixels.
    #[verifier::external_body]
    pub(crate) fn height(&self) -> (h: u32)
        ensures
            h as nat == gray_height(*self),
    {
        self.img.height()
    }

    /// Relies on image::ImageBuffer::get_pixel: the pixel at (x, y). It
    /// panics outside the (width, height) bounds, which the precondition
    /// rules out; image::Luma holds the pixel's one channel as its single
    /// element, stored at row-major offset `y * width + x`.
    #[verifier::external_body]
    pub fn pixel_at(&self, x: u32, y: u32) -> (p: u8)
        requires
            x < gray_width(*self),
            y < gray_height(*self),
        ensures
            p == gray_pixels(*self)[(x as int, y as int)],
    {
        self.img.get_pixel(x, y)[0]
    }
}

} // verus!
