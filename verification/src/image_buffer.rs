//! The image that a render fills.

use vstd::prelude::*;
use image::RgbImage;
use crate::color::Color;

verus! {

/// A grid of pixels, three 8-bit channels each, kept in an
/// `image::RgbImage`. Proofs know what it holds through [`image_size`] and
/// [`image_pixels`] alone, and nothing reaches the image but the functions of
/// this file.
#[verifier::external_body]
pub struct Image {
    inner: RgbImage,
}

/// The width and the height of an image, in pixels.
pub uninterp spec fn image_size(img: Image) -> (int, int);

/// The pixels of an image: the colour in column `x` and row `y` under the key
/// `(x, y)`. Row 0 is the top row.
pub uninterp spec fn image_pixels(img: Image) -> Map<(int, int), Color>;

/// The keys of the pixels of a `width` by `height` image.
pub open spec fn grid(width: int, height: int) -> Set<(int, int)> {
    Set::new(|p: (int, int)| 0 <= p.0 < width && 0 <= p.1 < height)
}

impl Image {
    /// `ImageBuffer::new`: an image of the given size, every channel of
    /// every pixel zero. The outside function panics where
    /// `3 * width * height` bytes are more than a vector can hold; the
    /// `requires` leaves those sizes out.
    #[verifier::external_body]
    pub(crate) fn blank(width: u32, height: u32) -> (img: Image)
        requires
            3 * width * height <= isize::MAX,
        ensures
            image_size(img) == (width as int, height as int),
            image_pixels(img) == Map::new(
                |p: (int, int)| grid(width as int, height as int).contains(p),
                |p: (int, int)| (Color { r: 0, g: 0, b: 0 }),
            ),
    {
        Image { inner: RgbImage::new(width, height) }
    }

    /// `ImageBuffer::put_pixel`: the pixel at `(x, y)` becomes `color`, every
    /// other pixel and the size stay. The outside function panics where
    /// `(x, y)` is outside the image; the `requires` leaves those places out.
    #[verifier::external_body]
    pub(crate) fn put(&mut self, x: u32, y: u32, color: Color)
        requires
            x < image_size(*old(self)).0,
            y < image_size(*old(self)).1,
        ensures
            image_size(*final(self)) == image_size(*old(self)),
            image_pixels(*final(self)) == image_pixels(*old(self)).insert(
                (x as int, y as int),
                color,
            ),
    {
        self.inner.put_pixel(x, y, image::Rgb([color.r, color.g, color.b]));
    }

    /// `ImageBuffer::dimensions`: the width and the height that the image was
    /// made with.
    #[verifier::external_body]
    fn dimensions(&self) -> (size: (u32, u32))
        ensures
            image_size(*self) == (size.0 as int, size.1 as int),
    {
        self.inner.dimensions()
    }

    /// `ImageBuffer::get_pixel`: the three channels of the pixel at `(x, y)`.
    /// The outside function panics where `(x, y)` is outside the image; the
    /// `requires` leaves those places out.
    #[verifier::external_body]
    fn get(&self, x: u32, y: u32) -> (color: Color)
        requires
            x < image_size(*self).0,
            y < image_size(*self).1,
        ensures
            color == image_pixels(*self)[(x as int, y as int)],
    {
        let channels: [u8; 3] = self.inner.get_pixel(x, y).0;
        Color { r: channels[0], g: channels[1], b: channels[2] }
    }

    /// The number of columns.
    pub fn width(&self) -> (w: u32)
        ensures
            w == image_size(*self).0,
    {
        self.dimensions().0
    }

    /// The number of rows.
    pub fn height(&self) -> (h: u32)
        ensures
            h == image_size(*self).1,
    {
        self.dimensions().1
    }

    /// The colour of the pixel in column `x` and row `y`, or `None` where the
    /// image has no such pixel.
    pub fn pixel(&self, x: u32, y: u32) -> (color: Option<Color>)
        ensures
            color is Some <==> x < image_size(*self).0 && y < image_size(*self).1,
            color is Some ==> color == Some(image_pixels(*self)[(x as int, y as int)]),
    {
        let size: (u32, u32) = self.dimensions();
        if x < size.0 && y < size.1 {
            Some(self.get(x, y))
        } else {
            None
        }
    }
}

} // verus!
