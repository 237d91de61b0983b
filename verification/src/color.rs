//! Pixel colours, and the background of an image.

use vstd::prelude::*;

verus! {

/// The colour of a pixel: red, green and blue.
#[derive(Clone, Copy, Debug, PartialEq, Eq, Structural)]
pub struct Color {
    pub r: u8,
    pub g: u8,
    pub b: u8,
}

/// One channel of the background: three tenths of the coordinate, rounded
/// down, and no more than 255.
pub open spec fn gradient(n: int) -> u8 {
    if 3 * n / 10 >= 255 {
        255u8
    } else {
        (3 * n / 10) as u8
    }
}

/// The colour of pixel `(x, y)` where its ray hits nothing.
pub open spec fn spec_background(x: int, y: int) -> Color {
    Color { r: gradient(x), g: 0, b: gradient(y) }
}

/// The colour of pixel `(x, y)` that shows `shown`: that colour, or the
/// background where there is none.
pub open spec fn spec_over_background(shown: Option<Color>, x: int, y: int) -> Color {
    match shown {
        Some(c) => c,
        None => spec_background(x, y),
    }
}

fn channel(n: u32) -> (c: u8)
    ensures
        c == gradient(n as int),
{
    if n >= 850 {
        255
    } else {
        let scaled: u32 = 3 * n / 10;
        scaled as u8
    }
}

/// The colour of pixel `(x, y)` where its ray hits nothing: red grows with
/// `x` and blue with `y`, three steps of brightness in ten pixels, until
/// they reach 255; green is 0.
pub fn background(x: u32, y: u32) -> (c: Color)
    ensures
        c == spec_background(x as int, y as int),
{
    Color { r: channel(x), g: 0, b: channel(y) }
}

/// The colour of pixel `(x, y)` that shows `shown`: that colour, or the
/// background where there is none.
pub fn over_background(shown: Option<Color>, x: u32, y: u32) -> (c: Color)
    ensures
        c == spec_over_background(shown, x as int, y as int),
{
    match shown {
        Some(s) => s,
        None => background(x, y),
    }
}

} // verus!
