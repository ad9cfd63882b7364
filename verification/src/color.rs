use vstd::prelude::*;

verus! {

/// One RGBA pixel value, eight bits per channel.
#[derive(Clone, Copy, Debug, PartialEq, Eq, Structural)]
pub struct Color {
    pub r: u8,
    pub g: u8,
    pub b: u8,
    pub a: u8,
}

/// Opaque white: the background reference and the fill of every new canvas.
pub open spec fn background_color() -> Color {
    Color { r: 255, g: 255, b: 255, a: 255 }
}

/// The background colour as a value.
#[verifier::when_used_as_spec(background_color)]
pub fn white() -> (c: Color)
    ensures
        c == background_color(),
{
    Color { r: 255, g: 255, b: 255, a: 255 }
}

/// Smallest channel value that still counts as white when trimming.
pub const MIN_WHITE_THRESHOLD: u8 = 100;

/// A pixel is background when it is not fully opaque, or when all three
/// colour channels reach the whiteness threshold.
pub open spec fn is_background(c: Color) -> bool {
    c.a < 255 || (c.r >= 100 && c.g >= 100 && c.b >= 100)
}

/// Decides whether a pixel counts as background for trimming.
pub fn is_white_enough(pixel: Color) -> (white: bool)
    ensures
        white == is_background(pixel),
        pixel.a < 255 ==> white,
        pixel.a == 255 ==> (white <==> pixel.r >= 100 && pixel.g >= 100 && pixel.b >= 100),
{
    if pixel.a < 255 {
        return true;
    }
    pixel.r >= MIN_WHITE_THRESHOLD && pixel.g >= MIN_WHITE_THRESHOLD && pixel.b
        >= MIN_WHITE_THRESHOLD
}

} // verus!
