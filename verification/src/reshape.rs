use vstd::prelude::*;
use crate::color::{background_color, white};
use crate::picture::{Picture, cropped, filled, min_int, overlaid};
use crate::raster::Raster;

verus! {

/// Rows skipped below the vertical midpoint before the second half starts.
pub const HALF_GAP: u32 = 12;

/// The width of the wide canvas: eight fifths of the source width, rounded
/// down, and at most the largest width a raster can have.
pub open spec fn long_width(width: int) -> int {
    min_int(width * 8 / 5, u32::MAX as int)
}

/// The lower left quarter of `p`, starting `HALF_GAP` rows below the middle.
pub open spec fn second_half(p: Picture) -> Picture {
    cropped(p, 0, p.height / 2 + 12, p.width / 2, p.height)
}

/// The wide layout of `p`: a white canvas of `long_width` by half the
/// height, with all of `p` composited at the origin and its second half
/// composited at the source's width.
pub open spec fn unsquared(p: Picture) -> Picture {
    let canvas = filled(long_width(p.width), p.height / 2, background_color());
    overlaid(overlaid(canvas, p, 0, 0), second_half(p), p.width, 0)
}

/// The width of the wide canvas for a source of the given width.
pub fn wide_width(width: u32) -> (wide: u32)
    ensures
        wide == long_width(width as int),
{
    let scaled: u64 = width as u64 * 8 / 5;
    if scaled > u32::MAX as u64 {
        u32::MAX
    } else {
        scaled as u32
    }
}

/// Turns an image of two stacked halves into one wide strip.
pub fn make_unsquare(image: Raster) -> (out: Raster)
    requires
        image.wf(),
    ensures
        out.wf(),
        out@ == unsquared(image@),
        out.width == long_width(image.width as int),
        out.height == image.height / 2,
        image.width * 8 / 5 <= u32::MAX ==> out.width == image.width * 8 / 5,
{
    let width: u32 = image.width;
    let height: u32 = image.height;
    let wide: u32 = wide_width(width);
    let half: u32 = height / 2;
    assert(wide * half * 4 <= width * height * 4) by (nonlinear_arith)
        requires
            0 <= wide <= 2 * width,
            0 <= 2 * half <= height,
    ;
    let long = Raster::from_pixel(wide, half, white());
    let long = long.overlay(&image, 0, 0);
    let second = image.crop(0, half + HALF_GAP, width / 2, height);
    long.overlay(&second, width, 0)
}

} // verus!
