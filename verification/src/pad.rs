use vstd::prelude::*;
use crate::color::{background_color, white};
use crate::picture::{Picture, cropped, filled, lemma_picture_ext, min_int, overlaid};
use crate::raster::Raster;

verus! {

/// The border that an image of the given size receives: nine thousandths of
/// its shorter side, rounded down.
pub open spec fn padding_of(width: int, height: int) -> int {
    min_int(width, height) * 9 / 1000
}

/// An image of this size can be padded: the padded dimensions and the byte
/// count of the padded buffer are within what a raster can hold.
pub open spec fn can_pad(width: int, height: int) -> bool {
    let pad = padding_of(width, height);
    &&& width + 2 * pad <= u32::MAX
    &&& height + 2 * pad <= u32::MAX
    &&& (width + 2 * pad) * (height + 2 * pad) * 4 <= isize::MAX
}

/// `p` centred on a white canvas that is `padding_of` larger on every side.
pub open spec fn padded(p: Picture) -> Picture {
    let pad = padding_of(p.width, p.height);
    overlaid(filled(p.width + 2 * pad, p.height + 2 * pad, background_color()), p, pad, pad)
}

/// The border for an image of the given size.
pub fn padding_amount(width: u32, height: u32) -> (pad: u32)
    ensures
        pad == padding_of(width as int, height as int),
{
    let shorter: u32 = if width <= height {
        width
    } else {
        height
    };
    (shorter as u64 * 9 / 1000) as u32
}

/// Tells whether an image of the given size can be padded.
pub fn fits_padding(width: u32, height: u32) -> (fits: bool)
    ensures
        fits == can_pad(width as int, height as int),
{
    let pad: u64 = padding_amount(width, height) as u64;
    let w: u64 = width as u64 + 2 * pad;
    let h: u64 = height as u64 + 2 * pad;
    if w > u32::MAX as u64 || h > u32::MAX as u64 {
        return false;
    }
    assert(w * h <= 0xffff_ffff * 0xffff_ffff) by (nonlinear_arith)
        requires
            0 <= w <= 0xffff_ffff,
            0 <= h <= 0xffff_ffff,
    ;
    let bytes: u128 = w as u128 * h as u128 * 4;
    bytes <= isize::MAX as u128
}

/// Adds a white border of `padding_of` pixels on every side.
pub fn add_padding(image: Raster) -> (out: Raster)
    requires
        image.wf(),
        can_pad(image.width as int, image.height as int),
    ensures
        out.wf(),
        out@ == padded(image@),
        out.width == image.width + 2 * padding_of(image.width as int, image.height as int),
        out.height == image.height + 2 * padding_of(image.width as int, image.height as int),
        image@.opaque() ==> cropped(
            out@,
            padding_of(image.width as int, image.height as int),
            padding_of(image.width as int, image.height as int),
            image.width as int,
            image.height as int,
        ) == image@,
{
    proof {
        if image@.opaque() {
            lemma_crop_undoes_padding(image@);
        }
    }
    let pad: u32 = padding_amount(image.width, image.height);
    let canvas = Raster::from_pixel(image.width + pad * 2, image.height + pad * 2, white());
    canvas.overlay(&image, pad, pad)
}

/// What can be padded at one size can be padded at every smaller size.
pub proof fn lemma_can_pad_monotone(w1: int, h1: int, w2: int, h2: int)
    requires
        0 <= w1 <= w2,
        0 <= h1 <= h2,
        can_pad(w2, h2),
    ensures
        can_pad(w1, h1),
{
    let a1 = w1 + 2 * padding_of(w1, h1);
    let b1 = h1 + 2 * padding_of(w1, h1);
    let a2 = w2 + 2 * padding_of(w2, h2);
    let b2 = h2 + 2 * padding_of(w2, h2);
    assert(a1 * b1 * 4 <= a2 * b2 * 4) by (nonlinear_arith)
        requires
            0 <= a1 <= a2,
            0 <= b1 <= b2,
    ;
}

/// Cropping a padded picture by the border on every side gives back the
/// picture, provided every pixel of it is fully opaque (a pixel that is not
/// is composited with the white canvas instead of replacing it).
pub proof fn lemma_crop_undoes_padding(p: Picture)
    requires
        p.wf(),
        p.opaque(),
    ensures
        cropped(
            padded(p),
            padding_of(p.width, p.height),
            padding_of(p.width, p.height),
            p.width,
            p.height,
        ) == p,
{
    let pad = padding_of(p.width, p.height);
    let q = cropped(padded(p), pad, pad, p.width, p.height);
    assert(q.wf());
    assert forall|x: int, y: int| q.contains(x, y) implies #[trigger] q.at(x, y) == p.at(x, y) by {
        assert(p.contains(x, y));
        assert(p.at(x, y).a == 255);
    }
    lemma_picture_ext(q, p);
}

} // verus!
