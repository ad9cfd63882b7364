use vstd::prelude::*;
use crate::pad::{add_padding, can_pad, fits_padding, lemma_can_pad_monotone, padded};
use crate::picture::Picture;
use crate::raster::Raster;
use crate::reshape::{long_width, make_unsquare, unsquared, wide_width};
use crate::trim::{
    lemma_trimmed_within, remove_padding, remove_padding_except_right, trimmed,
    trimmed_except_right,
};

verus! {

/// The first three stages: trim except on the right, reshape, trim all sides.
pub open spec fn before_padding(p: Picture) -> Picture {
    trimmed(unsquared(trimmed_except_right(p)))
}

/// The normalized picture: the first three stages, then the border.
pub open spec fn normalized(p: Picture) -> Picture {
    padded(before_padding(p))
}

/// The picture can be normalized: what the first three stages leave can be padded.
pub open spec fn can_normalize(p: Picture) -> bool {
    can_pad(before_padding(p).width, before_padding(p).height)
}

/// An image can be normalized whenever its reshaped canvas, before any
/// trimming, could be padded: trimming only makes the stages' results smaller.
pub proof fn lemma_can_normalize(p: Picture)
    requires
        0 <= p.width,
        0 <= p.height,
        can_pad(long_width(p.width), p.height / 2),
    ensures
        can_normalize(p),
{
    let t = trimmed_except_right(p);
    lemma_trimmed_within(p);
    let u = unsquared(t);
    lemma_trimmed_within(u);
    lemma_can_pad_monotone(
        before_padding(p).width,
        before_padding(p).height,
        long_width(p.width),
        p.height / 2,
    );
}

/// Tells from the size alone whether the reshaped canvas of an image could
/// be padded; an image for which it could can be normalized.
pub fn fits_conversion(image: &Raster) -> (fits: bool)
    ensures
        fits == can_pad(long_width(image.width as int), image.height as int / 2),
        fits ==> can_normalize(image@),
{
    proof {
        if can_pad(long_width(image.width as int), image.height as int / 2) {
            lemma_can_normalize(image@);
        }
    }
    fits_padding(wide_width(image.width), image.height / 2)
}

/// Runs the stages before the border.
pub fn trim_and_reshape(image: Raster) -> (out: Raster)
    requires
        image.wf(),
    ensures
        out.wf(),
        out@ == before_padding(image@),
{
    let image = remove_padding_except_right(image);
    let image = make_unsquare(image);
    remove_padding(image)
}

/// Normalizes an image: trim except on the right, reshape, trim, pad.
pub fn convert_image(image: Raster) -> (out: Raster)
    requires
        image.wf(),
        can_normalize(image@),
    ensures
        out.wf(),
        out@ == normalized(image@),
{
    let image = trim_and_reshape(image);
    add_padding(image)
}

/// Normalizes an image where the padded result fits a raster, and says so
/// with `None` where it does not.
pub fn try_convert_image(image: Raster) -> (out: Option<Raster>)
    requires
        image.wf(),
    ensures
        out.is_some() <==> can_normalize(image@),
        out matches Some(r) ==> r.wf() && r@ == normalized(image@),
{
    let image = trim_and_reshape(image);
    if fits_padding(image.width, image.height) {
        Some(add_padding(image))
    } else {
        None
    }
}

} // verus!
