use vstd::prelude::*;
use crate::color::Color;
use crate::picture::{
    blended, cropped, filled, lemma_picture_ext, overlaid, picture, with_rect, Picture,
};

verus! {

/// A rectangular grid of RGBA pixels in a dense row-major byte buffer.
#[derive(Clone, Debug, PartialEq, Eq)]
pub struct Raster {
    pub width: u32,
    pub height: u32,
    pub data: Vec<u8>,
}

/// The colour that four consecutive bytes of a row-major buffer encode.
pub open spec fn color_in(data: Seq<u8>, width: int, x: int, y: int) -> Color {
    let i = (y * width + x) * 4;
    Color { r: data[i], g: data[i + 1], b: data[i + 2], a: data[i + 3] }
}

/// The row-major offset of an inside coordinate is below the pixel count.
pub proof fn lemma_offset_in_bounds(x: int, y: int, width: int, height: int)
    requires
        0 <= x < width,
        0 <= y < height,
    ensures
        0 <= y * width + x < width * height,
        0 <= y * width,
{
    assert(y * width + width <= height * width) by (nonlinear_arith)
        requires
            0 <= y < height,
            0 <= width,
    ;
    assert(0 <= y * width) by (nonlinear_arith)
        requires
            0 <= y,
            0 <= width,
    ;
    assert(height * width == width * height) by (nonlinear_arith);
}

impl View for Raster {
    type V = Picture;

    open spec fn view(&self) -> Picture {
        picture(
            self.width as int,
            self.height as int,
            |x: int, y: int| color_in(self.data@, self.width as int, x, y),
        )
    }
}

impl Raster {
    /// The buffer holds exactly four bytes per pixel and is no longer than an
    /// allocation may be.
    pub open spec fn wf(&self) -> bool {
        &&& self.data@.len() == self.width * self.height * 4
        &&& self.data@.len() <= isize::MAX
    }

    /// Takes a row-major RGBA buffer as a raster, if its length fits the dimensions.
    pub fn from_raw(width: u32, height: u32, data: Vec<u8>) -> (out: Option<Raster>)
        ensures
            out.is_some() <==> (data@.len() == width * height * 4 && data@.len() <= isize::MAX),
            out matches Some(r) ==> r.wf() && r.width == width && r.height == height && r.data@
                == data@,
    {
        assert(width * height <= 0xffff_ffff * 0xffff_ffff) by (nonlinear_arith)
            requires
                width <= 0xffff_ffff,
                height <= 0xffff_ffff,
        ;
        let pixels: u64 = width as u64 * height as u64;
        let len: u64 = data.len() as u64;
        if len <= isize::MAX as u64 && len % 4 == 0 && len / 4 == pixels {
            Some(Raster { width, height, data })
        } else {
            None
        }
    }

    pub fn width(&self) -> (w: u32)
        ensures
            w == self.width,
    {
        self.width
    }

    pub fn height(&self) -> (h: u32)
        ensures
            h == self.height,
    {
        self.height
    }

    /// The colour at `(x, y)`.
    pub fn get_pixel(&self, x: u32, y: u32) -> (c: Color)
        requires
            self.wf(),
            x < self.width,
            y < self.height,
        ensures
            c == self@.at(x as int, y as int),
    {
        proof {
            lemma_offset_in_bounds(x as int, y as int, self.width as int, self.height as int);
        }
        let i: usize = (y as usize * self.width as usize + x as usize) * 4;
        Color { r: self.data[i], g: self.data[i + 1], b: self.data[i + 2], a: self.data[i + 3] }
    }

    /// A canvas of the given size in one colour.
    pub fn from_pixel(width: u32, height: u32, color: Color) -> (out: Raster)
        requires
            width * height * 4 <= isize::MAX,
        ensures
            out.wf(),
            out@ == filled(width as int, height as int, color),
    {
        buffer_from_pixel(width, height, color)
    }

    /// The part of this raster at `(x, y)` of at most `width` by `height`
    /// pixels, clamped to the raster.
    pub fn crop(&self, x: u32, y: u32, width: u32, height: u32) -> (out: Raster)
        requires
            self.wf(),
        ensures
            out.wf(),
            out@ == cropped(self@, x as int, y as int, width as int, height as int),
    {
        crop_buffer(self, x, y, width, height)
    }

    /// Composites `top` onto this raster with its top-left corner at `(x, y)`.
    pub fn overlay(self, top: &Raster, x: u32, y: u32) -> (out: Raster)
        requires
            self.wf(),
            top.wf(),
        ensures
            out.wf(),
            out@ == overlaid(self@, top@, x as int, y as int),
    {
        let ghost before = self@;
        let out = overlay_buffer(self, top, x, y);
        proof {
            lemma_picture_ext(out@, overlaid(before, top@, x as int, y as int));
        }
        out
    }

    /// A copy of this raster with a rectangle painted in `color`, as far as
    /// the rectangle lies inside it.
    pub fn fill_rect(&self, left: i32, top: i32, width: u32, height: u32, color: Color) -> (out:
        Raster)
        requires
            self.wf(),
            self.width <= i32::MAX,
            self.height <= i32::MAX,
            0 < width <= i32::MAX,
            0 < height <= i32::MAX,
            left + width <= i32::MAX,
            top + height <= i32::MAX,
        ensures
            out.wf(),
            out@ == with_rect(self@, left as int, top as int, width as int, height as int, color),
    {
        fill_rect_buffer(self, left, top, width, height, color)
    }

    /// A copy of this raster.
    pub fn duplicate(&self) -> (out: Raster)
        requires
            self.wf(),
        ensures
            out.wf(),
            out.width == self.width,
            out.height == self.height,
            out.data@ == self.data@,
            out@ == self@,
    {
        let data = self.data.clone();
        assert(data@ =~= self.data@);
        Raster { width: self.width, height: self.height, data }
    }
}

/// Calls `image::ImageBuffer::from_pixel`. Trusted: the buffer that comes
/// back has the given dimensions and holds `color` at every coordinate. The
/// outside function panics where the byte count exceeds what a vector can
/// hold, which `requires` leaves out.
#[verifier::external_body]
fn buffer_from_pixel(width: u32, height: u32, color: Color) -> (out: Raster)
    requires
        width * height * 4 <= isize::MAX,
    ensures
        out.wf(),
        out@ == filled(width as int, height as int, color),
{
    let px = image::Rgba([color.r, color.g, color.b, color.a]);
    let buf = image::RgbaImage::from_pixel(width, height, px);
    Raster { width, height, data: buf.into_raw() }
}

/// Calls `image::imageops::crop_imm` and copies the view out with
/// `SubImage::to_image`. Trusted: origin and extent are clamped to the image
/// (`x` to the width, `width` to what is left of it; likewise for `y`), and
/// the result holds the source's pixels shifted by the clamped origin.
#[verifier::external_body]
fn crop_buffer(image: &Raster, x: u32, y: u32, width: u32, height: u32) -> (out: Raster)
    requires
        image.wf(),
    ensures
        out.wf(),
        out@ == cropped(image@, x as int, y as int, width as int, height as int),
{
    let buf = image::RgbaImage::from_raw(image.width, image.height, image.data.clone()).unwrap();
    let part = image::imageops::crop_imm(&buf, x, y, width, height).to_image();
    Raster { width: part.width(), height: part.height(), data: part.into_raw() }
}

/// Calls `image::imageops::overlay`. Trusted: the dimensions of `bottom`
/// stay; each pixel of `bottom` that `top`, placed at `(x, y)`, covers
/// becomes the blend of the two (`Rgba::blend`: a fully transparent top pixel
/// leaves the bottom one, a fully opaque one replaces it, anything between is
/// `blended`); every other pixel stays.
#[verifier::external_body]
fn overlay_buffer(bottom: Raster, top: &Raster, x: u32, y: u32) -> (out: Raster)
    requires
        bottom.wf(),
        top.wf(),
    ensures
        out.wf(),
        out.width == bottom.width,
        out.height == bottom.height,
        forall|i: int, j: int|
            bottom@.contains(i, j) ==> #[trigger] out@.at(i, j) == if top@.contains(i - x, j - y) {
                let under = bottom@.at(i, j);
                let over = top@.at(i - x, j - y);
                if over.a == 0 {
                    under
                } else if over.a == 255 {
                    over
                } else {
                    blended(under, over)
                }
            } else {
                bottom@.at(i, j)
            },
{
    let mut under = image::RgbaImage::from_raw(bottom.width, bottom.height, bottom.data).unwrap();
    let over = image::RgbaImage::from_raw(top.width, top.height, top.data.clone()).unwrap();
    image::imageops::overlay(&mut under, &over, i64::from(x), i64::from(y));
    Raster { width: under.width(), height: under.height(), data: under.into_raw() }
}

/// Builds an `imageproc::rect::Rect` and calls
/// `imageproc::drawing::draw_filled_rect`. Trusted: the result is a copy of
/// `image` in which every pixel inside the rectangle has the colour `color`.
/// `Rect::of_size` panics on an empty rectangle, and the far edges of the
/// rectangle and of the canvas are computed in `i32`: `requires` keeps the
/// sizes and the sums of origin and size in that range.
#[verifier::external_body]
fn fill_rect_buffer(
    image: &Raster,
    left: i32,
    top: i32,
    width: u32,
    height: u32,
    color: Color,
) -> (out: Raster)
    requires
        image.wf(),
        image.width <= i32::MAX,
        image.height <= i32::MAX,
        0 < width <= i32::MAX,
        0 < height <= i32::MAX,
        left + width <= i32::MAX,
        top + height <= i32::MAX,
    ensures
        out.wf(),
        out@ == with_rect(image@, left as int, top as int, width as int, height as int, color),
{
    let buf = image::RgbaImage::from_raw(image.width, image.height, image.data.clone()).unwrap();
    let rect = imageproc::rect::Rect::at(left, top).of_size(width, height);
    let px = image::Rgba([color.r, color.g, color.b, color.a]);
    let drawn = imageproc::drawing::draw_filled_rect(&buf, rect, px);
    Raster { width: drawn.width(), height: drawn.height(), data: drawn.into_raw() }
}

} // verus!
