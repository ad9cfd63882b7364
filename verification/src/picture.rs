use vstd::prelude::*;
use crate::color::Color;

verus! {

/// The mathematical picture that a raster stands for: its dimensions and the
/// colour at each coordinate inside them.
pub struct Picture {
    pub width: int,
    pub height: int,
    pub pixels: Map<(int, int), Color>,
}

impl Picture {
    /// The coordinate lies inside the picture.
    pub open spec fn contains(self, x: int, y: int) -> bool {
        0 <= x < self.width && 0 <= y < self.height
    }

    /// The colour at a coordinate.
    pub open spec fn at(self, x: int, y: int) -> Color {
        self.pixels[(x, y)]
    }

    /// Dimensions are non-negative and exactly the inside coordinates carry a colour.
    pub open spec fn wf(self) -> bool {
        &&& 0 <= self.width
        &&& 0 <= self.height
        &&& forall|x: int, y: int| #[trigger]
            self.pixels.dom().contains((x, y)) <==> self.contains(x, y)
    }

    /// Every pixel is fully opaque.
    pub open spec fn opaque(self) -> bool {
        forall|x: int, y: int| self.contains(x, y) ==> (#[trigger] self.at(x, y)).a == 255
    }
}

/// The picture of the given size whose colour at `(x, y)` is `f(x, y)`.
pub open spec fn picture(width: int, height: int, f: spec_fn(int, int) -> Color) -> Picture {
    Picture {
        width,
        height,
        pixels: Map::new(
            |p: (int, int)| 0 <= p.0 < width && 0 <= p.1 < height,
            |p: (int, int)| f(p.0, p.1),
        ),
    }
}

/// Two pictures of the same size that agree at every coordinate are equal.
pub proof fn lemma_picture_ext(a: Picture, b: Picture)
    requires
        a.wf(),
        b.wf(),
        a.width == b.width,
        a.height == b.height,
        forall|x: int, y: int| a.contains(x, y) ==> #[trigger] a.at(x, y) == b.at(x, y),
    ensures
        a == b,
{
    assert forall|k: (int, int)| a.pixels.dom().contains(k) <==> b.pixels.dom().contains(k) by {
        assert(k == (k.0, k.1));
        assert(a.pixels.dom().contains((k.0, k.1)) <==> a.contains(k.0, k.1));
        assert(b.pixels.dom().contains((k.0, k.1)) <==> b.contains(k.0, k.1));
    }
    assert forall|k: (int, int)| a.pixels.dom().contains(k) implies a.pixels[k] == b.pixels[k] by {
        assert(k == (k.0, k.1));
        assert(a.pixels.dom().contains((k.0, k.1)) <==> a.contains(k.0, k.1));
        assert(a.at(k.0, k.1) == b.at(k.0, k.1));
    }
    assert(a.pixels =~= b.pixels);
}

/// A canvas of one colour.
pub open spec fn filled(width: int, height: int, c: Color) -> Picture {
    picture(width, height, |x: int, y: int| c)
}

/// The smaller of two integers.
pub open spec fn min_int(a: int, b: int) -> int {
    if a <= b {
        a
    } else {
        b
    }
}

/// The part of `p` that starts at `(x, y)` and spans at most `width` by
/// `height` pixels; origin and extent are clamped to the picture.
pub open spec fn cropped(p: Picture, x: int, y: int, width: int, height: int) -> Picture {
    let x0 = min_int(x, p.width);
    let y0 = min_int(y, p.height);
    let w0 = min_int(width, p.width - x0);
    let h0 = min_int(height, p.height - y0);
    picture(w0, h0, |i: int, j: int| p.at(x0 + i, y0 + j))
}

/// The pixel that `Pixel::blend` of the `image` crate, on RGBA pixels of
/// eight bits, leaves in `bottom` when `top` is neither fully opaque nor
/// fully transparent. It is computed there in floating point from the eight
/// channel values alone.
pub uninterp spec fn blended(bottom: Color, top: Color) -> Color;

/// Source-over compositing of one pixel: an opaque `top` replaces `bottom`,
/// a fully transparent one leaves it.
pub open spec fn blend(bottom: Color, top: Color) -> Color {
    if top.a == 0 {
        bottom
    } else if top.a == 255 {
        top
    } else {
        blended(bottom, top)
    }
}

/// `bottom` with `top` composited onto it, the top-left corner of `top` at
/// `(x, y)`; what falls outside `bottom` is dropped.
pub open spec fn overlaid(bottom: Picture, top: Picture, x: int, y: int) -> Picture {
    picture(
        bottom.width,
        bottom.height,
        |i: int, j: int|
            if top.contains(i - x, j - y) {
                blend(bottom.at(i, j), top.at(i - x, j - y))
            } else {
                bottom.at(i, j)
            },
    )
}

/// `p` with the rectangle at `(left, top)` of the given size painted in `c`,
/// as far as it lies inside `p`.
pub open spec fn with_rect(p: Picture, left: int, top: int, width: int, height: int, c: Color) -> Picture {
    picture(
        p.width,
        p.height,
        |i: int, j: int|
            if left <= i < left + width && top <= j < top + height {
                c
            } else {
                p.at(i, j)
            },
    )
}

} // verus!
