use vstd::prelude::*;
use crate::color::{is_background, is_white_enough};
use crate::picture::{Picture, cropped, lemma_picture_ext};
use crate::raster::Raster;

verus! {

/// The inclusive rectangle of coordinates from `(min_x, min_y)` to `(max_x, max_y)`.
#[derive(Clone, Copy, Debug, PartialEq, Eq, Structural)]
pub struct BoundingBox {
    pub min_x: u32,
    pub min_y: u32,
    pub max_x: u32,
    pub max_y: u32,
}

/// An inclusive rectangle of coordinates in a picture.
pub struct Region {
    pub min_x: int,
    pub min_y: int,
    pub max_x: int,
    pub max_y: int,
}

impl View for BoundingBox {
    type V = Region;

    open spec fn view(&self) -> Region {
        Region {
            min_x: self.min_x as int,
            min_y: self.min_y as int,
            max_x: self.max_x as int,
            max_y: self.max_y as int,
        }
    }
}

/// The pixel at `(x, y)` lies inside `p` and is not background.
pub open spec fn is_content(p: Picture, x: int, y: int) -> bool {
    p.contains(x, y) && !is_background(p.at(x, y))
}

/// Some pixel of `p` is not background.
pub open spec fn has_content(p: Picture) -> bool {
    exists|x: int, y: int| is_content(p, x, y)
}

/// `b` is the smallest rectangle that holds every content pixel of `p`: all
/// content lies inside it, and each of its four edges meets a content pixel.
pub open spec fn is_bounding_box(p: Picture, b: Region) -> bool {
    &&& forall|x: int, y: int| #[trigger]
        is_content(p, x, y) ==> b.min_x <= x <= b.max_x && b.min_y <= y <= b.max_y
    &&& exists|y: int| is_content(p, b.min_x, y)
    &&& exists|y: int| is_content(p, b.max_x, y)
    &&& exists|x: int| is_content(p, x, b.min_y)
    &&& exists|x: int| is_content(p, x, b.max_y)
}

/// The bounding box of the content of `p`, where there is content.
pub open spec fn content_box(p: Picture) -> Region {
    choose|b: Region| is_bounding_box(p, b)
}

/// `p` cropped to exactly the box `b`.
pub open spec fn cropped_to(p: Picture, b: Region) -> Picture {
    cropped(p, b.min_x, b.min_y, b.max_x - b.min_x + 1, b.max_y - b.min_y + 1)
}

/// `p` cropped to `b` on the left, at the top and at the bottom; the right
/// edge stays where it is.
pub open spec fn cropped_keeping_right(p: Picture, b: Region) -> Picture {
    cropped(p, b.min_x, b.min_y, p.width - b.min_x, b.max_y - b.min_y + 1)
}

/// `p` trimmed to its content on all four sides; unchanged without content.
pub open spec fn trimmed(p: Picture) -> Picture {
    if has_content(p) {
        cropped_to(p, content_box(p))
    } else {
        p
    }
}

/// `p` trimmed to its content on every side but the right; unchanged
/// without content.
pub open spec fn trimmed_except_right(p: Picture) -> Picture {
    if has_content(p) {
        cropped_keeping_right(p, content_box(p))
    } else {
        p
    }
}

/// A picture has at most one bounding box.
pub proof fn lemma_bounding_box_unique(p: Picture, a: Region, b: Region)
    requires
        is_bounding_box(p, a),
        is_bounding_box(p, b),
    ensures
        a == b,
{
    let ya = choose|y: int| is_content(p, a.min_x, y);
    let yb = choose|y: int| is_content(p, b.min_x, y);
    assert(is_content(p, a.min_x, ya) && is_content(p, b.min_x, yb));
    let ya2 = choose|y: int| is_content(p, a.max_x, y);
    let yb2 = choose|y: int| is_content(p, b.max_x, y);
    assert(is_content(p, a.max_x, ya2) && is_content(p, b.max_x, yb2));
    let xa = choose|x: int| is_content(p, x, a.min_y);
    let xb = choose|x: int| is_content(p, x, b.min_y);
    assert(is_content(p, xa, a.min_y) && is_content(p, xb, b.min_y));
    let xa2 = choose|x: int| is_content(p, x, a.max_y);
    let xb2 = choose|x: int| is_content(p, x, b.max_y);
    assert(is_content(p, xa2, a.max_y) && is_content(p, xb2, b.max_y));
}

/// The least index in `[lo, hi)` at which `f` holds.
proof fn lemma_least(f: spec_fn(int) -> bool, lo: int, hi: int) -> (m: int)
    requires
        exists|i: int| lo <= i < hi && #[trigger] f(i),
    ensures
        lo <= m < hi,
        f(m),
        forall|i: int| lo <= i < m ==> !#[trigger] f(i),
    decreases hi - lo,
{
    if f(lo) {
        lo
    } else {
        let w = choose|i: int| lo <= i < hi && #[trigger] f(i);
        assert(lo + 1 <= w < hi && f(w));
        lemma_least(f, lo + 1, hi)
    }
}

/// The greatest index in `[lo, hi)` at which `f` holds.
proof fn lemma_greatest(f: spec_fn(int) -> bool, lo: int, hi: int) -> (m: int)
    requires
        exists|i: int| lo <= i < hi && #[trigger] f(i),
    ensures
        lo <= m < hi,
        f(m),
        forall|i: int| m < i < hi ==> !#[trigger] f(i),
    decreases hi - lo,
{
    if f(hi - 1) {
        hi - 1
    } else {
        let w = choose|i: int| lo <= i < hi && #[trigger] f(i);
        assert(lo <= w < hi - 1 && f(w));
        lemma_greatest(f, lo, hi - 1)
    }
}

/// A picture with content has a bounding box, and `content_box` is it.
pub proof fn lemma_bounding_box_exists(p: Picture)
    requires
        has_content(p),
    ensures
        is_bounding_box(p, content_box(p)),
{
    let col = |x: int| exists|y: int| is_content(p, x, y);
    let row = |y: int| exists|x: int| is_content(p, x, y);
    let (x0, y0) = choose|x: int, y: int| is_content(p, x, y);
    assert(is_content(p, x0, y0));
    assert(0 <= x0 < p.width && col(x0));
    assert(0 <= y0 < p.height && row(y0));
    let min_x = lemma_least(col, 0, p.width);
    let max_x = lemma_greatest(col, 0, p.width);
    let min_y = lemma_least(row, 0, p.height);
    let max_y = lemma_greatest(row, 0, p.height);
    let b = Region { min_x, min_y, max_x, max_y };
    assert forall|x: int, y: int| #[trigger] is_content(p, x, y) implies b.min_x <= x <= b.max_x
        && b.min_y <= y <= b.max_y by {
        assert(col(x));
        assert(row(y));
    }
    assert(is_bounding_box(p, b));
}

/// Trimming on all sides is idempotent: a trimmed picture trims to itself.
pub proof fn lemma_trim_idempotent(p: Picture)
    ensures
        trimmed(trimmed(p)) == trimmed(p),
{
    if has_content(p) {
        lemma_bounding_box_exists(p);
        let b = content_box(p);
        let q = cropped_to(p, b);
        let y_left = choose|y: int| is_content(p, b.min_x, y);
        let y_right = choose|y: int| is_content(p, b.max_x, y);
        let x_top = choose|x: int| is_content(p, x, b.min_y);
        let x_bottom = choose|x: int| is_content(p, x, b.max_y);
        assert(is_content(p, b.min_x, y_left) && is_content(p, b.max_x, y_right));
        assert(is_content(p, x_top, b.min_y) && is_content(p, x_bottom, b.max_y));
        assert(q.width == b.max_x - b.min_x + 1 && q.height == b.max_y - b.min_y + 1);
        assert forall|i: int, j: int| q.contains(i, j) implies #[trigger] q.at(i, j) == p.at(
            b.min_x + i,
            b.min_y + j,
        ) by {}
        let full = Region { min_x: 0, min_y: 0, max_x: q.width - 1, max_y: q.height - 1 };
        assert(is_content(q, full.min_x, y_left - b.min_y));
        assert(is_content(q, full.max_x, y_right - b.min_y));
        assert(is_content(q, x_top - b.min_x, full.min_y));
        assert(is_content(q, x_bottom - b.min_x, full.max_y));
        assert(is_bounding_box(q, full));
        assert(has_content(q));
        lemma_bounding_box_exists(q);
        lemma_bounding_box_unique(q, full, content_box(q));
        lemma_picture_ext(cropped_to(q, full), q);
    }
}

/// Trimming never enlarges a picture, under either policy.
pub proof fn lemma_trimmed_within(p: Picture)
    requires
        0 <= p.width,
        0 <= p.height,
    ensures
        0 <= trimmed(p).width <= p.width,
        0 <= trimmed(p).height <= p.height,
        0 <= trimmed_except_right(p).width <= p.width,
        0 <= trimmed_except_right(p).height <= p.height,
{
    if has_content(p) {
        lemma_bounding_box_exists(p);
        let b = content_box(p);
        let y_left = choose|y: int| is_content(p, b.min_x, y);
        let y_right = choose|y: int| is_content(p, b.max_x, y);
        let x_top = choose|x: int| is_content(p, x, b.min_y);
        let x_bottom = choose|x: int| is_content(p, x, b.max_y);
        assert(is_content(p, b.min_x, y_left) && is_content(p, b.max_x, y_right));
        assert(is_content(p, x_top, b.min_y) && is_content(p, x_bottom, b.max_y));
    }
}

/// Scans every pixel and returns the bounding box of the content, or `None`
/// where every pixel is background.
pub fn content_bounds(image: &Raster) -> (found: Option<BoundingBox>)
    requires
        image.wf(),
    ensures
        found.is_none() <==> !has_content(image@),
        found matches Some(b) ==> is_bounding_box(image@, b@) && b@ == content_box(image@),
{
    let width: u32 = image.width;
    let height: u32 = image.height;
    let mut any: bool = false;
    let mut min_x: u32 = width;
    let mut min_y: u32 = height;
    let mut max_x: u32 = 0;
    let mut max_y: u32 = 0;
    let ghost mut at_min_x: int = 0;
    let ghost mut at_max_x: int = 0;
    let ghost mut at_min_y: int = 0;
    let ghost mut at_max_y: int = 0;
    let ghost p = image@;
    let mut y: u32 = 0;
    while y < height
        invariant
            image.wf(),
            p == image@,
            width == image.width,
            height == image.height,
            y <= height,
            forall|i: int, j: int| #[trigger]
                is_content(p, i, j) && j < y ==> any && min_x <= i <= max_x && min_y <= j <= max_y,
            any ==> is_content(p, min_x as int, at_min_x) && is_content(p, max_x as int, at_max_x)
                && is_content(p, at_min_y, min_y as int) && is_content(p, at_max_y, max_y as int),
        decreases height - y,
    {
        let mut x: u32 = 0;
        while x < width
            invariant
                image.wf(),
                p == image@,
                width == image.width,
                height == image.height,
                y < height,
                x <= width,
                forall|i: int, j: int| #[trigger]
                    is_content(p, i, j) && (j < y || (j == y && i < x)) ==> any && min_x <= i
                        <= max_x && min_y <= j <= max_y,
                any ==> is_content(p, min_x as int, at_min_x) && is_content(
                    p,
                    max_x as int,
                    at_max_x,
                ) && is_content(p, at_min_y, min_y as int) && is_content(
                    p,
                    at_max_y,
                    max_y as int,
                ),
            decreases width - x,
        {
            let pixel = image.get_pixel(x, y);
            if !is_white_enough(pixel) {
                assert(is_content(p, x as int, y as int));
                if !any || x < min_x {
                    min_x = x;
                    proof {
                        at_min_x = y as int;
                    }
                }
                if !any || x > max_x {
                    max_x = x;
                    proof {
                        at_max_x = y as int;
                    }
                }
                if !any || y < min_y {
                    min_y = y;
                    proof {
                        at_min_y = x as int;
                    }
                }
                if !any || y > max_y {
                    max_y = y;
                    proof {
                        at_max_y = x as int;
                    }
                }
                any = true;
            }
            x += 1;
        }
        y += 1;
    }
    if any {
        let b = BoundingBox { min_x, min_y, max_x, max_y };
        proof {
            assert(is_content(p, b@.min_x, at_min_x));
            assert(is_content(p, b@.max_x, at_max_x));
            assert(is_content(p, at_min_y, b@.min_y));
            assert(is_content(p, at_max_y, b@.max_y));
            assert(is_bounding_box(p, b@));
            assert(has_content(p));
            lemma_bounding_box_unique(p, b@, content_box(p));
        }
        Some(b)
    } else {
        None
    }
}

/// Crops the raster to the bounding box of its content; a raster without
/// content comes back unchanged.
pub fn remove_padding(image: Raster) -> (out: Raster)
    requires
        image.wf(),
    ensures
        out.wf(),
        out@ == trimmed(image@),
        !has_content(image@) ==> out == image,
        trimmed(out@) == out@,
{
    proof {
        lemma_trim_idempotent(image@);
    }
    match content_bounds(&image) {
        Some(b) => image.crop(b.min_x, b.min_y, b.max_x - b.min_x + 1, b.max_y - b.min_y + 1),
        None => image,
    }
}

/// Crops the raster to its content on the left, at the top and at the bottom,
/// and keeps its right edge; a raster without content comes back unchanged.
pub fn remove_padding_except_right(image: Raster) -> (out: Raster)
    requires
        image.wf(),
    ensures
        out.wf(),
        out@ == trimmed_except_right(image@),
        !has_content(image@) ==> out == image,
{
    match content_bounds(&image) {
        Some(b) => image.crop(b.min_x, b.min_y, image.width - b.min_x, b.max_y - b.min_y + 1),
        None => image,
    }
}

} // verus!
