use vstd::prelude::*;
use crate::color::{background_color, white};
use crate::picture::{Picture, with_rect};
use crate::raster::Raster;

verus! {

/// One output raster with the index that names it.
#[derive(Debug)]
pub struct Frame {
    pub index: u32,
    pub image: Raster,
}

/// Where the reveal mask starts when `panels` of three panels are shown.
pub open spec fn reveal_start(width: int, panels: int) -> int {
    width * panels / 3
}

/// `p` with everything from `reveal_start` to the right edge masked in white.
pub open spec fn revealed(p: Picture, panels: int) -> Picture {
    with_rect(p, reveal_start(p.width, panels), 0, p.width, p.height, background_color())
}

/// A raster of this size can be masked: it is not empty, and the mask's
/// far edge stays within the signed 32-bit coordinates it is drawn in.
pub open spec fn can_reveal(width: int, height: int) -> bool {
    0 < width && 0 < height && width * 2 <= i32::MAX && height <= i32::MAX
}

/// Tells whether a raster of this size can be masked.
pub fn fits_reveal(width: u32, height: u32) -> (fits: bool)
    ensures
        fits == can_reveal(width as int, height as int),
{
    0 < width && 0 < height && width <= 0x3fff_ffff && height <= 0x7fff_ffff
}

/// The frame that shows one panel of three (`panels == 1`) or two
/// (`panels == 2`): the image with a white mask over the rest.
pub fn mask_unrevealed(image: &Raster, panels: u32) -> (out: Raster)
    requires
        image.wf(),
        can_reveal(image.width as int, image.height as int),
        panels == 1 || panels == 2,
    ensures
        out.wf(),
        out@ == revealed(image@, panels as int),
{
    let left: i32 = (image.width * panels / 3) as i32;
    image.fill_rect(left, 0, image.width, image.height, white())
}

/// The mask of the first frame starts left of the mask of the second, and
/// strictly so for every width of two or more.
pub proof fn lemma_reveal_order(width: int)
    requires
        0 <= width,
    ensures
        reveal_start(width, 1) <= reveal_start(width, 2),
        width >= 2 ==> reveal_start(width, 1) < reveal_start(width, 2),
{
}

/// The frame indices in the order in which the frames are emitted. The last
/// two frames share an index.
pub open spec fn frame_indices() -> Seq<u32> {
    seq![0u32, 1u32, 2u32, 3u32, 4u32, 4u32]
}

/// The pictures of the six frames: two reveal steps, the full image three
/// times, then the alternate image.
pub open spec fn frame_pictures(first: Picture, alternate: Picture) -> Seq<Picture> {
    seq![revealed(first, 1), revealed(first, 2), first, first, first, alternate]
}

/// The character of one decimal digit.
pub open spec fn digit_char(d: nat) -> char {
    ((48 + d) as u8) as char
}

/// The decimal digits of `n`, most significant first, without leading zeros.
pub open spec fn decimal(n: nat) -> Seq<char>
    decreases n,
{
    if n < 10 {
        seq![digit_char(n)]
    } else {
        decimal(n / 10).push(digit_char(n % 10))
    }
}

/// The name of a frame: the identifier, a hyphen, the index in decimal.
pub open spec fn frame_name_of(identifier: Seq<char>, index: nat) -> Seq<char> {
    identifier + seq!['-'] + decimal(index)
}

/// The name under which a frame of `identifier` is stored.
pub fn frame_name(identifier: &str, index: u32) -> (name: String)
    ensures
        name@ == frame_name_of(identifier@, index as nat),
{
    format_name(identifier, index)
}

/// Formats with `format!`, which writes a `&str` as it stands and a `u32`
/// through `Display`. Trusted: the result is the identifier, a hyphen, and
/// the index in decimal digits without sign or leading zeros.
#[verifier::external_body]
fn format_name(identifier: &str, index: u32) -> (name: String)
    ensures
        name@ == identifier@ + seq!['-'] + decimal(index as nat),
{
    format!("{identifier}-{index}")
}

/// Composes the frame sequence for one pair of normalized images.
pub fn compose_frames(esperanto: &Raster, english: &Raster) -> (frames: Vec<Frame>)
    requires
        esperanto.wf(),
        english.wf(),
        can_reveal(esperanto.width as int, esperanto.height as int),
    ensures
        frames@.len() == 6,
        forall|i: int|
            0 <= i < 6 ==> (#[trigger] frames@[i]).image.wf() && frames@[i].index
                == frame_indices()[i] && frames@[i].image@ == frame_pictures(
                esperanto@,
                english@,
            )[i],
{
    let mut frames: Vec<Frame> = Vec::new();
    frames.push(Frame { index: 0, image: mask_unrevealed(esperanto, 1) });
    frames.push(Frame { index: 1, image: mask_unrevealed(esperanto, 2) });
    frames.push(Frame { index: 2, image: esperanto.duplicate() });
    frames.push(Frame { index: 3, image: esperanto.duplicate() });
    frames.push(Frame { index: 4, image: esperanto.duplicate() });
    frames.push(Frame { index: 4, image: english.duplicate() });
    frames
}

} // verus!
