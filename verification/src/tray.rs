//! What the status display shows.
//!
//! The display lags behind: of the colors reported while it was busy only
//! the newest is shown. Its icon is a picture in which every pixel takes
//! the applied color and keeps its own opacity.

use crate::color::Color;
use vstd::prelude::*;

verus! {

/// The color to show when several were reported: the newest, or nothing
/// when none was reported.
pub open spec fn newest(pending: Seq<Color>) -> Option<Color> {
    if pending.len() == 0 {
        None
    } else {
        Some(pending.last())
    }
}

/// Picks the color to show from those reported since the display last
/// looked, oldest first. All but the newest are dropped.
pub fn latest_color(pending: &Vec<Color>) -> (shown: Option<Color>)
    ensures
        shown == newest(pending@),
{
    if pending.len() == 0 {
        None
    } else {
        Some(pending[pending.len() - 1])
    }
}

/// A picture of four bytes per pixel, red, green, blue and opacity, with
/// every pixel recolored and its opacity kept. Bytes after the last whole
/// pixel are dropped.
pub open spec fn tinted(pixels: Seq<u8>, color: Color) -> Seq<u8> {
    Seq::new(
        (4 * (pixels.len() / 4)) as nat,
        |i: int|
            if i % 4 == 0 {
                color.r
            } else if i % 4 == 1 {
                color.g
            } else if i % 4 == 2 {
                color.b
            } else {
                pixels[i]
            },
    )
}

/// Recolors a picture of four bytes per pixel: every pixel takes the color
/// and keeps its opacity.
pub fn tint_pixels(pixels: &[u8], color: Color) -> (out: Vec<u8>)
    ensures
        out@ == tinted(pixels@, color),
{
    let count = pixels.len() / 4;
    let mut out: Vec<u8> = Vec::new();
    let mut p: usize = 0;
    while p < count
        invariant
            count == pixels@.len() / 4,
            pixels@.len() <= usize::MAX,
            p <= count,
            out@.len() == 4 * p,
            forall|i: int| 0 <= i < 4 * p ==> out@[i] == #[trigger] tinted(pixels@, color)[i],
        decreases count - p,
    {
        assert(4 * p + 3 < pixels@.len());
        let alpha = pixels[4 * p + 3];
        out.push(color.r);
        out.push(color.g);
        out.push(color.b);
        out.push(alpha);
        p = p + 1;
    }
    assert(out@ =~= tinted(pixels@, color));
    out
}

} // verus!
