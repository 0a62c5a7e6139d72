//! Recolouring of the tray icon: a dark icon becomes a light one.

use vstd::prelude::*;

verus! {

/// Whether the byte at `index` of an RGBA image is a colour byte of a
/// whole pixel: not an alpha byte, and not part of a cut-off pixel at the
/// end.
pub open spec fn is_colour_byte(len: int, index: int) -> bool {
    &&& 0 <= index < len
    &&& index % 4 != 3
    &&& index - index % 4 + 4 <= len
}

/// An RGBA image with the colours of every whole pixel inverted and its
/// alpha left as it is.
pub open spec fn inverted(rgba: Seq<u8>) -> Seq<u8> {
    Seq::new(
        rgba.len(),
        |i: int|
            if is_colour_byte(rgba.len() as int, i) {
                (255 - rgba[i]) as u8
            } else {
                rgba[i]
            },
    )
}

/// Inverts the red, green and blue of every whole pixel of an RGBA image
/// and keeps its alpha.
pub fn invert_colors(rgba: &mut Vec<u8>)
    ensures
        final(rgba)@ == inverted(old(rgba)@),
{
    let len = rgba.len();
    let mut start: usize = 0;
    while len - start >= 4
        invariant
            start <= len,
            start % 4 == 0,
            rgba@.len() == len,
            len == old(rgba)@.len(),
            forall|i: int| 0 <= i < start ==> rgba@[i] == inverted(old(rgba)@)[i],
            forall|i: int| start <= i < len ==> rgba@[i] == old(rgba)@[i],
        decreases len - start,
    {
        let red = rgba[start];
        let green = rgba[start + 1];
        let blue = rgba[start + 2];
        rgba[start] = 255 - red;
        rgba[start + 1] = 255 - green;
        rgba[start + 2] = 255 - blue;
        start += 4;
    }
    assert(rgba@ =~= inverted(old(rgba)@));
}

} // verus!
