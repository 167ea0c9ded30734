//! Conversion of the frame buffer into RGBA pixels for presentation.

use vstd::prelude::*;
use crate::args::Rgb;

verus! {

/// Byte `k` (0 red, 1 green, 2 blue, 3 alpha) of the RGBA pixel that shows
/// a pixel of value `pixel`: the foreground colour for a lit pixel, the
/// background colour otherwise, always opaque.
pub open spec fn rgba_byte(pixel: u8, fg: Rgb, bg: Rgb, k: int) -> u8 {
    let c = if pixel == 1 {
        fg
    } else {
        bg
    };
    if k == 0 {
        c.r
    } else if k == 1 {
        c.g
    } else if k == 2 {
        c.b
    } else {
        0xff
    }
}

/// Fills `frame`, four bytes per pixel in the display's row-major order,
/// with the colours of the display's pixels. A frame holds at most the
/// 2048 pixels of the display; trailing bytes short of a whole pixel are
/// left as they are.
pub fn render_texture_to_target(dispmem: &[u8; 2048], frame: &mut [u8], fg: &Rgb, bg: &Rgb)
    requires
        old(frame)@.len() <= 8192,
    ensures
        final(frame)@.len() == old(frame)@.len(),
        forall|i: int|
            0 <= i < final(frame)@.len() ==> #[trigger] final(frame)@[i] == if i < old(frame)@.len()
                / 4 * 4 {
                rgba_byte(dispmem@[i / 4], *fg, *bg, i % 4)
            } else {
                old(frame)@[i]
            },
{
    let ghost start = frame@;
    let pixels = frame.len() / 4;
    let mut p: usize = 0;
    while p < pixels
        invariant
            pixels == start.len() / 4,
            start.len() <= 8192,
            p <= pixels,
            frame@.len() == start.len(),
            forall|i: int|
                0 <= i < frame@.len() ==> #[trigger] frame@[i] == if i < p * 4 {
                    rgba_byte(dispmem@[i / 4], *fg, *bg, i % 4)
                } else {
                    start[i]
                },
        decreases pixels - p,
    {
        let c = if dispmem[p] == 1 { *fg } else { *bg };
        let base = p * 4;
        frame[base] = c.r;
        frame[base + 1] = c.g;
        frame[base + 2] = c.b;
        frame[base + 3] = 0xff;
        p = p + 1;
    }
}

} // verus!
