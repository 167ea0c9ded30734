//! The 64x32 monochrome frame buffer and the XOR sprite blit.
//!
//! Pixels are stored one byte each, row-major: pixel `(row, col)` lives at
//! index `row * 64 + col`.

use vstd::prelude::*;

verus! {

/// Width of the display in pixels.
pub const WIDTH: usize = 64;

/// Height of the display in pixels.
pub const HEIGHT: usize = 32;

/// Number of pixels, and of bytes in the frame buffer.
pub const DISPLAY_SIZE: usize = 2048;

/// Bit `c` of a sprite row, counting from the most significant (leftmost) bit.
pub open spec fn sprite_bit(byte: u8, c: int) -> bool {
    byte & (0x80u8 >> (c as u8)) != 0
}

/// The sprite row that lands on pixel `p` when the sprite's top edge is at
/// row `oy`, wrapping vertically.
pub open spec fn sprite_row(oy: int, p: int) -> int {
    (p / 64 - oy) % 32
}

/// The sprite column that lands on pixel `p` when the sprite's left edge is
/// at column `ox`, wrapping horizontally.
pub open spec fn sprite_col(ox: int, p: int) -> int {
    (p % 64 - ox) % 64
}

/// A set bit of `sprite`, drawn with its top-left corner at `(ox, oy)`,
/// lands on pixel `p`.
pub open spec fn covers(sprite: Seq<u8>, ox: int, oy: int, p: int) -> bool {
    &&& sprite_row(oy, p) < sprite.len()
    &&& sprite_col(ox, p) < 8
    &&& sprite_bit(sprite[sprite_row(oy, p)], sprite_col(ox, p))
}

/// The frame buffer after XOR-ing `sprite` onto it at `(ox, oy)`.
pub open spec fn drawn(display: Seq<u8>, sprite: Seq<u8>, ox: int, oy: int) -> Seq<u8> {
    Seq::new(
        display.len(),
        |p: int|
            if covers(sprite, ox, oy, p) {
                display[p] ^ 1u8
            } else {
                display[p]
            },
    )
}

/// Drawing `sprite` at `(ox, oy)` turns off at least one lit pixel.
pub open spec fn collides(display: Seq<u8>, sprite: Seq<u8>, ox: int, oy: int) -> bool {
    exists|p: int| 0 <= p < display.len() && covers(sprite, ox, oy, p) && display[p] == 1
}

/// Drawing `sprite` at `(ox, oy)` turns on at least one dark pixel.
pub open spec fn lights(display: Seq<u8>, sprite: Seq<u8>, ox: int, oy: int) -> bool {
    exists|p: int| 0 <= p < display.len() && covers(sprite, ox, oy, p) && display[p] == 0
}

/// The pixels that the blit has reached after rows `0..r` and, in row `r`,
/// columns `0..c`.
spec fn covered_before(sprite: Seq<u8>, ox: int, oy: int, p: int, r: int, c: int) -> bool {
    &&& covers(sprite, ox, oy, p)
    &&& (sprite_row(oy, p) < r || (sprite_row(oy, p) == r && sprite_col(ox, p) < c))
}

/// The pixel that sprite cell `(r, c)` lands on is the one whose sprite
/// coordinates are `(r, c)`, and every pixel is reached from its own
/// sprite coordinates.
proof fn lemma_target(ox: int, oy: int, r: int, c: int, p: int)
    requires
        0 <= ox < 64,
        0 <= oy < 32,
        0 <= r < 32,
        0 <= c < 64,
        0 <= p < 2048,
    ensures
        0 <= ((oy + r) % 32) * 64 + (ox + c) % 64 < 2048,
        sprite_row(oy, ((oy + r) % 32) * 64 + (ox + c) % 64) == r,
        sprite_col(ox, ((oy + r) % 32) * 64 + (ox + c) % 64) == c,
        (sprite_row(oy, p) == r && sprite_col(ox, p) == c) ==> p == ((oy + r) % 32) * 64 + (ox + c)
            % 64,
{
    let row = (oy + r) % 32;
    let col = (ox + c) % 64;
    assert(row == if oy + r < 32 { oy + r } else { oy + r - 32 });
    assert(col == if ox + c < 64 { ox + c } else { ox + c - 64 });
    let q = row * 64 + col;
    assert(q / 64 == row && q % 64 == col) by (nonlinear_arith)
        requires
            q == row * 64 + col,
            0 <= col < 64,
            0 <= row < 32,
    ;
    assert(p == (p / 64) * 64 + p % 64 && 0 <= p / 64 < 32 && 0 <= p % 64 < 64) by (nonlinear_arith)
        requires
            0 <= p < 2048,
    ;
}

/// XORs `sprite` onto `display` with its top-left corner at
/// `(vx mod 64, vy mod 32)`, wrapping at the edges, and reports whether a
/// lit pixel was turned off.
pub fn draw_sprite(display: &mut [u8; 2048], sprite: &[u8], vx: u8, vy: u8) -> (collision: bool)
    requires
        sprite@.len() <= 15,
    ensures
        final(display)@ == drawn(old(display)@, sprite@, vx as int % 64, vy as int % 32),
        collision == collides(old(display)@, sprite@, vx as int % 64, vy as int % 32),
{
    let ghost start = display@;
    let ghost ox_s: int = vx as int % 64;
    let ghost oy_s: int = vy as int % 32;
    let ox = (vx % 64) as usize;
    let oy = (vy % 32) as usize;
    let n = sprite.len();
    let mut collision = false;
    let mut r: usize = 0;
    while r < n
        invariant
            n == sprite@.len() <= 15,
            r <= n,
            ox == ox_s < 64,
            oy == oy_s < 32,
            forall|p: int|
                0 <= p < 2048 ==> #[trigger] display@[p] == if covered_before(
                    sprite@,
                    ox_s,
                    oy_s,
                    p,
                    r as int,
                    0,
                ) {
                    start[p] ^ 1u8
                } else {
                    start[p]
                },
            collision == exists|p: int|
                0 <= p < 2048 && covered_before(sprite@, ox_s, oy_s, p, r as int, 0) && start[p]
                    == 1,
        decreases n - r,
    {
        let byte = sprite[r];
        let mut c: usize = 0;
        while c < 8
            invariant
                n == sprite@.len() <= 15,
                r < n,
                c <= 8,
                byte == sprite@[r as int],
                ox == ox_s < 64,
                oy == oy_s < 32,
                forall|p: int|
                    0 <= p < 2048 ==> #[trigger] display@[p] == if covered_before(
                        sprite@,
                        ox_s,
                        oy_s,
                        p,
                        r as int,
                        c as int,
                    ) {
                        start[p] ^ 1u8
                    } else {
                        start[p]
                    },
                collision == exists|p: int|
                    0 <= p < 2048 && covered_before(sprite@, ox_s, oy_s, p, r as int, c as int)
                        && start[p] == 1,
            decreases 8 - c,
        {
            let target = ((oy + r) % 32) * 64 + (ox + c) % 64;
            proof {
                lemma_target(ox_s, oy_s, r as int, c as int, 0);
                assert forall|p: int| 0 <= p < 2048 && p != target implies !(sprite_row(oy_s, p)
                    == r && sprite_col(ox_s, p) == c) by {
                    lemma_target(ox_s, oy_s, r as int, c as int, p);
                }
            }
            if byte & (0x80u8 >> (c as u8)) != 0 {
                let pixel = display[target];
                if pixel == 1 {
                    proof {
                        assert(covered_before(sprite@, ox_s, oy_s, target as int, r as int, c + 1));
                    }
                    collision = true;
                }
                display[target] = pixel ^ 1;
            }
            c = c + 1;
        }
        proof {
            assert forall|p: int|
                0 <= p < 2048 implies covered_before(sprite@, ox_s, oy_s, p, r as int, 8)
                == covered_before(sprite@, ox_s, oy_s, p, r + 1, 0) by {}
        }
        r = r + 1;
    }
    proof {
        assert forall|p: int| 0 <= p < 2048 implies covered_before(sprite@, ox_s, oy_s, p, n as int, 0)
            == covers(sprite@, ox_s, oy_s, p) by {
            lemma_target(ox_s, oy_s, 0, 0, p);
        }
        assert(display@ =~= drawn(start, sprite@, ox_s, oy_s));
    }
    collision
}

} // verus!
