//! Sprites on the screen.
//!
//! A sprite is up to fifteen rows of eight pixels, one byte a row, the
//! leftmost pixel in the highest bit. It is drawn with its top left corner
//! at a column and a row given by two registers. A pixel of the sprite that
//! would fall beyond the right or the lower edge of the screen comes back
//! in at the opposite edge: columns count modulo 64, rows modulo 32.

use vstd::arithmetic::div_mod::lemma_fundamental_div_mod_converse;
use vstd::prelude::*;

verus! {

/// Whether the sprite has a pixel at (`row`, `col`).
pub open spec fn sprite_bit(sprite: Seq<u8>, row: int, col: int) -> bool {
    &&& 0 <= row < sprite.len()
    &&& 0 <= col < 8
    &&& sprite[row] & (0x80u8 >> (col as u8)) != 0
}

/// The row of the sprite that falls on the screen pixel `p`, the sprite's
/// top being at screen row `py`.
pub open spec fn sprite_row(py: int, p: int) -> int {
    (p / 64 - py) % 32
}

/// The column of the sprite that falls on the screen pixel `p`, the
/// sprite's left being at screen column `px`.
pub open spec fn sprite_col(px: int, p: int) -> int {
    (p % 64 - px) % 64
}

/// The screen pixel on which (`row`, `col`) of a sprite at (`px`, `py`)
/// falls.
pub open spec fn target(px: int, py: int, row: int, col: int) -> int {
    (px + col) % 64 + ((py + row) % 32) * 64
}

/// Whether a pixel of the sprite at (`px`, `py`) falls on the screen pixel
/// `p`.
pub open spec fn covers(sprite: Seq<u8>, px: int, py: int, p: int) -> bool {
    sprite_bit(sprite, sprite_row(py, p), sprite_col(px, p))
}

/// The screen after the sprite is drawn at (`px`, `py`): every pixel that
/// the sprite covers is flipped, every other pixel is as before.
pub open spec fn draw_gfx(gfx: Seq<u8>, sprite: Seq<u8>, px: int, py: int) -> Seq<u8> {
    Seq::new(
        gfx.len(),
        |p: int|
            if covers(sprite, px, py, p) {
                (1 - gfx[p]) as u8
            } else {
                gfx[p]
            },
    )
}

/// Whether drawing the sprite at (`px`, `py`) turns off a pixel that was
/// on.
pub open spec fn collides(gfx: Seq<u8>, sprite: Seq<u8>, px: int, py: int) -> bool {
    exists|p: int| 0 <= p < gfx.len() && #[trigger] covers(sprite, px, py, p) && gfx[p] == 1
}

/// The sprite of `height` rows that starts at `memory[start]`.
pub open spec fn sprite_at(memory: Seq<u8>, start: int, height: int) -> Seq<u8> {
    Seq::new(height as nat, |row: int| memory[start + row])
}

/// Whether a pixel of the sprite falls on the screen pixel `p` and lies
/// before (`row`, `col`) in the order in which a sprite is drawn: row by
/// row from the top, each row from the left.
spec fn covers_before(
    sprite: Seq<u8>,
    px: int,
    py: int,
    row: int,
    col: int,
    p: int,
) -> bool {
    &&& covers(sprite, px, py, p)
    &&& sprite_row(py, p) < row || (sprite_row(py, p) == row && sprite_col(px, p) < col)
}

/// The pixel (`row`, `col`) of a sprite falls on one pixel of the screen,
/// and on that pixel no other pixel of the sprite falls.
pub proof fn lemma_target(px: int, py: int, row: int, col: int)
    requires
        0 <= px < 256,
        0 <= py < 256,
        0 <= row < 32,
        0 <= col < 64,
    ensures
        0 <= target(px, py, row, col) < 2048,
        sprite_row(py, target(px, py, row, col)) == row,
        sprite_col(px, target(px, py, row, col)) == col,
        forall|p: int|
            0 <= p < 2048 && #[trigger] sprite_row(py, p) == row && sprite_col(px, p) == col ==> p
                == target(px, py, row, col),
{
    let a = (px + col) % 64;
    let b = (py + row) % 32;
    let t = target(px, py, row, col);
    lemma_fundamental_div_mod_converse(t, 64, b, a);
    lemma_fundamental_div_mod_converse(a - px, 64, -((px + col) / 64), col);
    lemma_fundamental_div_mod_converse(b - py, 32, -((py + row) / 32), row);
    assert forall|p: int|
        0 <= p < 2048 && #[trigger] sprite_row(py, p) == row && sprite_col(px, p) == col implies p
        == t by {
        let u = p % 64;
        let w = p / 64;
        lemma_fundamental_div_mod_converse(px + col, 64, -((u - px) / 64), u);
        lemma_fundamental_div_mod_converse(py + row, 32, -((w - py) / 32), w);
    }
}

/// The screen while a sprite is being drawn: the pixels of the sprite
/// before (`row`, `col`) are on it, the others are still to come.
spec fn drawn_before(
    gfx: Seq<u8>,
    sprite: Seq<u8>,
    px: int,
    py: int,
    row: int,
    col: int,
) -> Seq<u8> {
    Seq::new(
        gfx.len(),
        |p: int|
            if covers_before(sprite, px, py, row, col, p) {
                (1 - gfx[p]) as u8
            } else {
                gfx[p]
            },
    )
}

/// Whether one of the pixels of the sprite before (`row`, `col`) turns off
/// a pixel that was on.
spec fn collides_before(
    gfx: Seq<u8>,
    sprite: Seq<u8>,
    px: int,
    py: int,
    row: int,
    col: int,
) -> bool {
    exists|p: int|
        0 <= p < gfx.len() && #[trigger] covers_before(sprite, px, py, row, col, p) && gfx[p] == 1
}

/// Before the first pixel of the sprite nothing is drawn.
proof fn lemma_draw_start(gfx: Seq<u8>, sprite: Seq<u8>, px: int, py: int)
    requires
        gfx.len() == 2048,
        0 <= px < 256,
        0 <= py < 256,
    ensures
        drawn_before(gfx, sprite, px, py, 0, 0) == gfx,
        !collides_before(gfx, sprite, px, py, 0, 0),
{
    assert(drawn_before(gfx, sprite, px, py, 0, 0) =~= gfx);
}

/// One pixel of the sprite: if it is set, the screen pixel on which it
/// falls is flipped, and it collides if that pixel was on. That pixel has
/// not been touched before.
proof fn lemma_draw_pixel(gfx: Seq<u8>, sprite: Seq<u8>, px: int, py: int, row: int, col: int)
    requires
        gfx.len() == 2048,
        0 <= px < 256,
        0 <= py < 256,
        0 <= row < sprite.len() <= 32,
        0 <= col < 8,
    ensures
        ({
            let t = target(px, py, row, col);
            let lit = sprite_bit(sprite, row, col);
            let so_far = drawn_before(gfx, sprite, px, py, row, col);
            &&& 0 <= t < 2048
            &&& so_far[t] == gfx[t]
            &&& drawn_before(gfx, sprite, px, py, row, col + 1) == if lit {
                so_far.update(t, (1 - gfx[t]) as u8)
            } else {
                so_far
            }
            &&& collides_before(gfx, sprite, px, py, row, col + 1) == (collides_before(
                gfx,
                sprite,
                px,
                py,
                row,
                col,
            ) || (lit && gfx[t] == 1))
        }),
{
    lemma_target(px, py, row, col);
    let t = target(px, py, row, col);
    let lit = sprite_bit(sprite, row, col);
    let so_far = drawn_before(gfx, sprite, px, py, row, col);
    assert forall|p: int| 0 <= p < 2048 implies (#[trigger] covers_before(
        sprite,
        px,
        py,
        row,
        col + 1,
        p,
    ) <==> covers_before(sprite, px, py, row, col, p) || (p == t && lit)) by {}
    assert(drawn_before(gfx, sprite, px, py, row, col + 1) =~= if lit {
        so_far.update(t, (1 - gfx[t]) as u8)
    } else {
        so_far
    });
    if collides_before(gfx, sprite, px, py, row, col) {
        let w = choose|p: int|
            0 <= p < 2048 && #[trigger] covers_before(sprite, px, py, row, col, p) && gfx[p] == 1;
        assert(covers_before(sprite, px, py, row, col + 1, w));
    }
    if lit && gfx[t] == 1 {
        assert(covers_before(sprite, px, py, row, col + 1, t));
    }
    if collides_before(gfx, sprite, px, py, row, col + 1) {
        let w = choose|p: int|
            0 <= p < 2048 && #[trigger] covers_before(sprite, px, py, row, col + 1, p) && gfx[p]
                == 1;
        assert(covers_before(sprite, px, py, row, col, w) || (w == t && lit));
    }
}

/// The end of one row is the start of the next.
proof fn lemma_draw_row_end(gfx: Seq<u8>, sprite: Seq<u8>, px: int, py: int, row: int)
    requires
        gfx.len() == 2048,
    ensures
        drawn_before(gfx, sprite, px, py, row, 8) == drawn_before(gfx, sprite, px, py, row + 1, 0),
        collides_before(gfx, sprite, px, py, row, 8) == collides_before(
            gfx,
            sprite,
            px,
            py,
            row + 1,
            0,
        ),
{
    assert forall|p: int| 0 <= p < 2048 implies (#[trigger] covers_before(
        sprite,
        px,
        py,
        row,
        8,
        p,
    ) <==> covers_before(sprite, px, py, row + 1, 0, p)) by {}
    assert(drawn_before(gfx, sprite, px, py, row, 8) =~= drawn_before(
        gfx,
        sprite,
        px,
        py,
        row + 1,
        0,
    ));
    if collides_before(gfx, sprite, px, py, row, 8) {
        let w = choose|p: int|
            0 <= p < 2048 && #[trigger] covers_before(sprite, px, py, row, 8, p) && gfx[p] == 1;
        assert(covers_before(sprite, px, py, row + 1, 0, w));
    }
    if collides_before(gfx, sprite, px, py, row + 1, 0) {
        let w = choose|p: int|
            0 <= p < 2048 && #[trigger] covers_before(sprite, px, py, row + 1, 0, p) && gfx[p]
                == 1;
        assert(covers_before(sprite, px, py, row, 8, w));
    }
}

/// After the last row the whole sprite is drawn.
proof fn lemma_draw_end(gfx: Seq<u8>, sprite: Seq<u8>, px: int, py: int)
    requires
        gfx.len() == 2048,
    ensures
        drawn_before(gfx, sprite, px, py, sprite.len() as int, 0) == draw_gfx(gfx, sprite, px, py),
        collides_before(gfx, sprite, px, py, sprite.len() as int, 0) == collides(
            gfx,
            sprite,
            px,
            py,
        ),
{
    let h = sprite.len() as int;
    assert forall|p: int| 0 <= p < 2048 implies (#[trigger] covers_before(
        sprite,
        px,
        py,
        h,
        0,
        p,
    ) <==> covers(sprite, px, py, p)) by {}
    assert(drawn_before(gfx, sprite, px, py, h, 0) =~= draw_gfx(gfx, sprite, px, py));
    if collides_before(gfx, sprite, px, py, h, 0) {
        let w = choose|p: int|
            0 <= p < 2048 && #[trigger] covers_before(sprite, px, py, h, 0, p) && gfx[p] == 1;
        assert(covers(sprite, px, py, w));
    }
    if collides(gfx, sprite, px, py) {
        let w = choose|p: int| 0 <= p < 2048 && #[trigger] covers(sprite, px, py, p) && gfx[p] == 1;
        assert(covers_before(sprite, px, py, h, 0, w));
    }
}

/// Draws the `height` rows of the sprite that starts at `memory[start]`
/// with its top left corner at column `px` and row `py`, and tells whether
/// a pixel that was on went off.
pub fn draw_sprite(
    gfx: &mut Vec<u8>,
    memory: &Vec<u8>,
    start: usize,
    height: u8,
    px: u8,
    py: u8,
) -> (collision: bool)
    requires
        old(gfx)@.len() == 2048,
        forall|p: int| 0 <= p < 2048 ==> #[trigger] old(gfx)@[p] <= 1,
        height <= 32,
        height > 0 ==> start + height <= memory@.len(),
    ensures
        final(gfx)@ == draw_gfx(
            old(gfx)@,
            sprite_at(memory@, start as int, height as int),
            px as int,
            py as int,
        ),
        collision == collides(
            old(gfx)@,
            sprite_at(memory@, start as int, height as int),
            px as int,
            py as int,
        ),
        forall|p: int| 0 <= p < 2048 ==> #[trigger] final(gfx)@[p] <= 1,
{
    let ghost before = gfx@;
    let ghost sprite = sprite_at(memory@, start as int, height as int);
    let mut collision = false;
    let mut row: u8 = 0;
    proof {
        lemma_draw_start(before, sprite, px as int, py as int);
    }
    while row < height
        invariant
            row <= height <= 32,
            height > 0 ==> start + height <= memory@.len(),
            sprite == sprite_at(memory@, start as int, height as int),
            before.len() == 2048,
            forall|p: int| 0 <= p < 2048 ==> #[trigger] before[p] <= 1,
            gfx@ == drawn_before(before, sprite, px as int, py as int, row as int, 0),
            collision == collides_before(before, sprite, px as int, py as int, row as int, 0),
        decreases height - row,
    {
        assert(start + height <= usize::MAX) by {
            assert(memory@.len() == memory.len());
        }
        let pixel: u8 = memory[start + row as usize];
        let mut col: u8 = 0;
        while col < 8
            invariant
                row < height <= 32,
                col <= 8,
                sprite == sprite_at(memory@, start as int, height as int),
                pixel == sprite[row as int],
                before.len() == 2048,
                forall|p: int| 0 <= p < 2048 ==> #[trigger] before[p] <= 1,
                gfx@ == drawn_before(before, sprite, px as int, py as int, row as int, col as int),
                collision == collides_before(
                    before,
                    sprite,
                    px as int,
                    py as int,
                    row as int,
                    col as int,
                ),
            decreases 8 - col,
        {
            proof {
                lemma_draw_pixel(before, sprite, px as int, py as int, row as int, col as int);
            }
            let t: usize = (px as usize + col as usize) % 64 + ((py as usize + row as usize) % 32)
                * 64;
            if pixel & (0x80u8 >> col) != 0 {
                let was: u8 = gfx[t];
                assert(was ^ 1 == 1 - was) by (bit_vector)
                    requires
                        was <= 1,
                ;
                if was == 1 {
                    collision = true;
                }
                gfx[t] = was ^ 1;
            }
            col += 1;
        }
        proof {
            lemma_draw_row_end(before, sprite, px as int, py as int, row as int);
        }
        row += 1;
    }
    proof {
        lemma_draw_end(before, sprite, px as int, py as int);
    }
    collision
}

} // verus!
