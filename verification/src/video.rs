//! The screen as text for a terminal.

use crate::model::HEIGHT;
use crate::model::WIDTH;
use vstd::arithmetic::div_mod::lemma_fundamental_div_mod_converse;
use vstd::prelude::*;

verus! {

/// Characters in the text of a frame: the sequence that sends the cursor
/// home, then 32 lines of 64 pixels and a line feed.
pub const FRAME_CHARS: usize = 2086;

/// The escape sequence that sends the cursor of a terminal to its top left
/// corner.
pub open spec fn cursor_home() -> Seq<char> {
    seq!['\u{1b}', '[', '1', ';', '1', 'H']
}

/// The text that shows a frame: the cursor is sent home, then each row of
/// the screen makes one line, a full block for a pixel that is on and a
/// space for one that is off.
pub open spec fn frame_text(gfx: Seq<u8>) -> Seq<char> {
    Seq::new(
        FRAME_CHARS as nat,
        |k: int|
            if k < 6 {
                cursor_home()[k]
            } else if (k - 6) % 65 == 64 {
                '\n'
            } else if gfx[(k - 6) / 65 * 64 + (k - 6) % 65] == 1 {
                '\u{2588}'
            } else {
                ' '
            },
    )
}

/// Renders the screen as text for a terminal.
pub fn render(gfx: &[u8]) -> (text: Vec<char>)
    requires
        gfx@.len() >= WIDTH * HEIGHT,
    ensures
        text@ == frame_text(gfx@),
{
    let mut text: Vec<char> = Vec::new();
    text.push('\u{1b}');
    text.push('[');
    text.push('1');
    text.push(';');
    text.push('1');
    text.push('H');
    let mut y: usize = 0;
    while y < HEIGHT
        invariant
            y <= HEIGHT,
            gfx@.len() >= WIDTH * HEIGHT,
            text@.len() == 6 + y * 65,
            forall|k: int| 0 <= k < text@.len() ==> text@[k] == frame_text(gfx@)[k],
        decreases HEIGHT - y,
    {
        let mut x: usize = 0;
        while x < WIDTH
            invariant
                y < HEIGHT,
                x <= WIDTH,
                gfx@.len() >= WIDTH * HEIGHT,
                text@.len() == 6 + y * 65 + x,
                forall|k: int| 0 <= k < text@.len() ==> text@[k] == frame_text(gfx@)[k],
            decreases WIDTH - x,
        {
            let ghost k = text@.len() as int;
            assert((k - 6) % 65 == x && (k - 6) / 65 == y) by {
                lemma_fundamental_div_mod_converse(k - 6, 65, y as int, x as int);
            }
            text.push(
                if gfx[y * WIDTH + x] == 1 {
                    '\u{2588}'
                } else {
                    ' '
                },
            );
            x += 1;
        }
        let ghost k = text@.len() as int;
        assert((k - 6) % 65 == 64) by {
            lemma_fundamental_div_mod_converse(k - 6, 65, y as int, 64);
        }
        text.push('\n');
        y += 1;
    }
    assert(text@ =~= frame_text(gfx@));
    text
}

} // verus!
