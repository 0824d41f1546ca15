//! The grid as text: one glyph per cell, one line per row.

use crate::rules::alive_at;
use vstd::prelude::*;

verus! {

/// `String::push`: appends one character to the end of the string.
pub assume_specification[ String::push ](text: &mut String, ch: char)
    ensures
        final(text)@ == old(text)@.push(ch),
;

/// The glyph of a cell: a filled square when alive, a hollow one when dead.
pub open spec fn glyph(alive: bool) -> char {
    if alive {
        '\u{25FC}'
    } else {
        '\u{25FB}'
    }
}

/// The text of a generation: for each row, top to bottom, the glyphs of its
/// cells from left to right and then a line feed.
pub open spec fn rendering(cells: Seq<bool>, width: int, height: int) -> Seq<char> {
    Seq::new(
        (height * (width + 1)) as nat,
        |i: int|
            if i % (width + 1) == width {
                '\n'
            } else {
                glyph(alive_at(cells, width, i / (width + 1), i % (width + 1)))
            },
    )
}

/// The glyph of a cell.
pub fn glyph_of(alive: bool) -> (ch: char)
    ensures
        ch == glyph(alive),
{
    if alive {
        '\u{25FC}'
    } else {
        '\u{25FB}'
    }
}

} // verus!
