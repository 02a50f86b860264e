use vstd::prelude::*;
use crate::cell::Cell;

verus! {

/// The foreground color a glyph is drawn in.
#[derive(Clone, Copy, Debug, PartialEq, Eq, Structural)]
pub enum GlyphColor {
    Normal,
    Red,
    Cyan,
}

/// One drawn character with its color.
#[derive(Clone, Copy, Debug, PartialEq, Eq, Structural)]
pub struct Glyph {
    pub ch: char,
    pub color: GlyphColor,
}

/// The digit character for a count in `[1, 8]`.
pub open spec fn digit_char(n: int) -> char {
    if n == 1 {
        '1'
    } else if n == 2 {
        '2'
    } else if n == 3 {
        '3'
    } else if n == 4 {
        '4'
    } else if n == 5 {
        '5'
    } else if n == 6 {
        '6'
    } else if n == 7 {
        '7'
    } else {
        '8'
    }
}

/// The fixed cell-to-glyph mapping: a hidden cell shows a block, a flagged
/// one a red flag mark, a revealed mine a red star, a revealed zero-count
/// cell a blank, and any other revealed cell its count as a cyan digit.
pub fn glyph_for(cell: Cell) -> (g: Glyph)
    requires
        cell.adjacent_count <= 8,
    ensures
        cell.is_hidden && cell.is_flagged ==> g == (Glyph { ch: 'P', color: GlyphColor::Red }),
        cell.is_hidden && !cell.is_flagged ==> g == (Glyph {
            ch: '■',
            color: GlyphColor::Normal,
        }),
        !cell.is_hidden && cell.is_mine ==> g == (Glyph { ch: '*', color: GlyphColor::Red }),
        !cell.is_hidden && !cell.is_mine && cell.adjacent_count == 0 ==> g == (Glyph {
            ch: ' ',
            color: GlyphColor::Normal,
        }),
        !cell.is_hidden && !cell.is_mine && cell.adjacent_count > 0 ==> g == (Glyph {
            ch: digit_char(cell.adjacent_count as int),
            color: GlyphColor::Cyan,
        }),
{
    if cell.is_hidden {
        if cell.is_flagged {
            Glyph { ch: 'P', color: GlyphColor::Red }
        } else {
            Glyph { ch: '■', color: GlyphColor::Normal }
        }
    } else if cell.is_mine {
        Glyph { ch: '*', color: GlyphColor::Red }
    } else if cell.adjacent_count == 0 {
        Glyph { ch: ' ', color: GlyphColor::Normal }
    } else {
        let ch = if cell.adjacent_count == 1 {
            '1'
        } else if cell.adjacent_count == 2 {
            '2'
        } else if cell.adjacent_count == 3 {
            '3'
        } else if cell.adjacent_count == 4 {
            '4'
        } else if cell.adjacent_count == 5 {
            '5'
        } else if cell.adjacent_count == 6 {
            '6'
        } else if cell.adjacent_count == 7 {
            '7'
        } else {
            '8'
        };
        Glyph { ch, color: GlyphColor::Cyan }
    }
}

} // verus!
