use vstd::prelude::*;

verus! {

/// One square of the minefield.
///
/// `adjacent_count` is the number of mine-bearing cells among the up-to-8
/// neighbors; it is meaningful only after the grid's counts have been
/// computed, and is ignored by rendering for mine cells.
#[derive(Clone, Copy, Debug, PartialEq, Eq, Structural)]
pub struct Cell {
    pub is_mine: bool,
    pub is_hidden: bool,
    pub is_flagged: bool,
    pub adjacent_count: u8,
}

impl Cell {
    /// The state of every cell in a freshly generated field.
    pub open spec fn spec_fresh() -> Cell {
        Cell { is_mine: false, is_hidden: true, is_flagged: false, adjacent_count: 0 }
    }

    /// A fresh cell: hidden, not a mine, unflagged, count zero.
    pub fn fresh() -> (c: Cell)
        ensures
            c == Cell::spec_fresh(),
    {
        Cell { is_mine: false, is_hidden: true, is_flagged: false, adjacent_count: 0 }
    }
}

/// `after` is `before` with its hidden and flagged bits cleared and every
/// other field kept: the change a reveal makes to one cell.
pub open spec fn revealed_from(after: Cell, before: Cell) -> bool {
    &&& !after.is_hidden
    &&& !after.is_flagged
    &&& after.is_mine == before.is_mine
    &&& after.adjacent_count == before.adjacent_count
}

} // verus!
