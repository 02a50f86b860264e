use vstd::prelude::*;
use crate::cell::Cell;
use crate::counting::{
    mines_below, hidden_below, lemma_mines_below_none, lemma_mines_below_update,
    lemma_mines_below_agree,
};
use crate::rng::random_below;

verus! {

/// Why a field could not be generated.
#[derive(Clone, Copy, Debug, PartialEq, Eq, Structural)]
pub enum ConfigError {
    /// `width * height` does not fit in `usize`.
    GridTooLarge,
    /// `mine_count >= width * height`: that many distinct mine cells do not exist.
    TooManyMines,
}

/// The minefield: `width * height` cells stored in row-major order
/// (the cell at `(x, y)` sits at flat index `x + y * width`).
pub struct Grid {
    pub width: usize,
    pub height: usize,
    pub cells: Vec<Cell>,
}

impl Grid {
    /// Flat index of the cell at `(x, y)`.
    pub open spec fn sidx(self, x: int, y: int) -> int {
        x + y * self.width
    }

    /// The cell at `(x, y)`.
    pub open spec fn cell(self, x: int, y: int) -> Cell {
        self.cells@[self.sidx(x, y)]
    }

    pub open spec fn in_bounds(self, x: int, y: int) -> bool {
        0 <= x < self.width && 0 <= y < self.height
    }

    /// Structural well-formedness: the cell vector matches the dimensions,
    /// flags sit only on hidden cells, and no count exceeds 8.
    pub open spec fn wf(self) -> bool {
        &&& self.cells@.len() == self.width * self.height
        &&& forall|x: int, y: int|
            self.in_bounds(x, y) ==> ((#[trigger] self.cell(x, y)).is_flagged
                ==> self.cell(x, y).is_hidden)
        &&& forall|x: int, y: int|
            self.in_bounds(x, y) ==> (#[trigger] self.cell(x, y)).adjacent_count <= 8
    }

    /// Total number of mine cells in the grid.
    pub open spec fn total_mines(self) -> nat {
        mines_below(self.cells@, self.cells@.len() as int)
    }

    /// Total number of still-hidden cells in the grid.
    pub open spec fn total_hidden(self) -> nat {
        hidden_below(self.cells@, self.cells@.len() as int)
    }

    /// 1 if `(x, y)` is an in-bounds mine cell, else 0.
    pub open spec fn mine_at(self, x: int, y: int) -> int {
        if self.in_bounds(x, y) && self.cell(x, y).is_mine {
            1
        } else {
            0
        }
    }

    /// Number of mines among the up-to-8 in-bounds neighbors of `(x, y)`.
    pub open spec fn adj_mines(self, x: int, y: int) -> int {
        self.mine_at(x - 1, y - 1) + self.mine_at(x, y - 1) + self.mine_at(x + 1, y - 1)
            + self.mine_at(x - 1, y) + self.mine_at(x + 1, y) + self.mine_at(x - 1, y + 1)
            + self.mine_at(x, y + 1) + self.mine_at(x + 1, y + 1)
    }

    /// Every cell's stored count equals the number of mines among its neighbors.
    pub open spec fn counts_correct(self) -> bool {
        forall|x: int, y: int|
            self.in_bounds(x, y) ==> (#[trigger] self.cell(x, y)).adjacent_count
                == self.adj_mines(x, y)
    }

    /// Every cell is hidden and unflagged, as in a freshly generated field.
    pub open spec fn all_hidden(self) -> bool {
        forall|x: int, y: int|
            self.in_bounds(x, y) ==> (#[trigger] self.cell(x, y)).is_hidden
                && !self.cell(x, y).is_flagged
    }

    /// Every non-mine cell is revealed: the board is fully cleared.
    pub open spec fn all_safe_revealed(self) -> bool {
        forall|x: int, y: int|
            self.in_bounds(x, y) && !(#[trigger] self.cell(x, y)).is_mine ==> !self.cell(
                x,
                y,
            ).is_hidden
    }

    /// In-bounds coordinates index into the cell vector, and distinct
    /// coordinates index distinct slots.
    pub proof fn lemma_indexing(self)
        requires
            self.cells@.len() == self.width * self.height,
        ensures
            forall|x: int, y: int|
                self.in_bounds(x, y) ==> 0 <= #[trigger] self.sidx(x, y) < self.cells@.len(),
            forall|x1: int, y1: int, x2: int, y2: int|
                self.in_bounds(x1, y1) && self.in_bounds(x2, y2) && #[trigger] self.sidx(x1, y1)
                    == #[trigger] self.sidx(x2, y2) ==> x1 == x2 && y1 == y2,
    {
        let w = self.width as int;
        let h = self.height as int;
        assert forall|x: int, y: int| self.in_bounds(x, y) implies 0 <= #[trigger] self.sidx(x, y)
            < self.cells@.len() by {
            assert(0 <= x + y * w < w * h) by (nonlinear_arith)
                requires
                    0 <= x < w,
                    0 <= y < h,
            ;
        }
        assert forall|x1: int, y1: int, x2: int, y2: int|
            self.in_bounds(x1, y1) && self.in_bounds(x2, y2) && #[trigger] self.sidx(x1, y1)
                == #[trigger] self.sidx(x2, y2) implies x1 == x2 && y1 == y2 by {
            assert(x1 == x2 && y1 == y2) by (nonlinear_arith)
                requires
                    0 <= x1 < w,
                    0 <= x2 < w,
                    0 <= y1,
                    0 <= y2,
                    x1 + y1 * w == x2 + y2 * w,
            ;
        }
    }

    /// Read the cell at `(x, y)`.
    pub fn get_cell(&self, x: usize, y: usize) -> (c: Cell)
        requires
            self.wf(),
            x < self.width,
            y < self.height,
        ensures
            c == self.cell(x as int, y as int),
    {
        let n = self.cells.len();
        proof {
            self.lemma_indexing();
            assert(0 <= self.sidx(x as int, y as int) < n);
        }
        self.cells[x + y * self.width]
    }

    /// Overwrite the cell at `(x, y)`; every other cell is untouched.
    pub(crate) fn set_cell(&mut self, x: usize, y: usize, c: Cell)
        requires
            old(self).wf(),
            x < old(self).width,
            y < old(self).height,
        ensures
            final(self).width == old(self).width,
            final(self).height == old(self).height,
            final(self).cells@ == old(self).cells@.update(old(self).sidx(x as int, y as int), c),
            final(self).cells@.len() == old(self).cells@.len(),
            0 <= old(self).sidx(x as int, y as int) < old(self).cells@.len(),
            final(self).cell(x as int, y as int) == c,
            forall|i: int, j: int|
                old(self).in_bounds(i, j) && (i != x || j != y) ==> #[trigger] final(self).cell(
                    i, j) == old(self).cell(i, j),
    {
        let n = self.cells.len();
        proof {
            self.lemma_indexing();
            assert(0 <= self.sidx(x as int, y as int) < n);
        }
        let k = x + y * self.width;
        self.cells[k] = c;
        proof {
            self.lemma_indexing();
            assert forall|i: int, j: int|
                old(self).in_bounds(i, j) && (i != x || j != y) implies #[trigger] self.cell(i, j)
                == old(self).cell(i, j) by {
            }
        }
    }

    /// A fresh field: all cells hidden, unflagged, mine-free, count zero.
    pub fn new(width: usize, height: usize) -> (g: Grid)
        requires
            width * height <= usize::MAX,
        ensures
            g.wf(),
            g.width == width,
            g.height == height,
            forall|x: int, y: int| g.in_bounds(x, y) ==> #[trigger] g.cell(x, y)
                == Cell::spec_fresh(),
            g.total_mines() == 0,
            g.all_hidden(),
            g.counts_correct(),
    {
        let total = width * height;
        let mut cells: Vec<Cell> = Vec::new();
        while cells.len() < total
            invariant
                cells@.len() <= total,
                forall|k: int| 0 <= k < cells@.len() ==> #[trigger] cells@[k]
                    == Cell::spec_fresh(),
            decreases total - cells@.len(),
        {
            cells.push(Cell::fresh());
        }
        let g = Grid { width, height, cells };
        proof {
            g.lemma_indexing();
            lemma_mines_below_none(g.cells@, g.cells@.len() as int);
        }
        g
    }

    /// Turn the non-mine cell at `(x, y)` into a mine; its other fields and
    /// every other cell are untouched.
    pub fn place_mine(&mut self, x: usize, y: usize)
        requires
            old(self).wf(),
            x < old(self).width,
            y < old(self).height,
            !old(self).cell(x as int, y as int).is_mine,
        ensures
            final(self).wf(),
            final(self).width == old(self).width,
            final(self).height == old(self).height,
            final(self).cells@.len() == old(self).cells@.len(),
            final(self).total_mines() == old(self).total_mines() + 1,
            (final(self).cell(x as int, y as int) == Cell {
                is_mine: true,
                ..old(self).cell(x as int, y as int)
            }),
            forall|i: int, j: int|
                old(self).in_bounds(i, j) && (i != x || j != y) ==> #[trigger] final(self).cell(
                    i, j) == old(self).cell(i, j),
    {
        let c = self.get_cell(x, y);
        let m = Cell {
            is_mine: true,
            is_hidden: c.is_hidden,
            is_flagged: c.is_flagged,
            adjacent_count: c.adjacent_count,
        };
        proof {
            self.lemma_indexing();
            assert(0 <= self.sidx(x as int, y as int) < self.cells@.len());
            lemma_mines_below_update(
                self.cells@,
                self.cells@.len() as int,
                self.sidx(x as int, y as int),
                m,
            );
        }
        self.set_cell(x, y, m);
    }

    /// Flat index of the `(r + 1)`-th non-mine cell, scanning in flat order.
    fn nth_free(&self, r: usize) -> (k: usize)
        requires
            self.wf(),
            r + self.total_mines() < self.cells@.len(),
        ensures
            k < self.cells@.len(),
            !self.cells@[k as int].is_mine,
    {
        let n = self.cells.len();
        let mut j: usize = 0;
        let mut seen: usize = 0;
        while j < n
            invariant
                self.wf(),
                r + self.total_mines() < n,
                n == self.cells@.len(),
                j <= n,
                seen + mines_below(self.cells@, j as int) == j,
                seen <= r,
            decreases n - j,
        {
            if !self.cells[j].is_mine {
                if seen == r {
                    return j;
                }
                seen = seen + 1;
            }
            j = j + 1;
        }
        proof {
            assert(false);
        }
        0
    }

    /// Number of mines among the up-to-8 in-bounds neighbors of `(x, y)`.
    pub fn count_adj(&self, x: usize, y: usize) -> (m: u8)
        requires
            self.wf(),
            x < self.width,
            y < self.height,
        ensures
            m as int == self.adj_mines(x as int, y as int),
            m <= 8,
    {
        let mut m: u8 = 0;
        if x > 0 && y > 0 && self.get_cell(x - 1, y - 1).is_mine {
            m = m + 1;
        }
        if y > 0 && self.get_cell(x, y - 1).is_mine {
            m = m + 1;
        }
        if x + 1 < self.width && y > 0 && self.get_cell(x + 1, y - 1).is_mine {
            m = m + 1;
        }
        if x > 0 && self.get_cell(x - 1, y).is_mine {
            m = m + 1;
        }
        if x + 1 < self.width && self.get_cell(x + 1, y).is_mine {
            m = m + 1;
        }
        if x > 0 && y + 1 < self.height && self.get_cell(x - 1, y + 1).is_mine {
            m = m + 1;
        }
        if y + 1 < self.height && self.get_cell(x, y + 1).is_mine {
            m = m + 1;
        }
        if x + 1 < self.width && y + 1 < self.height && self.get_cell(x + 1, y + 1).is_mine {
            m = m + 1;
        }
        m
    }

    /// Store in every cell the number of mines among its neighbors.
    /// Which cells are mines, hidden or flagged is untouched.
    #[verifier::rlimit(40)]
    pub fn compute_counts(&mut self)
        requires
            old(self).wf(),
        ensures
            final(self).wf(),
            final(self).width == old(self).width,
            final(self).height == old(self).height,
            final(self).cells@.len() == old(self).cells@.len(),
            final(self).counts_correct(),
            final(self).total_mines() == old(self).total_mines(),
            forall|i: int, j: int|
                old(self).in_bounds(i, j) ==> (#[trigger] final(self).cell(i, j)).is_mine
                    == old(self).cell(i, j).is_mine && final(self).cell(i, j).is_hidden
                    == old(self).cell(i, j).is_hidden && final(self).cell(i, j).is_flagged
                    == old(self).cell(i, j).is_flagged,
    {
        let ghost g0 = *self;
        let w = self.width;
        let h = self.height;
        let mut x: usize = 0;
        while x < w
            invariant
                self.wf(),
                self.width == g0.width,
                self.height == g0.height,
                self.cells@.len() == g0.cells@.len(),
                g0 == *old(self),
                g0.wf(),
                w == self.width,
                h == self.height,
                x <= w,
                forall|k: int|
                    0 <= k < self.cells@.len() ==> (#[trigger] self.cells@[k]).is_mine
                        == g0.cells@[k].is_mine && self.cells@[k].is_hidden
                        == g0.cells@[k].is_hidden && self.cells@[k].is_flagged
                        == g0.cells@[k].is_flagged,
                forall|i: int, j: int|
                    self.in_bounds(i, j) && i < x ==> (#[trigger] self.cell(i, j)).adjacent_count
                        == g0.adj_mines(i, j),
            decreases w - x,
        {
            let mut y: usize = 0;
            while y < h
                invariant
                    self.wf(),
                    self.width == g0.width,
                    self.height == g0.height,
                    self.cells@.len() == g0.cells@.len(),
                    g0 == *old(self),
                    g0.wf(),
                    w == self.width,
                    h == self.height,
                    x < w,
                    y <= h,
                    forall|k: int|
                        0 <= k < self.cells@.len() ==> (#[trigger] self.cells@[k]).is_mine
                            == g0.cells@[k].is_mine && self.cells@[k].is_hidden
                            == g0.cells@[k].is_hidden && self.cells@[k].is_flagged
                            == g0.cells@[k].is_flagged,
                    forall|i: int, j: int|
                        self.in_bounds(i, j) && (i < x || (i == x && j < y)) ==> (
                        #[trigger] self.cell(i, j)).adjacent_count == g0.adj_mines(i, j),
                decreases h - y,
            {
                let m = self.count_adj(x, y);
                proof {
                    self.lemma_indexing();
                    assert(self.adj_mines(x as int, y as int) == g0.adj_mines(x as int, y as int));
                }
                let c = self.get_cell(x, y);
                self.set_cell(
                    x,
                    y,
                    Cell {
                        is_mine: c.is_mine,
                        is_hidden: c.is_hidden,
                        is_flagged: c.is_flagged,
                        adjacent_count: m,
                    },
                );
                y = y + 1;
            }
            x = x + 1;
        }
        proof {
            self.lemma_indexing();
            lemma_mines_below_agree(self.cells@, old(self).cells@, self.cells@.len() as int);
            assert forall|i: int, j: int| self.in_bounds(i, j) implies (#[trigger] self.cell(i,
            j)).adjacent_count == self.adj_mines(i, j) by {
                assert(self.adj_mines(i, j) == g0.adj_mines(i, j));
            }
        }
    }

    /// Whether the player has won: every non-mine cell is revealed.  The
    /// session loop itself never ends on a win (the minimal game is lost or
    /// quit), but the outcome is queryable here.
    pub fn is_won(&self) -> (r: bool)
        requires
            self.wf(),
        ensures
            r == self.all_safe_revealed(),
    {
        let mut x: usize = 0;
        while x < self.width
            invariant
                self.wf(),
                x <= self.width,
                forall|i: int, j: int|
                    self.in_bounds(i, j) && i < x && !(#[trigger] self.cell(i, j)).is_mine
                        ==> !self.cell(i, j).is_hidden,
            decreases self.width - x,
        {
            let mut y: usize = 0;
            while y < self.height
                invariant
                    self.wf(),
                    x < self.width,
                    y <= self.height,
                    forall|i: int, j: int|
                        self.in_bounds(i, j) && (i < x || (i == x && j < y)) && !(
                        #[trigger] self.cell(i, j)).is_mine ==> !self.cell(i, j).is_hidden,
                decreases self.height - y,
            {
                let c = self.get_cell(x, y);
                if !c.is_mine && c.is_hidden {
                    return false;
                }
                y = y + 1;
            }
            x = x + 1;
        }
        true
    }

    /// Build a field of the given size with exactly `mine_count` mines at
    /// distinct randomly drawn cells, every cell hidden and unflagged, and
    /// every cell's neighbor count filled in.  Rejects a configuration whose
    /// cell total overflows or that asks for at least as many mines as cells.
    pub fn generate(width: usize, height: usize, mine_count: usize) -> (r: Result<
        Grid,
        ConfigError,
    >)
        ensures
            (match r {
                Ok(g) => {
                    &&& g.wf()
                    &&& g.width == width
                    &&& g.height == height
                    &&& g.total_mines() == mine_count
                    &&& g.all_hidden()
                    &&& g.counts_correct()
                    &&& width * height <= usize::MAX
                    &&& mine_count < width * height
                },
                Err(e) => {
                    &&& (e == ConfigError::GridTooLarge <==> width * height > usize::MAX)
                    &&& (width * height <= usize::MAX ==> e == ConfigError::TooManyMines
                        && mine_count >= width * height)
                },
            }),
    {
        let total = match width.checked_mul(height) {
            Some(t) => t,
            None => {
                return Err(ConfigError::GridTooLarge);
            },
        };
        if mine_count >= total {
            return Err(ConfigError::TooManyMines);
        }
        proof {
            assert(width > 0 && height > 0) by (nonlinear_arith)
                requires
                    total == width * height,
                    total > 0,
            ;
        }
        let mut g = Grid::new(width, height);
        let mut placed: usize = 0;
        while placed < mine_count
            invariant
                g.wf(),
                g.width == width,
                g.height == height,
                g.cells@.len() == total,
                total == width * height,
                width > 0,
                height > 0,
                placed <= mine_count < total,
                g.total_mines() == placed,
                forall|i: int, j: int|
                    g.in_bounds(i, j) ==> (#[trigger] g.cell(i, j)).is_hidden && !g.cell(
                        i, j).is_flagged,
            decreases mine_count - placed,
        {
            let r = random_below(total - placed);
            let k = g.nth_free(r);
            proof {
                g.lemma_indexing();
            }
            let x = k % width;
            let y = k / width;
            proof {
                assert(x < width && y < height && x + y * width == k) by (nonlinear_arith)
                    requires
                        width > 0,
                        height > 0,
                        k < width * height,
                        x == k % width,
                        y == k / width,
                ;
                assert(g.sidx(x as int, y as int) == k);
                assert(!g.cell(x as int, y as int).is_mine);
            }
            g.place_mine(x, y);
            placed = placed + 1;
        }
        g.compute_counts();
        Ok(g)
    }
}

} // verus!
