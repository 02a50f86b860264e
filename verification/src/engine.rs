use vstd::prelude::*;
use crate::cell::{Cell, revealed_from};
use crate::counting::lemma_hidden_below_update;
use crate::grid::Grid;

verus! {

/// `(x2, y2)` is one of the up-to-8 cells around `(x1, y1)`.
pub open spec fn neighbor(x1: int, y1: int, x2: int, y2: int) -> bool {
    &&& !(x1 == x2 && y1 == y2)
    &&& x1 - 1 <= x2 <= x1 + 1
    &&& y1 - 1 <= y2 <= y1 + 1
}

/// Every non-mine, unflagged neighbor of `(x, y)` is revealed.
pub open spec fn closed_at(g: Grid, x: int, y: int) -> bool {
    forall|k: int, l: int|
        neighbor(x, y, k, l) && g.in_bounds(k, l) && !(#[trigger] g.cell(k, l)).is_mine
            && !g.cell(k, l).is_flagged ==> !g.cell(k, l).is_hidden
}

/// The flood fill has nothing left to do: around every revealed zero-count
/// non-mine cell, every non-mine unflagged neighbor is revealed too.
pub open spec fn flood_closed(g: Grid) -> bool {
    forall|x: int, y: int|
        g.in_bounds(x, y) && !(#[trigger] g.cell(x, y)).is_hidden && !g.cell(x, y).is_mine
            && g.cell(x, y).adjacent_count == 0 ==> closed_at(g, x, y)
}

/// `(x, y)` occurs in the worklist `s`.
pub open spec fn in_stack(s: Seq<(usize, usize)>, x: int, y: int) -> bool {
    exists|n: int| 0 <= n < s.len() && (#[trigger] s[n]).0 == x && s[n].1 == y
}

/// The offset of the `d`-th entry in a fixed enumeration of the 8
/// neighbor directions.
pub open spec fn dir_off(d: int) -> (int, int) {
    if d == 0 {
        (-1, -1)
    } else if d == 1 {
        (0, -1)
    } else if d == 2 {
        (1, -1)
    } else if d == 3 {
        (-1, 0)
    } else if d == 4 {
        (1, 0)
    } else if d == 5 {
        (-1, 1)
    } else if d == 6 {
        (0, 1)
    } else {
        (1, 1)
    }
}

/// The neighbor of `(cx, cy)` in direction `d` is no longer a hidden,
/// unflagged non-mine cell (it was revealed, or never was one).
pub open spec fn dir_handled(g: Grid, cx: int, cy: int, d: int) -> bool {
    let k = cx + dir_off(d).0;
    let l = cy + dir_off(d).1;
    g.in_bounds(k, l) ==> !((#[trigger] g.cell(k, l)).is_hidden && !g.cell(k, l).is_flagged
        && !g.cell(k, l).is_mine)
}

/// What one reveal call at `(x, y)` does to the grid, and what it returns.
///
/// - On an already-revealed or flagged target it changes nothing and the
///   game continues.
/// - Otherwise the target is revealed and unflagged; the game ends exactly
///   when the target is a mine.
/// - On a mine or a nonzero-count target no other cell changes.
/// - No cell's mine bit or count ever changes, reveals are monotonic, and the
///   only cells revealed besides the target are hidden, unflagged non-mine
///   cells, each of which ends up next to some revealed zero-count non-mine
///   cell (the flood fill only spreads from zero-count cells into non-mine,
///   unflagged neighbors).
/// - A grid with no reveal left pending stays that way.
pub open spec fn reveal_rel(pre: Grid, post: Grid, x: int, y: int, continues: bool) -> bool {
    let t = pre.cell(x, y);
    &&& post.width == pre.width
    &&& post.height == pre.height
    &&& post.cells@.len() == pre.cells@.len()
    &&& continues == !(t.is_hidden && !t.is_flagged && t.is_mine)
    &&& (!t.is_hidden || t.is_flagged) ==> post == pre
    &&& (t.is_hidden && !t.is_flagged) ==> revealed_from(post.cell(x, y), t)
    &&& (t.is_hidden && !t.is_flagged && (t.is_mine || t.adjacent_count != 0)) ==> forall|
        i: int,
        j: int,
    |
        pre.in_bounds(i, j) && (i != x || j != y) ==> #[trigger] post.cell(i, j) == pre.cell(i, j)
    &&& forall|i: int, j: int|
        pre.in_bounds(i, j) ==> #[trigger] post.cell(i, j) == pre.cell(i, j) || (revealed_from(
            post.cell(i, j),
            pre.cell(i, j),
        ) && ((i == x && j == y) || (pre.cell(i, j).is_hidden && !pre.cell(i, j).is_flagged
            && !pre.cell(i, j).is_mine)))
    &&& forall|i: int, j: int|
        pre.in_bounds(i, j) && (i != x || j != y) && (#[trigger] pre.cell(i, j)).is_hidden && !post.cell(
            i,
            j,
        ).is_hidden ==> exists|k: int, l: int|
            neighbor(i, j, k, l) && post.in_bounds(k, l) && !(#[trigger] post.cell(k, l)).is_hidden
                && !post.cell(k, l).is_mine && post.cell(k, l).adjacent_count == 0
    &&& flood_closed(pre) ==> flood_closed(post)
}

/// What one flag toggle at `(x, y)` does to the grid: flips the flag of a
/// hidden cell, does nothing to a revealed one.
pub open spec fn toggle_rel(pre: Grid, post: Grid, x: int, y: int) -> bool {
    let t = pre.cell(x, y);
    if t.is_hidden {
        &&& post.width == pre.width
        &&& post.height == pre.height
        &&& post.cells@.len() == pre.cells@.len()
        &&& (post.cell(x, y) == Cell { is_flagged: !t.is_flagged, ..t })
        &&& forall|i: int, j: int|
            pre.in_bounds(i, j) && (i != x || j != y) ==> #[trigger] post.cell(i, j) == pre.cell(
                i,
                j,
            )
    } else {
        post == pre
    }
}

impl Grid {
    /// Flip the flag on the hidden cell at `(x, y)`; a no-op on a revealed cell.
    pub fn toggle_flag(&mut self, x: usize, y: usize)
        requires
            old(self).wf(),
            x < old(self).width,
            y < old(self).height,
        ensures
            final(self).wf(),
            toggle_rel(*old(self), *final(self), x as int, y as int),
    {
        let c = self.get_cell(x, y);
        if c.is_hidden {
            self.set_cell(
                x,
                y,
                Cell {
                    is_mine: c.is_mine,
                    is_hidden: c.is_hidden,
                    is_flagged: !c.is_flagged,
                    adjacent_count: c.adjacent_count,
                },
            );
        }
    }

    /// Reveal `(nx, ny)` and put it on the worklist if it is a hidden,
    /// unflagged non-mine cell; otherwise change nothing.  Either way,
    /// `(nx, ny)` is no eligible hidden cell afterwards.
    fn flood_push(&mut self, stack: &mut Vec<(usize, usize)>, nx: usize, ny: usize)
        requires
            old(self).wf(),
            nx < old(self).width,
            ny < old(self).height,
        ensures
            final(self).wf(),
            final(self).width == old(self).width,
            final(self).height == old(self).height,
            final(self).cells@.len() == old(self).cells@.len(),
            !(final(self).cell(nx as int, ny as int).is_hidden && !final(self).cell(
                nx as int,
                ny as int,
            ).is_flagged && !final(self).cell(nx as int, ny as int).is_mine),
            (old(self).cell(nx as int, ny as int).is_hidden && !old(self).cell(
                nx as int,
                ny as int,
            ).is_flagged && !old(self).cell(nx as int, ny as int).is_mine) ==> ({
                &&& revealed_from(
                    final(self).cell(nx as int, ny as int),
                    old(self).cell(nx as int, ny as int),
                )
                &&& forall|i: int, j: int|
                    old(self).in_bounds(i, j) && (i != nx || j != ny)
                        ==> #[trigger] final(self).cell(i, j) == old(self).cell(i, j)
                &&& final(stack)@ == old(stack)@.push((nx, ny))
                &&& in_stack(final(stack)@, nx as int, ny as int)
                &&& final(self).total_hidden() + 1 == old(self).total_hidden()
            }),
            forall|i: int, j: int|
                in_stack(old(stack)@, i, j) ==> #[trigger] in_stack(final(stack)@, i, j),
            !(old(self).cell(nx as int, ny as int).is_hidden && !old(self).cell(
                nx as int,
                ny as int,
            ).is_flagged && !old(self).cell(nx as int, ny as int).is_mine) ==> ({
                &&& *final(self) == *old(self)
                &&& final(stack)@ == old(stack)@
            }),
    {
        let c = self.get_cell(nx, ny);
        if c.is_hidden && !c.is_flagged && !c.is_mine {
            proof {
                self.lemma_indexing();
                lemma_hidden_below_update(
                    self.cells@,
                    self.cells@.len() as int,
                    self.sidx(nx as int, ny as int),
                    Cell {
                        is_mine: c.is_mine,
                        is_hidden: false,
                        is_flagged: false,
                        adjacent_count: c.adjacent_count,
                    },
                );
            }
            self.set_cell(
                nx,
                ny,
                Cell {
                    is_mine: c.is_mine,
                    is_hidden: false,
                    is_flagged: false,
                    adjacent_count: c.adjacent_count,
                },
            );
            stack.push((nx, ny));
            proof {
                assert(stack@[stack@.len() - 1] == (nx, ny));
                assert forall|i: int, j: int| in_stack(old(stack)@, i, j) implies #[trigger] in_stack(
                    stack@,
                    i,
                    j,
                ) by {
                    let n = choose|n: int|
                        0 <= n < old(stack)@.len() && (#[trigger] old(stack)@[n]).0 == i && old(
                            stack,
                        )@[n].1 == j;
                    assert(stack@[n] == old(stack)@[n]);
                }
            }
        }
    }

    /// Reveal the cell at `(x, y)`.  A revealed or flagged target is left
    /// alone; otherwise the target is revealed, and if it is a zero-count
    /// non-mine cell, the reveal floods outward through hidden, unflagged
    /// non-mine neighbors of zero-count cells.  Returns whether the game
    /// continues: `false` exactly when the call revealed a mine.
    #[verifier::rlimit(60)]
    pub fn uncover(&mut self, x: usize, y: usize) -> (continues: bool)
        requires
            old(self).wf(),
            x < old(self).width,
            y < old(self).height,
        ensures
            final(self).wf(),
            reveal_rel(*old(self), *final(self), x as int, y as int, continues),
    {
        let ghost o = *old(self);
        let c = self.get_cell(x, y);
        if !c.is_hidden {
            return true;
        }
        if c.is_flagged {
            return true;
        }
        self.set_cell(
            x,
            y,
            Cell {
                is_mine: c.is_mine,
                is_hidden: false,
                is_flagged: false,
                adjacent_count: c.adjacent_count,
            },
        );
        if c.is_mine || c.adjacent_count != 0 {
            proof {
                if flood_closed(o) {
                    lemma_lone_reveal_keeps_closed(o, *self, x as int, y as int);
                }
            }
            return !c.is_mine;
        }
        let mut stack: Vec<(usize, usize)> = Vec::new();
        stack.push((x, y));
        proof {
            assert(stack@[0] == (x, y));
            assert(in_stack(stack@, x as int, y as int));
            if flood_closed(o) {
                assert forall|i: int, j: int|
                    self.in_bounds(i, j) && !(#[trigger] self.cell(i, j)).is_hidden && !self.cell(
                        i,
                        j,
                    ).is_mine && self.cell(i, j).adjacent_count == 0 implies closed_at(*self, i, j)
                    || in_stack(stack@, i, j) by {
                    if i == x as int && j == y as int {
                    } else {
                        assert(self.cell(i, j) == o.cell(i, j));
                        assert(closed_at(o, i, j));
                        assert forall|k: int, l: int|
                            neighbor(i, j, k, l) && self.in_bounds(k, l) && !(#[trigger] self.cell(
                                k,
                                l,
                            )).is_mine && !self.cell(k, l).is_flagged implies !self.cell(
                            k,
                            l,
                        ).is_hidden by {
                            if k == x as int && l == y as int {
                            } else {
                                assert(self.cell(k, l) == o.cell(k, l));
                            }
                        }
                    }
                }
            }
        }
        while stack.len() > 0
            invariant
                self.wf(),
                self.width == o.width,
                self.height == o.height,
                self.cells@.len() == o.cells@.len(),
                o.wf(),
                x < o.width,
                y < o.height,
                !self.cell(x as int, y as int).is_hidden,
                !self.cell(x as int, y as int).is_flagged,
                forall|i: int, j: int|
                    o.in_bounds(i, j) ==> #[trigger] self.cell(i, j) == o.cell(i, j) || (
                    revealed_from(self.cell(i, j), o.cell(i, j)) && ((i == x && j == y) || (o.cell(
                        i,
                        j,
                    ).is_hidden && !o.cell(i, j).is_flagged && !o.cell(i, j).is_mine))),
                forall|i: int, j: int|
                    o.in_bounds(i, j) && (i != x || j != y) && (#[trigger] o.cell(i, j)).is_hidden
                        && !self.cell(i, j).is_hidden ==> exists|k: int, l: int|
                        neighbor(i, j, k, l) && self.in_bounds(k, l) && !(#[trigger] self.cell(
                            k,
                            l,
                        )).is_hidden && !self.cell(k, l).is_mine && self.cell(k, l).adjacent_count
                            == 0,
                forall|n: int|
                    0 <= n < stack@.len() ==> self.in_bounds(
                        (#[trigger] stack@[n]).0 as int,
                        stack@[n].1 as int,
                    ) && !self.cell(stack@[n].0 as int, stack@[n].1 as int).is_hidden
                        && !self.cell(stack@[n].0 as int, stack@[n].1 as int).is_mine,
                flood_closed(o) ==> forall|i: int, j: int|
                    self.in_bounds(i, j) && !(#[trigger] self.cell(i, j)).is_hidden && !self.cell(
                        i,
                        j,
                    ).is_mine && self.cell(i, j).adjacent_count == 0 ==> closed_at(*self, i, j)
                        || in_stack(stack@, i, j),
            decreases 2 * self.total_hidden() + stack@.len(),
        {
            let ghost st0 = stack@;
            let (cx, cy) = match stack.pop() {
                Some(p) => p,
                None => {
                    proof {
                        assert(false);
                    }
                    (0usize, 0usize)
                },
            };
            let pc = self.get_cell(cx, cy);
            proof {
                if flood_closed(o) {
                    assert forall|i: int, j: int|
                        self.in_bounds(i, j) && !(#[trigger] self.cell(i, j)).is_hidden
                            && !self.cell(i, j).is_mine && self.cell(i, j).adjacent_count == 0
                        implies closed_at(*self, i, j) || in_stack(stack@, i, j) || (i == cx as int
                        && j == cy as int) by {
                        if !closed_at(*self, i, j) {
                            assert(in_stack(st0, i, j));
                            let n = choose|n: int|
                                0 <= n < st0.len() && (#[trigger] st0[n]).0 == i && st0[n].1 == j;
                            if n < st0.len() - 1 {
                                assert(stack@[n] == st0[n]);
                                assert(in_stack(stack@, i, j));
                            } else {
                                assert(st0[n] == st0.last());
                            }
                        }
                    }
                }
            }
            if pc.adjacent_count == 0 {
                let ghost sb = *self;
                let ghost stb = stack@;
                let ghost hb = self.total_hidden();
                let mut d: usize = 0;
                while d < 8
                    invariant
                        self.wf(),
                        self.width == o.width,
                        self.height == o.height,
                        self.cells@.len() == o.cells@.len(),
                        o.wf(),
                        x < o.width,
                        y < o.height,
                        d <= 8,
                        cx < self.width,
                        cy < self.height,
                        !self.cell(cx as int, cy as int).is_hidden,
                        !self.cell(cx as int, cy as int).is_flagged,
                        !self.cell(cx as int, cy as int).is_mine,
                        self.cell(cx as int, cy as int).adjacent_count == 0,
                        !self.cell(x as int, y as int).is_hidden,
                        !self.cell(x as int, y as int).is_flagged,
                        2 * self.total_hidden() + stack@.len() <= 2 * hb + stb.len(),
                        stb.is_prefix_of(stack@),
                        forall|i: int, j: int|
                            o.in_bounds(i, j) ==> #[trigger] self.cell(i, j) == sb.cell(i, j) || (
                            revealed_from(self.cell(i, j), sb.cell(i, j)) && in_stack(
                                stack@,
                                i,
                                j,
                            )),
                        forall|i: int, j: int|
                            o.in_bounds(i, j) ==> #[trigger] self.cell(i, j) == o.cell(i, j) || (
                            revealed_from(self.cell(i, j), o.cell(i, j)) && ((i == x && j == y) || (
                            o.cell(i, j).is_hidden && !o.cell(i, j).is_flagged && !o.cell(
                                i,
                                j,
                            ).is_mine))),
                        forall|i: int, j: int|
                            o.in_bounds(i, j) && (i != x || j != y) && (#[trigger] o.cell(
                                i,
                                j,
                            )).is_hidden && !self.cell(i, j).is_hidden ==> exists|k: int, l: int|
                                neighbor(i, j, k, l) && self.in_bounds(k, l) && !(
                                #[trigger] self.cell(k, l)).is_hidden && !self.cell(k, l).is_mine
                                    && self.cell(k, l).adjacent_count == 0,
                        forall|n: int|
                            0 <= n < stack@.len() ==> self.in_bounds(
                                (#[trigger] stack@[n]).0 as int,
                                stack@[n].1 as int,
                            ) && !self.cell(stack@[n].0 as int, stack@[n].1 as int).is_hidden
                                && !self.cell(stack@[n].0 as int, stack@[n].1 as int).is_mine,
                        forall|dd: int| 0 <= dd < d ==> dir_handled(*self, cx as int, cy as int, dd),
                        flood_closed(o) ==> forall|i: int, j: int|
                            self.in_bounds(i, j) && !(#[trigger] self.cell(i, j)).is_hidden
                                && !self.cell(i, j).is_mine && self.cell(i, j).adjacent_count == 0
                                ==> closed_at(*self, i, j) || in_stack(stack@, i, j) || (i == cx && j
                                == cy),
                    decreases 8 - d,
                {
                    let ghost si = *self;
                    if d == 0 {
                        if cx > 0 && cy > 0 {
                            self.flood_push(&mut stack, cx - 1, cy - 1);
                        }
                    } else if d == 1 {
                        if cy > 0 {
                            self.flood_push(&mut stack, cx, cy - 1);
                        }
                    } else if d == 2 {
                        if cx + 1 < self.width && cy > 0 {
                            self.flood_push(&mut stack, cx + 1, cy - 1);
                        }
                    } else if d == 3 {
                        if cx > 0 {
                            self.flood_push(&mut stack, cx - 1, cy);
                        }
                    } else if d == 4 {
                        if cx + 1 < self.width {
                            self.flood_push(&mut stack, cx + 1, cy);
                        }
                    } else if d == 5 {
                        if cx > 0 && cy + 1 < self.height {
                            self.flood_push(&mut stack, cx - 1, cy + 1);
                        }
                    } else if d == 6 {
                        if cy + 1 < self.height {
                            self.flood_push(&mut stack, cx, cy + 1);
                        }
                    } else {
                        if cx + 1 < self.width && cy + 1 < self.height {
                            self.flood_push(&mut stack, cx + 1, cy + 1);
                        }
                    }
                    proof {
                        assert forall|dd: int| 0 <= dd <= d implies dir_handled(
                            *self,
                            cx as int,
                            cy as int,
                            dd,
                        ) by {
                            let k = cx + dir_off(dd).0;
                            let l = cy + dir_off(dd).1;
                            if dd < d {
                                assert(dir_handled(si, cx as int, cy as int, dd));
                                if self.in_bounds(k, l) && self.cell(k, l) != si.cell(k, l) {
                                    assert(revealed_from(self.cell(k, l), si.cell(k, l)));
                                }
                            }
                        }
                        assert forall|i: int, j: int|
                            o.in_bounds(i, j) && (i != x || j != y) && (#[trigger] o.cell(
                                i,
                                j,
                            )).is_hidden && !self.cell(i, j).is_hidden implies exists|k: int, l: int|
                            neighbor(i, j, k, l) && self.in_bounds(k, l) && !(#[trigger] self.cell(
                                k,
                                l,
                            )).is_hidden && !self.cell(k, l).is_mine && self.cell(k, l).adjacent_count
                            == 0 by {
                            if si.cell(i, j).is_hidden {
                                assert(neighbor(i, j, cx as int, cy as int));
                                assert(!self.cell(cx as int, cy as int).is_hidden && !self.cell(
                                    cx as int,
                                    cy as int,
                                ).is_mine && self.cell(cx as int, cy as int).adjacent_count == 0);
                            } else {
                                let (k, l) = choose|k: int, l: int|
                                    neighbor(i, j, k, l) && si.in_bounds(k, l) && !(
                                    #[trigger] si.cell(k, l)).is_hidden && !si.cell(k, l).is_mine
                                        && si.cell(k, l).adjacent_count == 0;
                                assert(!self.cell(k, l).is_hidden && !self.cell(k, l).is_mine
                                    && self.cell(k, l).adjacent_count == 0);
                            }
                        }
                    }
                    d = d + 1;
                }
                proof {
                    assert(closed_at(*self, cx as int, cy as int)) by {
                        assert forall|k: int, l: int|
                            neighbor(cx as int, cy as int, k, l) && self.in_bounds(k, l) && !(
                            #[trigger] self.cell(k, l)).is_mine && !self.cell(k, l).is_flagged
                            implies !self.cell(k, l).is_hidden by {
                            let ox = k - cx;
                            let oy = l - cy;
                            if ox == -1 && oy == -1 {
                                assert(dir_handled(*self, cx as int, cy as int, 0));
                            } else if ox == 0 && oy == -1 {
                                assert(dir_handled(*self, cx as int, cy as int, 1));
                            } else if ox == 1 && oy == -1 {
                                assert(dir_handled(*self, cx as int, cy as int, 2));
                            } else if ox == -1 && oy == 0 {
                                assert(dir_handled(*self, cx as int, cy as int, 3));
                            } else if ox == 1 && oy == 0 {
                                assert(dir_handled(*self, cx as int, cy as int, 4));
                            } else if ox == -1 && oy == 1 {
                                assert(dir_handled(*self, cx as int, cy as int, 5));
                            } else if ox == 0 && oy == 1 {
                                assert(dir_handled(*self, cx as int, cy as int, 6));
                            } else {
                                assert(dir_handled(*self, cx as int, cy as int, 7));
                            }
                        }
                    }
                }
            }
        }
        proof {
            if flood_closed(o) {
                assert forall|i: int, j: int|
                    self.in_bounds(i, j) && !(#[trigger] self.cell(i, j)).is_hidden && !self.cell(
                        i,
                        j,
                    ).is_mine && self.cell(i, j).adjacent_count == 0 implies closed_at(
                    *self,
                    i,
                    j,
                ) by {
                    assert(!in_stack(stack@, i, j));
                }
            }
        }
        true
    }
}

/// Revealing an already-revealed cell — in particular any cell of a fully
/// revealed zero region — changes nothing and the game continues: the
/// flood fill is idempotent.
pub proof fn lemma_uncover_revealed_is_noop(pre: Grid, post: Grid, x: int, y: int, cont: bool)
    requires
        reveal_rel(pre, post, x, y, cont),
        !pre.cell(x, y).is_hidden,
    ensures
        post == pre,
        cont,
{
}

/// Revealing a flagged cell is a no-op: the grid is untouched and the
/// game continues.
pub proof fn lemma_uncover_flagged_is_noop(pre: Grid, post: Grid, x: int, y: int, cont: bool)
    requires
        reveal_rel(pre, post, x, y, cont),
        pre.cell(x, y).is_hidden,
        pre.cell(x, y).is_flagged,
    ensures
        post == pre,
        cont,
{
}

/// Revealing a hidden, unflagged mine ends the game and leaves every other
/// cell exactly as it was.
pub proof fn lemma_uncover_mine_ends_game(pre: Grid, post: Grid, x: int, y: int, cont: bool)
    requires
        reveal_rel(pre, post, x, y, cont),
        pre.cell(x, y).is_hidden,
        !pre.cell(x, y).is_flagged,
        pre.cell(x, y).is_mine,
    ensures
        !cont,
        forall|i: int, j: int|
            pre.in_bounds(i, j) && (i != x || j != y) ==> #[trigger] post.cell(i, j) == pre.cell(
                i,
                j,
            ),
{
}

/// The flood fill never reveals a mine: whatever a reveal does, every mine
/// other than the target itself is left exactly as it was.
pub proof fn lemma_uncover_spares_other_mines(pre: Grid, post: Grid, x: int, y: int, cont: bool)
    requires
        reveal_rel(pre, post, x, y, cont),
    ensures
        forall|i: int, j: int|
            pre.in_bounds(i, j) && (i != x || j != y) && (#[trigger] pre.cell(i, j)).is_mine
                ==> post.cell(i, j) == pre.cell(i, j),
{
    assert forall|i: int, j: int|
        pre.in_bounds(i, j) && (i != x || j != y) && (#[trigger] pre.cell(i, j)).is_mine
        implies post.cell(i, j) == pre.cell(i, j) by {
        assert(post.cell(i, j) == pre.cell(i, j) || revealed_from(post.cell(i, j), pre.cell(i, j))
            && pre.cell(i, j).is_hidden && !pre.cell(i, j).is_flagged && !pre.cell(i, j).is_mine);
    }
}

/// Revealing one cell that is a mine or has a nonzero count, while every
/// other cell is untouched, leaves no flood work pending if none was
/// pending before.
proof fn lemma_lone_reveal_keeps_closed(pre: Grid, post: Grid, x: int, y: int)
    requires
        pre.wf(),
        post.width == pre.width,
        post.height == pre.height,
        pre.in_bounds(x, y),
        revealed_from(post.cell(x, y), pre.cell(x, y)),
        post.cell(x, y).is_mine || post.cell(x, y).adjacent_count != 0,
        forall|i: int, j: int|
            pre.in_bounds(i, j) && (i != x || j != y) ==> #[trigger] post.cell(i, j) == pre.cell(
                i,
                j,
            ),
        flood_closed(pre),
    ensures
        flood_closed(post),
{
    assert forall|i: int, j: int|
        post.in_bounds(i, j) && !(#[trigger] post.cell(i, j)).is_hidden && !post.cell(
            i,
            j,
        ).is_mine && post.cell(i, j).adjacent_count == 0 implies closed_at(post, i, j) by {
        assert(post.cell(i, j) == pre.cell(i, j));
        assert(closed_at(pre, i, j));
        assert forall|k: int, l: int|
            neighbor(i, j, k, l) && post.in_bounds(k, l) && !(#[trigger] post.cell(k, l)).is_mine
                && !post.cell(k, l).is_flagged implies !post.cell(k, l).is_hidden by {
            if k == x && l == y {
            } else {
                assert(post.cell(k, l) == pre.cell(k, l));
            }
        }
    }
}

} // verus!
