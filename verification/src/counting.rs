use vstd::prelude::*;
use crate::cell::Cell;

verus! {

/// Number of mine cells among the first `n` entries of `s`.
pub open spec fn mines_below(s: Seq<Cell>, n: int) -> nat
    decreases n,
{
    if n <= 0 {
        0
    } else {
        mines_below(s, n - 1) + if s[n - 1].is_mine {
            1nat
        } else {
            0nat
        }
    }
}

/// Number of hidden cells among the first `n` entries of `s`.
pub open spec fn hidden_below(s: Seq<Cell>, n: int) -> nat
    decreases n,
{
    if n <= 0 {
        0
    } else {
        hidden_below(s, n - 1) + if s[n - 1].is_hidden {
            1nat
        } else {
            0nat
        }
    }
}

/// A sequence with no mine among its first `n` entries counts zero mines.
pub proof fn lemma_mines_below_none(s: Seq<Cell>, n: int)
    requires
        forall|k: int| 0 <= k < n ==> !(#[trigger] s[k]).is_mine,
    ensures
        mines_below(s, n) == 0,
    decreases n,
{
    if n > 0 {
        lemma_mines_below_none(s, n - 1);
    }
}

/// How overwriting the entry at `i` changes the mine count of a prefix.
pub proof fn lemma_mines_below_update(s: Seq<Cell>, n: int, i: int, c: Cell)
    requires
        0 <= i < s.len(),
        n <= s.len(),
    ensures
        mines_below(s.update(i, c), n) as int == mines_below(s, n) as int + if i < n {
            (if c.is_mine { 1int } else { 0int }) - (if s[i].is_mine { 1int } else { 0int })
        } else {
            0int
        },
    decreases n,
{
    if n > 0 {
        lemma_mines_below_update(s, n - 1, i, c);
    }
}

/// Two sequences that agree on which of their first `n` entries are mines
/// count the same mines there.
pub proof fn lemma_mines_below_agree(s1: Seq<Cell>, s2: Seq<Cell>, n: int)
    requires
        forall|k: int| 0 <= k < n ==> (#[trigger] s1[k]).is_mine == s2[k].is_mine,
    ensures
        mines_below(s1, n) == mines_below(s2, n),
    decreases n,
{
    if n > 0 {
        lemma_mines_below_agree(s1, s2, n - 1);
    }
}

/// How overwriting the entry at `i` changes the hidden count of a prefix.
pub proof fn lemma_hidden_below_update(s: Seq<Cell>, n: int, i: int, c: Cell)
    requires
        0 <= i < s.len(),
        n <= s.len(),
    ensures
        hidden_below(s.update(i, c), n) as int == hidden_below(s, n) as int + if i < n {
            (if c.is_hidden { 1int } else { 0int }) - (if s[i].is_hidden { 1int } else { 0int })
        } else {
            0int
        },
    decreases n,
{
    if n > 0 {
        lemma_hidden_below_update(s, n - 1, i, c);
    }
}

} // verus!
