//! The rules of the game over the model of a position: the eight winning
//! lines, the empty cells, and when play has ended.

use crate::position::{is_cell, is_position, played, EMPTY};
use vstd::prelude::*;

verus! {

/// Number of winning lines: three rows, three columns, two diagonals.
pub const LINES: usize = 8;

/// The eight winning lines as triples of cell indices, in the order in
/// which they are examined.
pub const WINNING_PATTERNS: [(usize, usize, usize); 8] = [
    (1, 2, 3),
    (4, 5, 6),
    (7, 8, 9),
    (1, 4, 7),
    (2, 5, 8),
    (3, 6, 9),
    (1, 5, 9),
    (3, 5, 7),
];

/// The three cells of winning line `k`.
pub open spec fn line(k: int) -> (int, int, int) {
    let cells = WINNING_PATTERNS[k];
    (cells.0 as int, cells.1 as int, cells.2 as int)
}

/// The occupant that fills line `k` with three equal marks, or zero when the
/// line has an empty cell or mixed marks.
pub open spec fn line_mark(p: Seq<int>, k: int) -> int {
    let (a, b, c) = line(k);
    if p[a] != EMPTY && p[a] == p[b] && p[b] == p[c] {
        p[a]
    } else {
        0
    }
}

/// Some line holds three equal marks.
pub open spec fn has_line(p: Seq<int>) -> bool {
    exists|k: int| 0 <= k < LINES && #[trigger] line_mark(p, k) != 0
}

/// The mark of the first filled line among lines `k` and later, or zero.
pub open spec fn winner_from(p: Seq<int>, k: int) -> int
    decreases LINES - k,
{
    if k >= LINES {
        0
    } else if line_mark(p, k) != 0 {
        line_mark(p, k)
    } else {
        winner_from(p, k + 1)
    }
}

/// The mark of the first filled line, or zero when no line is filled.
pub open spec fn winner(p: Seq<int>) -> int {
    winner_from(p, 0)
}

/// The empty cells among cells one to `n`, in increasing order.
pub open spec fn empty_cells_upto(p: Seq<int>, n: int) -> Seq<int>
    decreases n,
{
    if n <= 0 {
        Seq::empty()
    } else if p[n] == EMPTY {
        empty_cells_upto(p, n - 1).push(n)
    } else {
        empty_cells_upto(p, n - 1)
    }
}

/// The empty cells of the board in increasing order: the moves open to the
/// player to move.
pub open spec fn empty_cells(p: Seq<int>) -> Seq<int> {
    empty_cells_upto(p, 9)
}

/// No cell is empty.
pub open spec fn is_full(p: Seq<int>) -> bool {
    empty_cells(p).len() == 0
}

/// Play has ended: a line is filled or no cell is empty.
pub open spec fn is_over(p: Seq<int>) -> bool {
    winner(p) != 0 || is_full(p)
}

/// One if cell `i` is empty, zero if not.
pub open spec fn vacant(p: Seq<int>, i: int) -> nat {
    if p[i] == EMPTY {
        1
    } else {
        0
    }
}

/// The number of empty cells: an upper bound on the moves still to come.
pub open spec fn vacancy(p: Seq<int>) -> nat {
    vacant(p, 1) + vacant(p, 2) + vacant(p, 3) + vacant(p, 4) + vacant(p, 5) + vacant(p, 6)
        + vacant(p, 7) + vacant(p, 8) + vacant(p, 9)
}

/// The position after the player to move takes the `k`-th empty cell.
pub open spec fn child(p: Seq<int>, k: int) -> Seq<int> {
    played(p, empty_cells(p)[k])
}

/// A filled line and a nonzero winner are the same thing, from any line on.
pub proof fn lemma_winner_from(p: Seq<int>, k: int)
    requires
        0 <= k <= LINES,
    ensures
        winner_from(p, k) != 0 <==> exists|j: int|
            k <= j < LINES && #[trigger] line_mark(p, j) != 0,
        winner_from(p, k) != 0 ==> exists|j: int|
            k <= j < LINES && #[trigger] line_mark(p, j) == winner_from(p, k),
    decreases LINES - k,
{
    if k < LINES {
        lemma_winner_from(p, k + 1);
        if line_mark(p, k) == 0 {
            if winner_from(p, k + 1) != 0 {
                let j = choose|j: int| k + 1 <= j < LINES && #[trigger] line_mark(p, j) != 0;
                assert(k <= j < LINES && line_mark(p, j) != 0);
                let j2 = choose|j: int|
                    k + 1 <= j < LINES && #[trigger] line_mark(p, j) == winner_from(p, k + 1);
                assert(k <= j2 < LINES && line_mark(p, j2) == winner_from(p, k));
            }
        }
    }
}

/// The winner is nonzero exactly when some line is filled.
pub proof fn lemma_winner_iff_line(p: Seq<int>)
    ensures
        winner(p) != 0 <==> has_line(p),
{
    lemma_winner_from(p, 0);
}

/// What the list of empty cells among the first `n` holds: cells that are
/// empty, in increasing order, none left out.
pub proof fn lemma_empty_cells_upto(p: Seq<int>, n: int)
    requires
        0 <= n <= 9,
    ensures
        empty_cells_upto(p, n).len() <= n,
        forall|k: int|
            0 <= k < empty_cells_upto(p, n).len() ==> {
                let c = #[trigger] empty_cells_upto(p, n)[k];
                1 <= c <= n && p[c] == EMPTY
            },
        forall|j: int, k: int|
            0 <= j < k < empty_cells_upto(p, n).len() ==> #[trigger] empty_cells_upto(p, n)[j]
                < #[trigger] empty_cells_upto(p, n)[k],
        forall|c: int|
            1 <= c <= n && p[c] == EMPTY ==> exists|k: int|
                0 <= k < empty_cells_upto(p, n).len() && #[trigger] empty_cells_upto(p, n)[k] == c,
    decreases n,
{
    if n > 0 {
        lemma_empty_cells_upto(p, n - 1);
        let prev = empty_cells_upto(p, n - 1);
        let cur = empty_cells_upto(p, n);
        assert forall|c: int| 1 <= c <= n && p[c] == EMPTY implies exists|k: int|
            0 <= k < cur.len() && #[trigger] cur[k] == c by {
            if c == n {
                assert(cur[prev.len() as int] == n);
            } else {
                let k = choose|k: int| 0 <= k < prev.len() && #[trigger] prev[k] == c;
                assert(cur[k] == c);
            }
        }
    }
}

/// What the list of empty cells holds: cells that are empty, in increasing
/// order, none left out.
pub proof fn lemma_empty_cells(p: Seq<int>)
    ensures
        empty_cells(p).len() <= 9,
        forall|k: int|
            0 <= k < empty_cells(p).len() ==> {
                let c = #[trigger] empty_cells(p)[k];
                is_cell(c) && p[c] == EMPTY
            },
        forall|j: int, k: int|
            0 <= j < k < empty_cells(p).len() ==> #[trigger] empty_cells(p)[j]
                < #[trigger] empty_cells(p)[k],
        forall|c: int|
            is_cell(c) && p[c] == EMPTY ==> exists|k: int|
                0 <= k < empty_cells(p).len() && #[trigger] empty_cells(p)[k] == c,
{
    lemma_empty_cells_upto(p, 9);
}

/// Taking an empty cell of a position gives a position with one empty cell
/// fewer.
pub proof fn lemma_child(p: Seq<int>, k: int)
    requires
        is_position(p),
        0 <= k < empty_cells(p).len(),
    ensures
        is_position(child(p, k)),
        vacancy(child(p, k)) + 1 == vacancy(p),
        is_cell(empty_cells(p)[k]),
        p[empty_cells(p)[k]] == EMPTY,
{
    lemma_empty_cells(p);
    let c = empty_cells(p)[k];
    crate::position::lemma_played_is_position(p, c);
    let q = played(p, c);
    assert(q[c] == p[0]);
    assert forall|i: int| is_cell(i) && i != c implies vacant(q, i) == vacant(p, i) by {
        assert(q[i] == p[i]);
    }
}

} // verus!
