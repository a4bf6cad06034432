//! The move that the search recommends: the first, in increasing order of
//! cell, among the moves that are best under exhaustive play.

use crate::position::{is_cell, is_position, played, EMPTY};
use crate::pruning::{lemma_search_agrees, raising_move, search_value};
use crate::rules::{child, empty_cells, is_over, lemma_child, lemma_empty_cells, winner};
use crate::value::{
    best_reply, game_value, larger, lemma_best_reply_keeps_bound, lemma_best_reply_larger,
    lemma_value_attained, lemma_value_dominates, lemma_value_inside, WIN_SCORE,
};
use vstd::prelude::*;

verus! {

/// What is returned in place of a cell when play has ended and there is no
/// move to make.
pub const NO_MOVE: usize = 0;

/// The first empty cell, from the `k`-th on, whose move leads to a position
/// worth `target` to the player who makes it; zero if there is none.
pub open spec fn first_reaching(p: Seq<int>, k: int, target: int) -> int
    decreases empty_cells(p).len() - k,
    when 0 <= k
{
    if k >= empty_cells(p).len() {
        NO_MOVE as int
    } else if game_value(child(p, k), 1) == target {
        empty_cells(p)[k]
    } else {
        first_reaching(p, k + 1, target)
    }
}

/// The recommended move: where play goes on, the first empty cell whose
/// move keeps the value of the position; where play has ended, none.
pub open spec fn best_cell(p: Seq<int>) -> int {
    if is_over(p) {
        NO_MOVE as int
    } else {
        first_reaching(p, 0, game_value(p, 0))
    }
}

/// While the best of `alpha` and the replies stays below `beta`, the move
/// that the search is left with is the first that reaches that best value,
/// or the move it began with if no reply is better than `alpha`.
pub proof fn lemma_raising_move(p: Seq<int>, k: int, alpha: int, beta: int, best: int)
    requires
        is_position(p),
        0 <= k,
        alpha < beta,
        best_reply(p, 1, k, alpha, true) < beta,
    ensures
        raising_move(p, k, alpha, beta, best) == if best_reply(p, 1, k, alpha, true) == alpha {
            best
        } else {
            first_reaching(p, k, best_reply(p, 1, k, alpha, true))
        },
    decreases empty_cells(p).len() - k,
{
    if k < empty_cells(p).len() {
        lemma_child(p, k);
        let value = game_value(child(p, k), 1);
        let score = search_value(child(p, k), 1, alpha, beta);
        lemma_search_agrees(child(p, k), 1, alpha, beta);
        lemma_best_reply_keeps_bound(p, 1, k + 1, larger(alpha, value));
        if score > alpha {
            lemma_raising_move(p, k + 1, score, beta, empty_cells(p)[k]);
        } else {
            lemma_raising_move(p, k + 1, alpha, beta, best);
        }
    }
}

/// With the value of the position strictly inside the window, a search from
/// depth zero is left with the recommended move.
pub proof fn lemma_search_finds_best_cell(p: Seq<int>, alpha: int, beta: int, best: int)
    requires
        is_position(p),
        !is_over(p),
        alpha < game_value(p, 0) < beta,
    ensures
        raising_move(p, 0, alpha, beta, best) == best_cell(p),
{
    lemma_child(p, 0);
    lemma_empty_cells(p);
    lemma_best_reply_larger(p, 1, 1, alpha, game_value(child(p, 0), 1));
    lemma_raising_move(p, 0, alpha, beta, best);
}

/// What the first move to reach a value is: where some move from the
/// `k`-th on reaches `target`, the result is the cell of one that does, and
/// no earlier move from the `k`-th on reaches it.
pub proof fn lemma_first_reaching(p: Seq<int>, k: int, target: int)
    requires
        0 <= k,
        exists|j: int|
            k <= j < empty_cells(p).len() && #[trigger] game_value(child(p, j), 1) == target,
    ensures
        exists|j: int|
            {
                &&& k <= j < empty_cells(p).len()
                &&& #[trigger] empty_cells(p)[j] == first_reaching(p, k, target)
                &&& game_value(child(p, j), 1) == target
                &&& forall|i: int| k <= i < j ==> #[trigger] game_value(child(p, i), 1) != target
            },
    decreases empty_cells(p).len() - k,
{
    let witness = choose|j: int|
        k <= j < empty_cells(p).len() && #[trigger] game_value(child(p, j), 1) == target;
    if game_value(child(p, k), 1) == target {
        assert(empty_cells(p)[k] == first_reaching(p, k, target));
    } else {
        assert(k + 1 <= witness);
        lemma_first_reaching(p, k + 1, target);
        let j = choose|j: int|
            {
                &&& k + 1 <= j < empty_cells(p).len()
                &&& #[trigger] empty_cells(p)[j] == first_reaching(p, k + 1, target)
                &&& game_value(child(p, j), 1) == target
                &&& forall|i: int|
                    k + 1 <= i < j ==> #[trigger] game_value(child(p, i), 1) != target
            };
        assert(empty_cells(p)[j] == first_reaching(p, k, target));
    }
}

/// Where play goes on the recommended move is a move: an empty cell, and
/// one that keeps the value of the position for the player who makes it.
/// No earlier empty cell does as well.
pub proof fn lemma_best_cell_is_best(p: Seq<int>)
    requires
        is_position(p),
        !is_over(p),
    ensures
        is_cell(best_cell(p)),
        p[best_cell(p)] == EMPTY,
        game_value(played(p, best_cell(p)), 1) == game_value(p, 0),
        forall|e: int|
            is_cell(e) && p[e] == EMPTY ==> game_value(#[trigger] played(p, e), 1) <= game_value(
                p,
                0,
            ),
        forall|e: int|
            is_cell(e) && p[e] == EMPTY && e < best_cell(p) ==> game_value(
                #[trigger] played(p, e),
                1,
            ) < game_value(p, 0),
{
    lemma_empty_cells(p);
    let cells = empty_cells(p);
    let value = game_value(p, 0);
    lemma_value_attained(p, 0);
    lemma_first_reaching(p, 0, value);
    let j = choose|j: int|
        {
            &&& 0 <= j < cells.len()
            &&& #[trigger] cells[j] == first_reaching(p, 0, value)
            &&& game_value(child(p, j), 1) == value
            &&& forall|i: int| 0 <= i < j ==> #[trigger] game_value(child(p, i), 1) != value
        };
    assert(best_cell(p) == cells[j]);
    assert forall|e: int| is_cell(e) && p[e] == EMPTY implies game_value(
        #[trigger] played(p, e),
        1,
    ) <= value && (e < best_cell(p) ==> game_value(played(p, e), 1) < value) by {
        let i = choose|i: int| 0 <= i < cells.len() && #[trigger] cells[i] == e;
        lemma_value_dominates(p, 0, i);
        if e < best_cell(p) {
            assert(i < j);
            assert(game_value(child(p, i), 1) != value);
        }
    }
}

/// A win in one move is found. Where the player to move can fill a line by
/// marking the empty cell `c`, the position is worth a win at depth one, and
/// the recommended move is the first empty cell that fills a line.
pub proof fn lemma_forced_win(p: Seq<int>, c: int)
    requires
        is_position(p),
        winner(p) == 0,
        is_cell(c),
        p[c] == EMPTY,
        winner(played(p, c)) != 0,
    ensures
        game_value(p, 0) == WIN_SCORE - 1,
        is_cell(best_cell(p)),
        p[best_cell(p)] == EMPTY,
        winner(played(p, best_cell(p))) != 0,
        best_cell(p) <= c,
        forall|e: int|
            is_cell(e) && p[e] == EMPTY && e < best_cell(p) ==> winner(#[trigger] played(p, e))
                == 0,
{
    lemma_empty_cells(p);
    let cells = empty_cells(p);
    let top = WIN_SCORE - 1;
    let kc = choose|k: int| 0 <= k < cells.len() && #[trigger] cells[k] == c;
    lemma_child(p, kc);
    assert(game_value(child(p, kc), 1) == top);
    lemma_value_dominates(p, 0, kc);
    lemma_value_inside(p, 0);
    assert(game_value(p, 0) == top);
    lemma_first_reaching(p, 0, top);
    let j = choose|j: int|
        {
            &&& 0 <= j < cells.len()
            &&& #[trigger] cells[j] == first_reaching(p, 0, top)
            &&& game_value(child(p, j), 1) == top
            &&& forall|i: int| 0 <= i < j ==> #[trigger] game_value(child(p, i), 1) != top
        };
    lemma_child(p, j);
    if winner(child(p, j)) == 0 {
        lemma_value_inside(child(p, j), 1);
    }
    assert(best_cell(p) == cells[j]);
    assert(j <= kc);
    assert forall|e: int| is_cell(e) && p[e] == EMPTY && e < best_cell(p) implies winner(
        #[trigger] played(p, e),
    ) == 0 by {
        let i = choose|i: int| 0 <= i < cells.len() && #[trigger] cells[i] == e;
        assert(i < j);
        lemma_child(p, i);
        assert(game_value(child(p, i), 1) != top);
    }
}

} // verus!
