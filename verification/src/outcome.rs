//! The result of the game under best play by both sides, and the proof that
//! the sign of a position's value tells it.

use crate::position::is_position;
use crate::pruning::{lemma_search_agrees, search_value};
use crate::rules::{
    child, empty_cells, has_line, is_full, lemma_child, lemma_empty_cells, lemma_winner_iff_line,
    vacancy, winner,
};
use crate::value::{
    best_reply, game_value, larger, lemma_value_range, smaller, WIN_SCORE,
};
use vstd::prelude::*;

verus! {

/// One for a positive number, minus one for a negative number, zero for
/// zero.
pub open spec fn sign(x: int) -> int {
    if x > 0 {
        1
    } else if x < 0 {
        -1
    } else {
        0
    }
}

/// The result of the game for the player to move when both sides play as
/// well as can be: one for a win, zero for a draw, minus one for a loss.
/// A filled line is a loss, since it belongs to the player who moved last.
/// A full board without one is a draw. Elsewhere the player to move picks
/// the move that is worst for the opponent.
pub open spec fn game_result(p: Seq<int>) -> int
    decreases vacancy(p), 10int,
    when is_position(p)
{
    if winner(p) != 0 {
        -1
    } else if is_full(p) {
        0
    } else {
        proof {
            lemma_child(p, 0);
            lemma_empty_cells(p);
        }
        best_result(p, 1, -game_result(child(p, 0)))
    }
}

/// The best result that the player to move can reach with `acc` in hand
/// and the `k`-th and later empty cells of `p` to choose from.
pub open spec fn best_result(p: Seq<int>, k: int, acc: int) -> int
    decreases vacancy(p), empty_cells(p).len() - k,
    when is_position(p) && 0 <= k
{
    if k >= empty_cells(p).len() {
        acc
    } else {
        proof {
            lemma_child(p, k);
        }
        best_result(p, k + 1, larger(acc, -game_result(child(p, k))))
    }
}

/// The sign of a position's value is the result of the game: for the player
/// to move at even depth, for the opponent at odd depth. This holds while a
/// win can be told from a loss, that is while no line of play reaches depth
/// twenty.
pub proof fn lemma_value_sign(p: Seq<int>, depth: int)
    requires
        is_position(p),
        0 <= depth,
        depth + vacancy(p) < WIN_SCORE,
    ensures
        sign(game_value(p, depth)) == if depth % 2 == 0 {
            game_result(p)
        } else {
            -game_result(p)
        },
    decreases vacancy(p), 10int,
{
    if winner(p) == 0 && !is_full(p) {
        lemma_child(p, 0);
        lemma_empty_cells(p);
        lemma_value_sign(child(p, 0), depth + 1);
        lemma_best_reply_sign(p, depth + 1, 1, game_value(child(p, 0), depth + 1));
    }
}

/// The sign of the best reply is the best result: folding values for the
/// maximising side, or for the minimising side with signs turned, is
/// folding results.
pub proof fn lemma_best_reply_sign(p: Seq<int>, depth: int, k: int, acc: int)
    requires
        is_position(p),
        0 <= k,
        1 <= depth,
        depth - 1 + vacancy(p) < WIN_SCORE,
    ensures
        depth % 2 == 1 ==> sign(best_reply(p, depth, k, acc, true)) == best_result(
            p,
            k,
            sign(acc),
        ),
        depth % 2 == 0 ==> sign(best_reply(p, depth, k, acc, false)) == -best_result(
            p,
            k,
            -sign(acc),
        ),
    decreases vacancy(p), empty_cells(p).len() - k,
{
    if k < empty_cells(p).len() {
        lemma_child(p, k);
        lemma_value_sign(child(p, k), depth);
        let v = game_value(child(p, k), depth);
        if depth % 2 == 1 {
            assert(sign(larger(acc, v)) == larger(sign(acc), sign(v)));
            lemma_best_reply_sign(p, depth, k + 1, larger(acc, v));
        } else {
            assert(-sign(smaller(acc, v)) == larger(-sign(acc), -sign(v)));
            lemma_best_reply_sign(p, depth, k + 1, smaller(acc, v));
        }
    }
}

/// Pruning does not change who wins: with a window that holds every score
/// from minus twenty to twenty, the sign of the score that the search gives
/// a position at depth zero is the result of the game for the player to
/// move.
pub proof fn lemma_search_tells_result(p: Seq<int>, alpha: int, beta: int)
    requires
        is_position(p),
        alpha < -WIN_SCORE,
        WIN_SCORE < beta,
    ensures
        search_value(p, 0, alpha, beta) == game_value(p, 0),
        sign(search_value(p, 0, alpha, beta)) == game_result(p),
{
    lemma_value_range(p, 0);
    lemma_search_agrees(p, 0, alpha, beta);
    lemma_value_sign(p, 0);
}

/// Where play has ended the search has nothing to weigh. A position with
/// three equal marks in a line is lost for the player to move: at depth
/// zero it scores minus twenty whatever the window is. A full board with no
/// such line is drawn and scores zero.
pub proof fn lemma_ended_play(p: Seq<int>, alpha: int, beta: int)
    requires
        is_position(p),
    ensures
        has_line(p) ==> search_value(p, 0, alpha, beta) == -WIN_SCORE && game_value(p, 0)
            == -WIN_SCORE && game_result(p) == -1,
        !has_line(p) && is_full(p) ==> search_value(p, 0, alpha, beta) == 0 && game_value(p, 0)
            == 0 && game_result(p) == 0,
{
    lemma_winner_iff_line(p);
}

} // verus!
