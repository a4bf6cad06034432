//! The pruned search as a function of the position, and the proof that
//! inside its window it finds the value of exhaustive play.

use crate::position::is_position;
use crate::rules::{child, empty_cells, is_full, lemma_child, lemma_empty_cells, vacancy, winner};
use crate::value::{
    best_reply, game_value, larger, leaf_score, lemma_best_reply_keeps_bound,
    lemma_best_reply_larger, lemma_best_reply_smaller, smaller,
};
use vstd::prelude::*;

verus! {

/// The value that the search with window `alpha`, `beta` gives position `p`
/// at `depth`. A position where play has ended has its own score whatever
/// the window is. Elsewhere the moves are tried in increasing order of
/// cell, with `alpha` raised at even depth and `beta` lowered at odd depth.
pub open spec fn search_value(p: Seq<int>, depth: int, alpha: int, beta: int) -> int
    decreases vacancy(p), 10int,
    when is_position(p)
{
    if winner(p) != 0 {
        leaf_score(depth)
    } else if is_full(p) {
        0
    } else {
        proof {
            lemma_empty_cells(p);
        }
        if depth % 2 == 0 {
            raise_alpha(p, depth + 1, 0, alpha, beta)
        } else {
            lower_beta(p, depth + 1, 0, alpha, beta)
        }
    }
}

/// The lower bound that the maximising player is left with after trying the
/// `k`-th and later empty cells of `p`. A move that scores above `alpha`
/// raises it. One that does not ends the trial if the window is closed.
pub open spec fn raise_alpha(p: Seq<int>, depth: int, k: int, alpha: int, beta: int) -> int
    decreases vacancy(p), empty_cells(p).len() - k,
    when is_position(p) && 0 <= k
{
    if k >= empty_cells(p).len() {
        alpha
    } else {
        proof {
            lemma_child(p, k);
        }
        let score = search_value(child(p, k), depth, alpha, beta);
        if score > alpha {
            raise_alpha(p, depth, k + 1, score, beta)
        } else if alpha >= beta {
            alpha
        } else {
            raise_alpha(p, depth, k + 1, alpha, beta)
        }
    }
}

/// The upper bound that the minimising player is left with after trying the
/// `k`-th and later empty cells of `p`. A move that scores below `beta`
/// lowers it. One that does not ends the trial if the window is closed.
pub open spec fn lower_beta(p: Seq<int>, depth: int, k: int, alpha: int, beta: int) -> int
    decreases vacancy(p), empty_cells(p).len() - k,
    when is_position(p) && 0 <= k
{
    if k >= empty_cells(p).len() {
        beta
    } else {
        proof {
            lemma_child(p, k);
        }
        let score = search_value(child(p, k), depth, alpha, beta);
        if score < beta {
            lower_beta(p, depth, k + 1, alpha, score)
        } else if beta <= alpha {
            beta
        } else {
            lower_beta(p, depth, k + 1, alpha, beta)
        }
    }
}

/// The move that the search at the starting position is left with after
/// trying the `k`-th and later empty cells of `p`: the cell of the last
/// move that raised `alpha`, or `best` if none did.
pub open spec fn raising_move(p: Seq<int>, k: int, alpha: int, beta: int, best: int) -> int
    decreases empty_cells(p).len() - k,
    when 0 <= k
{
    if k >= empty_cells(p).len() {
        best
    } else {
        let score = search_value(child(p, k), 1, alpha, beta);
        if score > alpha {
            raising_move(p, k + 1, score, beta, empty_cells(p)[k])
        } else if alpha >= beta {
            best
        } else {
            raising_move(p, k + 1, alpha, beta, best)
        }
    }
}

/// The move that a search of position `p` at `depth` leaves in the slot
/// that held `best`. Only a search at depth zero of a position where play
/// goes on writes to the slot.
pub open spec fn search_move(p: Seq<int>, depth: int, alpha: int, beta: int, best: int) -> int {
    if depth == 0 && winner(p) == 0 && !is_full(p) {
        raising_move(p, 0, alpha, beta, best)
    } else {
        best
    }
}

/// A score stands for a value as far as a window can tell: it is the
/// value where the value lies strictly inside the window, and it is on the
/// same side of the window where the value lies outside.
pub open spec fn agrees_in_window(score: int, value: int, alpha: int, beta: int) -> bool {
    &&& value <= alpha ==> score <= alpha
    &&& alpha < value < beta ==> score == value
    &&& value >= beta ==> score >= beta
}

/// Pruning loses nothing that the window can tell: with an open window the
/// search gives a score that stands for the value of exhaustive play.
pub proof fn lemma_search_agrees(p: Seq<int>, depth: int, alpha: int, beta: int)
    requires
        is_position(p),
        alpha < beta,
    ensures
        agrees_in_window(search_value(p, depth, alpha, beta), game_value(p, depth), alpha, beta),
    decreases vacancy(p), 10int,
{
    if winner(p) == 0 && !is_full(p) {
        lemma_child(p, 0);
        lemma_empty_cells(p);
        let first = game_value(child(p, 0), depth + 1);
        if depth % 2 == 0 {
            lemma_raise_alpha_agrees(p, depth + 1, 0, alpha, beta);
            lemma_best_reply_larger(p, depth + 1, 1, alpha, first);
        } else {
            lemma_lower_beta_agrees(p, depth + 1, 0, alpha, beta);
            lemma_best_reply_smaller(p, depth + 1, 1, beta, first);
        }
    }
}

/// The maximising player's trial of the moves: the bound never falls, and
/// while the window is open it ends at the best of `alpha` and the values
/// of the replies if that is below `beta`, and at or above `beta` if not.
pub proof fn lemma_raise_alpha_agrees(p: Seq<int>, depth: int, k: int, alpha: int, beta: int)
    requires
        is_position(p),
        0 <= k,
    ensures
        raise_alpha(p, depth, k, alpha, beta) >= alpha,
        alpha < beta && best_reply(p, depth, k, alpha, true) < beta ==> raise_alpha(
            p,
            depth,
            k,
            alpha,
            beta,
        ) == best_reply(p, depth, k, alpha, true),
        alpha < beta && best_reply(p, depth, k, alpha, true) >= beta ==> raise_alpha(
            p,
            depth,
            k,
            alpha,
            beta,
        ) >= beta,
    decreases vacancy(p), empty_cells(p).len() - k,
{
    if k < empty_cells(p).len() {
        lemma_child(p, k);
        let value = game_value(child(p, k), depth);
        let score = search_value(child(p, k), depth, alpha, beta);
        if alpha < beta {
            lemma_search_agrees(child(p, k), depth, alpha, beta);
        }
        if score > alpha {
            lemma_raise_alpha_agrees(p, depth, k + 1, score, beta);
            lemma_best_reply_keeps_bound(p, depth, k + 1, larger(alpha, value));
        } else if alpha < beta {
            lemma_raise_alpha_agrees(p, depth, k + 1, alpha, beta);
        }
    }
}

/// The minimising player's trial of the moves: the bound never rises, and
/// while the window is open it ends at the best of `beta` and the values of
/// the replies if that is above `alpha`, and at or below `alpha` if not.
pub proof fn lemma_lower_beta_agrees(p: Seq<int>, depth: int, k: int, alpha: int, beta: int)
    requires
        is_position(p),
        0 <= k,
    ensures
        lower_beta(p, depth, k, alpha, beta) <= beta,
        alpha < beta && best_reply(p, depth, k, beta, false) > alpha ==> lower_beta(
            p,
            depth,
            k,
            alpha,
            beta,
        ) == best_reply(p, depth, k, beta, false),
        alpha < beta && best_reply(p, depth, k, beta, false) <= alpha ==> lower_beta(
            p,
            depth,
            k,
            alpha,
            beta,
        ) <= alpha,
    decreases vacancy(p), empty_cells(p).len() - k,
{
    if k < empty_cells(p).len() {
        lemma_child(p, k);
        let value = game_value(child(p, k), depth);
        let score = search_value(child(p, k), depth, alpha, beta);
        if alpha < beta {
            lemma_search_agrees(child(p, k), depth, alpha, beta);
        }
        if score < beta {
            lemma_lower_beta_agrees(p, depth, k + 1, alpha, score);
            lemma_best_reply_keeps_bound(p, depth, k + 1, smaller(beta, value));
        } else if alpha < beta {
            lemma_lower_beta_agrees(p, depth, k + 1, alpha, beta);
        }
    }
}

} // verus!
