//! What a position is worth when every line of play is followed to its end.
//!
//! Depth counts the moves made since the position that the search started
//! from. The player to move there maximises at even depth; the other
//! player minimises at odd depth.

use crate::position::is_position;
use crate::rules::{
    child, empty_cells, is_full, lemma_child, lemma_empty_cells, vacancy, winner,
};
use vstd::prelude::*;

verus! {

/// The score that stands for a win at depth zero; each move made since
/// takes one off.
pub const WIN_SCORE: isize = 20;

/// The greater of two integers.
pub open spec fn larger(a: int, b: int) -> int {
    if a >= b {
        a
    } else {
        b
    }
}

/// The smaller of two integers.
pub open spec fn smaller(a: int, b: int) -> int {
    if a <= b {
        a
    } else {
        b
    }
}

/// The score of a position with a filled line, reached at `depth`. The line
/// belongs to the player who moved last. At odd depth that is the player the
/// search started for, who is credited the sooner the win comes; at even
/// depth it is the opponent, and a later loss weighs less.
pub open spec fn leaf_score(depth: int) -> int {
    if depth % 2 == 1 {
        WIN_SCORE - depth
    } else {
        depth - WIN_SCORE
    }
}

/// The value of position `p` at `depth` when every line of play is followed
/// to its end: the score of a filled line, zero for a full board without
/// one, and otherwise the best value among the positions one move away, the
/// greatest at even depth and the smallest at odd depth.
pub open spec fn game_value(p: Seq<int>, depth: int) -> int
    decreases vacancy(p), 10int,
    when is_position(p)
{
    if winner(p) != 0 {
        leaf_score(depth)
    } else if is_full(p) {
        0
    } else {
        proof {
            lemma_child(p, 0);
            lemma_empty_cells(p);
        }
        best_reply(p, depth + 1, 1, game_value(child(p, 0), depth + 1), depth % 2 == 0)
    }
}

/// The best of `acc` and the values, at `depth`, of the positions that the
/// `k`-th and later empty cells of `p` lead to: the greatest if `maximize`,
/// else the smallest.
pub open spec fn best_reply(p: Seq<int>, depth: int, k: int, acc: int, maximize: bool) -> int
    decreases vacancy(p), empty_cells(p).len() - k,
    when is_position(p) && 0 <= k
{
    if k >= empty_cells(p).len() {
        acc
    } else {
        proof {
            lemma_child(p, k);
        }
        let v = game_value(child(p, k), depth);
        best_reply(
            p,
            depth,
            k + 1,
            if maximize {
                larger(acc, v)
            } else {
                smaller(acc, v)
            },
            maximize,
        )
    }
}

/// Folding in a bound before the replies or after them gives the same
/// value: the best of `larger(x, y)` and the replies is the larger of `x`
/// and the best of `y` and the replies.
pub proof fn lemma_best_reply_larger(p: Seq<int>, depth: int, k: int, x: int, y: int)
    requires
        is_position(p),
        0 <= k,
    ensures
        best_reply(p, depth, k, larger(x, y), true) == larger(
            x,
            best_reply(p, depth, k, y, true),
        ),
    decreases empty_cells(p).len() - k,
{
    if k < empty_cells(p).len() {
        let v = game_value(child(p, k), depth);
        lemma_child(p, k);
        assert(larger(larger(x, y), v) == larger(x, larger(y, v)));
        lemma_best_reply_larger(p, depth, k + 1, x, larger(y, v));
    }
}

/// The same for the minimising side: the best of `smaller(x, y)` and the
/// replies is the smaller of `x` and the best of `y` and the replies.
pub proof fn lemma_best_reply_smaller(p: Seq<int>, depth: int, k: int, x: int, y: int)
    requires
        is_position(p),
        0 <= k,
    ensures
        best_reply(p, depth, k, smaller(x, y), false) == smaller(
            x,
            best_reply(p, depth, k, y, false),
        ),
    decreases empty_cells(p).len() - k,
{
    if k < empty_cells(p).len() {
        let v = game_value(child(p, k), depth);
        lemma_child(p, k);
        assert(smaller(smaller(x, y), v) == smaller(x, smaller(y, v)));
        lemma_best_reply_smaller(p, depth, k + 1, x, smaller(y, v));
    }
}

/// The best of a bound and the replies is never on the wrong side of the
/// bound.
pub proof fn lemma_best_reply_keeps_bound(p: Seq<int>, depth: int, k: int, acc: int)
    requires
        is_position(p),
        0 <= k,
    ensures
        best_reply(p, depth, k, acc, true) >= acc,
        best_reply(p, depth, k, acc, false) <= acc,
{
    assert(larger(acc, acc) == acc);
    assert(smaller(acc, acc) == acc);
    lemma_best_reply_larger(p, depth, k, acc, acc);
    lemma_best_reply_smaller(p, depth, k, acc, acc);
}

/// While a win can still be told from a loss, that is while no line of play
/// from `p` reaches depth twenty, the value of a position at `depth` lies
/// between the worst and the best score that a filled line has there.
pub proof fn lemma_value_range(p: Seq<int>, depth: int)
    requires
        is_position(p),
        0 <= depth,
        depth + vacancy(p) < WIN_SCORE,
    ensures
        depth - WIN_SCORE <= game_value(p, depth) <= WIN_SCORE - depth,
    decreases vacancy(p), 10int,
{
    if winner(p) == 0 && !is_full(p) {
        lemma_child(p, 0);
        lemma_empty_cells(p);
        lemma_value_range(child(p, 0), depth + 1);
        lemma_best_reply_range(
            p,
            depth + 1,
            1,
            game_value(child(p, 0), depth + 1),
            depth % 2 == 0,
        );
    }
}

/// The range of the best reply: an accumulated value inside the range that
/// scores have at `depth` stays inside it when the replies are folded in.
pub proof fn lemma_best_reply_range(p: Seq<int>, depth: int, k: int, acc: int, maximize: bool)
    requires
        is_position(p),
        0 <= k,
        1 <= depth,
        depth - 1 + vacancy(p) < WIN_SCORE,
        depth - WIN_SCORE <= acc <= WIN_SCORE - depth,
    ensures
        depth - WIN_SCORE <= best_reply(p, depth, k, acc, maximize) <= WIN_SCORE - depth,
    decreases vacancy(p), empty_cells(p).len() - k,
{
    if k < empty_cells(p).len() {
        lemma_child(p, k);
        lemma_value_range(child(p, k), depth);
        let v = game_value(child(p, k), depth);
        lemma_best_reply_range(
            p,
            depth,
            k + 1,
            if maximize {
                larger(acc, v)
            } else {
                smaller(acc, v)
            },
            maximize,
        );
    }
}

/// A position without a filled line is worth less than a win on the spot
/// and more than a loss on the spot: its value is at least one step inside
/// the range that scores have at its depth.
pub proof fn lemma_value_inside(p: Seq<int>, depth: int)
    requires
        is_position(p),
        0 <= depth,
        depth + vacancy(p) < WIN_SCORE,
        winner(p) == 0,
    ensures
        depth + 1 - WIN_SCORE <= game_value(p, depth) <= WIN_SCORE - depth - 1,
{
    if !is_full(p) {
        lemma_child(p, 0);
        lemma_empty_cells(p);
        lemma_value_range(child(p, 0), depth + 1);
        lemma_best_reply_range(
            p,
            depth + 1,
            1,
            game_value(child(p, 0), depth + 1),
            depth % 2 == 0,
        );
    }
}

/// The best reply is at least as good as each reply that it was chosen
/// among: not below the value of any for the maximising side, not above
/// the value of any for the minimising side.
pub proof fn lemma_best_reply_dominates(p: Seq<int>, depth: int, k: int, acc: int, j: int)
    requires
        is_position(p),
        0 <= k <= j < empty_cells(p).len(),
    ensures
        best_reply(p, depth, k, acc, true) >= game_value(child(p, j), depth),
        best_reply(p, depth, k, acc, false) <= game_value(child(p, j), depth),
    decreases j - k,
{
    lemma_child(p, k);
    let v = game_value(child(p, k), depth);
    if k == j {
        lemma_best_reply_keeps_bound(p, depth, k + 1, larger(acc, v));
        lemma_best_reply_keeps_bound(p, depth, k + 1, smaller(acc, v));
    } else {
        lemma_best_reply_dominates(p, depth, k + 1, larger(acc, v), j);
        lemma_best_reply_dominates(p, depth, k + 1, smaller(acc, v), j);
    }
}

/// The best reply is one of the values it was chosen among: the value it
/// began with or the value of a reply.
pub proof fn lemma_best_reply_attained(p: Seq<int>, depth: int, k: int, acc: int, maximize: bool)
    requires
        is_position(p),
        0 <= k,
    ensures
        best_reply(p, depth, k, acc, maximize) == acc || exists|j: int|
            k <= j < empty_cells(p).len() && best_reply(p, depth, k, acc, maximize)
                == #[trigger] game_value(child(p, j), depth),
    decreases empty_cells(p).len() - k,
{
    if k < empty_cells(p).len() {
        lemma_child(p, k);
        let v = game_value(child(p, k), depth);
        let next = if maximize {
            larger(acc, v)
        } else {
            smaller(acc, v)
        };
        lemma_best_reply_attained(p, depth, k + 1, next, maximize);
        let best = best_reply(p, depth, k, acc, maximize);
        if best != acc {
            if best == next {
                assert(best == game_value(child(p, k), depth));
            } else {
                let j = choose|j: int|
                    k + 1 <= j < empty_cells(p).len() && best == #[trigger] game_value(
                        child(p, j),
                        depth,
                    );
                assert(k <= j < empty_cells(p).len() && best == game_value(child(p, j), depth));
            }
        }
    }
}

/// The value of a position where play goes on is the value of one of the
/// positions one move away.
pub proof fn lemma_value_attained(p: Seq<int>, depth: int)
    requires
        is_position(p),
        winner(p) == 0,
        !is_full(p),
    ensures
        exists|j: int|
            0 <= j < empty_cells(p).len() && game_value(p, depth) == #[trigger] game_value(
                child(p, j),
                depth + 1,
            ),
{
    lemma_child(p, 0);
    lemma_empty_cells(p);
    let first = game_value(child(p, 0), depth + 1);
    lemma_best_reply_attained(p, depth + 1, 1, first, depth % 2 == 0);
    if game_value(p, depth) == first {
        assert(game_value(p, depth) == game_value(child(p, 0), depth + 1));
    } else {
        let j = choose|j: int|
            1 <= j < empty_cells(p).len() && game_value(p, depth) == #[trigger] game_value(
                child(p, j),
                depth + 1,
            );
        assert(0 <= j < empty_cells(p).len());
    }
}

/// The value of a position where play goes on is at least as good, for the
/// side to move, as the value of each position one move away.
pub proof fn lemma_value_dominates(p: Seq<int>, depth: int, j: int)
    requires
        is_position(p),
        winner(p) == 0,
        0 <= j < empty_cells(p).len(),
    ensures
        depth % 2 == 0 ==> game_value(p, depth) >= game_value(child(p, j), depth + 1),
        depth % 2 != 0 ==> game_value(p, depth) <= game_value(child(p, j), depth + 1),
{
    lemma_child(p, 0);
    lemma_empty_cells(p);
    let first = game_value(child(p, 0), depth + 1);
    if j == 0 {
        lemma_best_reply_keeps_bound(p, depth + 1, 1, first);
    } else {
        lemma_best_reply_dominates(p, depth + 1, 1, first, j);
    }
}

} // verus!
