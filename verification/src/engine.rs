//! The search engine: one stored position, searched in place.

use crate::choice::{
    best_cell, lemma_best_cell_is_best, lemma_search_finds_best_cell, NO_MOVE,
};
use crate::outcome::{game_result, lemma_ended_play, lemma_value_sign, sign};
use crate::position::{
    initial_position, is_cell, is_position, lemma_unplay_restores, EMPTY,
};
use crate::pruning::{
    agrees_in_window, lemma_search_agrees, lower_beta, raise_alpha, raising_move, search_move,
    search_value,
};
use crate::rules::{
    empty_cells, empty_cells_upto, has_line, is_full, is_over, lemma_child, line, vacancy,
    winner, winner_from, LINES, WINNING_PATTERNS,
};
use crate::state::State;
use crate::value::{game_value, lemma_value_range, WIN_SCORE};
use vstd::prelude::*;

verus! {

/// A search engine and the position it works on.
pub struct Engine {
    /// The position that `evaluate_state` and `get_best_move` search.
    pub state: State,
}

/// The list holds the empty cells of the position, in increasing order.
spec fn lists_empty_cells(moves: Seq<usize>, p: Seq<int>) -> bool {
    &&& moves.len() == empty_cells(p).len()
    &&& forall|k: int| 0 <= k < moves.len() ==> moves[k] == empty_cells(p)[k]
}

/// What holds of the engine from one move tried to the next: the position
/// searched is in place again, play goes on there, and depth and window are
/// those that the search was called with.
spec fn between_moves(
    engine: Engine,
    p: Seq<int>,
    depth: isize,
    next_depth: isize,
    alpha: isize,
    beta: isize,
) -> bool {
    &&& engine.state.wf()
    &&& engine.state@ == p
    &&& is_position(p)
    &&& winner(p) == 0
    &&& !is_full(p)
    &&& 0 <= depth
    &&& next_depth == depth + 1
    &&& next_depth + vacancy(p) <= isize::MAX + 1
    &&& alpha < beta ==> agrees_in_window(
        search_value(p, depth as int, alpha as int, beta as int),
        game_value(p, depth as int),
        alpha as int,
        beta as int,
    )
}

/// The lowest bit of a count that is not negative tells whether it is odd.
proof fn lemma_low_bit_tells_odd(n: isize)
    by (bit_vector)
    requires
        n >= 0,
    ensures
        (n & 1 == 1) == (n % 2 == 1),
{
}

impl Engine {
    /// Creates an engine that holds the empty board with the first player
    /// to move.
    pub fn new() -> (e: Engine)
        ensures
            e.state.wf(),
            e.state@ == initial_position(),
    {
        Engine { state: State::new() }
    }

    /// Looks for a filled line. Returns the mark of the first line that
    /// holds three equal marks, or zero when there is none.
    pub fn is_win_state(&self) -> (mark: usize)
        requires
            self.state.wf(),
        ensures
            mark == winner(self.state@),
    {
        let mut k: usize = 0;
        while k < LINES
            invariant
                k <= LINES,
                self.state.wf(),
                winner(self.state@) == winner_from(self.state@, k as int),
            decreases LINES - k,
        {
            let (a, b, c) = WINNING_PATTERNS[k];
            assert((a as int, b as int, c as int) == line(k as int));
            let d = self.state.get(a);
            if d != 0 && d == self.state.get(b) && self.state.get(b) == self.state.get(c) {
                return d;
            }
            k = k + 1;
        }
        0
    }

    /// The empty cells in increasing order.
    fn available_moves(&self) -> (moves: Vec<usize>)
        requires
            self.state.wf(),
        ensures
            lists_empty_cells(moves@, self.state@),
    {
        let mut moves: Vec<usize> = Vec::new();
        let mut i: usize = 1;
        while i <= 9
            invariant
                1 <= i <= 10,
                self.state.wf(),
                moves@.len() == empty_cells_upto(self.state@, i - 1).len(),
                forall|k: int|
                    0 <= k < moves@.len() ==> moves@[k] == empty_cells_upto(
                        self.state@,
                        i - 1,
                    )[k],
            decreases 10 - i,
        {
            if self.state.get(i) == 0 {
                moves.push(i);
            }
            i = i + 1;
        }
        moves
    }

    /// Searches the stored position at `depth` with the window `alpha`,
    /// `beta`, and returns its score. The position is searched in place and
    /// is the same after the call as before it. A search at depth zero
    /// leaves in `best_move` the cell of the last move that raised `alpha`.
    ///
    /// The score is a function of the position, the depth and the window.
    /// With an open window it stands for the value of exhaustive play: it is
    /// that value where the value lies strictly inside the window.
    pub fn evaluate_state(
        &mut self,
        depth: isize,
        best_move: &mut usize,
        alpha: isize,
        beta: isize,
    ) -> (score: isize)
        requires
            old(self).state.wf(),
            0 <= depth,
            depth + vacancy(old(self).state@) <= isize::MAX,
        ensures
            final(self).state.wf(),
            final(self).state@ == old(self).state@,
            score == search_value(old(self).state@, depth as int, alpha as int, beta as int),
            *final(best_move) == search_move(
                old(self).state@,
                depth as int,
                alpha as int,
                beta as int,
                *old(best_move) as int,
            ),
            alpha < beta ==> agrees_in_window(
                score as int,
                game_value(old(self).state@, depth as int),
                alpha as int,
                beta as int,
            ),
        decreases vacancy(old(self).state@),
    {
        let ghost p = self.state@;
        let ghost slot = *best_move as int;
        proof {
            if alpha < beta {
                lemma_search_agrees(p, depth as int, alpha as int, beta as int);
            }
        }
        let check_win = self.is_win_state();
        if check_win > 0 {
            proof {
                lemma_low_bit_tells_odd(depth);
            }
            if depth & 1 == 1 {
                return WIN_SCORE - depth;
            } else {
                return depth - WIN_SCORE;
            }
        }
        let available_moves = self.available_moves();
        if available_moves.is_empty() {
            return 0;
        }
        proof {
            lemma_child(p, 0);
        }
        let mut lower = alpha;
        let mut upper = beta;
        let mut result;
        let next_depth = depth + 1;
        let mut k: usize = 0;
        proof {
            lemma_low_bit_tells_odd(next_depth);
        }
        if next_depth & 1 == 1 {
            while k < available_moves.len()
                invariant
                    between_moves(*self, p, depth, next_depth, alpha, beta),
                    p == old(self).state@,
                    slot == *old(best_move),
                    next_depth % 2 == 1,
                    lists_empty_cells(available_moves@, p),
                    k <= available_moves@.len(),
                    raise_alpha(p, next_depth as int, k as int, lower as int, beta as int)
                        == raise_alpha(p, next_depth as int, 0, alpha as int, beta as int),
                    next_depth == 1 ==> raising_move(
                        p,
                        k as int,
                        lower as int,
                        beta as int,
                        *best_move as int,
                    ) == raising_move(p, 0, alpha as int, beta as int, slot),
                    next_depth != 1 ==> *best_move == slot,
                decreases available_moves@.len() - k,
            {
                let cur_move = available_moves[k];
                proof {
                    lemma_child(p, k as int);
                }
                self.state.set(cur_move);
                result = self.evaluate_state(next_depth, best_move, lower, beta);
                self.state.unset(cur_move);
                proof {
                    lemma_unplay_restores(p, cur_move as int);
                }
                if result > lower {
                    lower = result;
                    if next_depth == 1 {
                        *best_move = cur_move;
                    }
                } else if lower >= beta {
                    return lower;
                }
                k = k + 1;
            }
            lower
        } else {
            while k < available_moves.len()
                invariant
                    between_moves(*self, p, depth, next_depth, alpha, beta),
                    p == old(self).state@,
                    slot == *old(best_move),
                    next_depth % 2 == 0,
                    lists_empty_cells(available_moves@, p),
                    k <= available_moves@.len(),
                    lower_beta(p, next_depth as int, k as int, alpha as int, upper as int)
                        == lower_beta(p, next_depth as int, 0, alpha as int, beta as int),
                    *best_move == slot,
                decreases available_moves@.len() - k,
            {
                let cur_move = available_moves[k];
                proof {
                    lemma_child(p, k as int);
                }
                self.state.set(cur_move);
                result = self.evaluate_state(next_depth, best_move, alpha, upper);
                self.state.unset(cur_move);
                proof {
                    lemma_unplay_restores(p, cur_move as int);
                }
                if result < upper {
                    upper = result;
                } else if upper <= alpha {
                    return upper;
                }
                k = k + 1;
            }
            upper
        }
    }

    /// The score of the stored position for the player to move: the value
    /// of exhaustive play from it, counted from depth zero. It is positive
    /// when the player to move wins under best play, zero when the game is
    /// drawn and negative when the player to move loses. A position with a
    /// filled line scores minus twenty, a full board without one zero. The
    /// position is the same after the call as before it.
    pub fn evaluate(&mut self) -> (score: isize)
        requires
            old(self).state.wf(),
        ensures
            final(self).state.wf(),
            final(self).state@ == old(self).state@,
            score == game_value(old(self).state@, 0),
            -WIN_SCORE <= score <= WIN_SCORE,
            sign(score as int) == game_result(old(self).state@),
            has_line(old(self).state@) ==> score == -WIN_SCORE,
            !has_line(old(self).state@) && is_full(old(self).state@) ==> score == 0,
    {
        let mut best_move = NO_MOVE;
        proof {
            lemma_value_range(self.state@, 0);
            lemma_value_sign(self.state@, 0);
            lemma_ended_play(self.state@, isize::MIN as int, isize::MAX as int);
        }
        self.evaluate_state(0, &mut best_move, isize::MIN, isize::MAX)
    }

    /// The best move from the stored position: the first empty cell, in
    /// increasing order, whose move keeps the value of the position for the
    /// player to move. Returns zero when play has ended. The position is the
    /// same after the call as before it.
    pub fn get_best_move(&mut self) -> (cell: usize)
        requires
            old(self).state.wf(),
        ensures
            final(self).state.wf(),
            final(self).state@ == old(self).state@,
            cell == best_cell(old(self).state@),
            is_over(old(self).state@) ==> cell == NO_MOVE,
            !is_over(old(self).state@) ==> is_cell(cell as int) && old(self).state@[cell as int]
                == EMPTY,
    {
        let mut best_move = NO_MOVE;
        let alpha = isize::MIN;
        let beta = isize::MAX;
        proof {
            let p = self.state@;
            lemma_value_range(p, 0);
            if !is_over(p) {
                lemma_search_finds_best_cell(p, alpha as int, beta as int, NO_MOVE as int);
                lemma_best_cell_is_best(p);
            }
        }
        self.evaluate_state(0, &mut best_move, alpha, beta);
        best_move
    }
}

} // verus!
