//! The mathematical model of a position: ten occupant codes, the first for
//! the player to move and the other nine for the cells in row-major order.

use vstd::prelude::*;

verus! {

/// Occupant code of an empty cell.
pub const EMPTY: usize = 0;

/// Occupant code of the first player's mark.
pub const CROSS: usize = 1;

/// Occupant code of the second player's mark.
pub const NOUGHT: usize = 2;

/// The occupant code spelled by a pair of bits: the low bit counts one, the
/// high bit two.
pub open spec fn code_of(low: bool, high: bool) -> int {
    (if high { 2int } else { 0int }) + (if low { 1int } else { 0int })
}

/// The ten occupant codes spelled by twenty bits, two bits per code.
pub open spec fn codes_of(bits: Seq<bool>) -> Seq<int> {
    Seq::new(10, |i: int| code_of(bits[2 * i], bits[2 * i + 1]))
}

/// A player's code: cross or nought.
pub open spec fn is_player(code: int) -> bool {
    code == CROSS || code == NOUGHT
}

/// A cell index: one to nine.
pub open spec fn is_cell(i: int) -> bool {
    1 <= i <= 9
}

/// Ten codes form a position when the first names a player and each of the
/// others is empty or names a player.
pub open spec fn is_position(p: Seq<int>) -> bool {
    &&& p.len() == 10
    &&& is_player(p[0])
    &&& forall|i: int| is_cell(i) ==> #[trigger] p[i] == EMPTY || is_player(p[i])
}

/// The empty board with the first player to move.
pub open spec fn initial_position() -> Seq<int> {
    seq![1int, 0int, 0int, 0int, 0int, 0int, 0int, 0int, 0int, 0int]
}

/// A character that may stand for a cell: `x`, `o` or `-`.
pub open spec fn is_cell_char(c: char) -> bool {
    c == 'x' || c == 'o' || c == '-'
}

/// A character that may stand for the player to move: `x` or `o`.
pub open spec fn is_turn_char(c: char) -> bool {
    c == 'x' || c == 'o'
}

/// The occupant code that a character stands for.
pub open spec fn char_code(c: char) -> int {
    if c == 'x' {
        CROSS as int
    } else if c == 'o' {
        NOUGHT as int
    } else {
        EMPTY as int
    }
}

/// A board description is taken when its turn marker names a player and each
/// of its first nine characters stands for a cell. Characters after the
/// ninth are not looked at.
pub open spec fn is_description(board: Seq<char>, turn: char) -> bool {
    &&& is_turn_char(turn)
    &&& forall|i: int| 0 <= i < board.len() && i < 9 ==> is_cell_char(#[trigger] board[i])
}

/// The position that a board description stands for. Cell `i` takes the
/// character at index `i - 1`; a cell the description is too short for is
/// empty.
pub open spec fn described(board: Seq<char>, turn: char) -> Seq<int> {
    Seq::new(
        10,
        |i: int|
            if i == 0 {
                char_code(turn)
            } else if i - 1 < board.len() {
                char_code(board[i - 1])
            } else {
                EMPTY as int
            },
    )
}

/// The position with the turn handed to the other side: both turn bits are
/// flipped, which exchanges the two player codes.
pub open spec fn switched(p: Seq<int>) -> Seq<int> {
    p.update(0, 3 - p[0])
}

/// The position after the player to move marks cell `i`.
pub open spec fn played(p: Seq<int>, i: int) -> Seq<int> {
    switched(p.update(i, p[0]))
}

/// The position after cell `i` is cleared and the turn handed back.
pub open spec fn unplayed(p: Seq<int>, i: int) -> Seq<int> {
    switched(p.update(i, EMPTY as int))
}

/// Clearing a cell that was empty before it was marked gives back the
/// position that the mark was made in.
pub proof fn lemma_unplay_restores(p: Seq<int>, i: int)
    requires
        p.len() == 10,
        is_cell(i),
        p[i] == EMPTY,
    ensures
        unplayed(played(p, i), i) == p,
{
    assert(unplayed(played(p, i), i) =~= p);
}

/// Two orders of the same moves lead to the same position: when the player
/// to move takes cells `i` and `k` and the opponent takes cell `j` between
/// them, it does not matter which of `i` and `k` was taken first.
pub proof fn lemma_move_order(p: Seq<int>, i: int, j: int, k: int)
    requires
        p.len() == 10,
        is_cell(i),
        is_cell(j),
        is_cell(k),
        i != j,
        j != k,
        i != k,
    ensures
        played(played(played(p, i), j), k) == played(played(played(p, k), j), i),
{
    assert(played(played(played(p, i), j), k) =~= played(played(played(p, k), j), i));
}

/// A board description that is taken stands for a position.
pub proof fn lemma_described_is_position(board: Seq<char>, turn: char)
    requires
        is_description(board, turn),
    ensures
        is_position(described(board, turn)),
{
    let p = described(board, turn);
    assert forall|i: int| is_cell(i) implies #[trigger] p[i] == EMPTY || is_player(p[i]) by {
        if i - 1 < board.len() {
            assert(is_cell_char(board[i - 1]));
        }
    }
}

/// Marking a cell of a position gives a position.
pub proof fn lemma_played_is_position(p: Seq<int>, i: int)
    requires
        is_position(p),
        is_cell(i),
    ensures
        is_position(played(p, i)),
{
    let q = played(p, i);
    assert forall|j: int| is_cell(j) implies #[trigger] q[j] == EMPTY || is_player(q[j]) by {
        if j != i {
            assert(q[j] == p[j]);
        }
    }
}

} // verus!
