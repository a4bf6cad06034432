//! The stored position: twenty bits, two for the player to move and two for
//! each of the nine cells.

use crate::bitstore::{bit_at, bit_seq, copied, filled, put_bit, same_bits};
use crate::position::{
    char_code, code_of, codes_of, described, initial_position, is_cell, is_cell_char,
    is_description, is_position, is_turn_char, lemma_described_is_position,
    lemma_unplay_restores, played, switched, unplayed, EMPTY,
};
use bit_vec::BitVec;
use vstd::prelude::*;

verus! {

/// A position packed into a bit vector. Bits 0 and 1 hold the player to
/// move; bits `2 * i` and `2 * i + 1` hold cell `i`. A pair reads `10` for
/// the first player, `01` for the second and `00` for an empty cell.
#[derive(Debug, Hash)]
pub struct State {
    info: BitVec<u32>,
}

impl View for State {
    type V = Seq<int>;

    /// The ten occupant codes: the player to move, then the nine cells.
    closed spec fn view(&self) -> Seq<int> {
        codes_of(bit_seq(self.info))
    }
}

impl Clone for State {
    /// A second store with the same bits.
    fn clone(&self) -> (s: State)
        ensures
            s.bits() == self.bits(),
            s@ == self@,
            s.wf() == self.wf(),
    {
        State { info: copied(&self.info) }
    }
}

impl PartialEq for State {
    fn eq(&self, other: &State) -> (r: bool) {
        same_bits(&self.info, &other.info)
    }
}

impl Eq for State {

}

impl vstd::std_specs::cmp::PartialEqSpecImpl for State {
    open spec fn obeys_eq_spec() -> bool {
        true
    }

    /// Two stored positions are equal when they hold the same bits.
    open spec fn eq_spec(&self, other: &State) -> bool {
        self.bits() == other.bits()
    }
}

impl State {
    /// The bits as stored.
    pub closed spec fn bits(&self) -> Seq<bool> {
        bit_seq(self.info)
    }

    /// The store holds exactly twenty bits.
    pub closed spec fn inv(&self) -> bool {
        bit_seq(self.info).len() == 20
    }

    /// The store is whole and spells a position.
    pub open spec fn wf(&self) -> bool {
        self.inv() && is_position(self@)
    }

    /// Creates the empty board with the first player to move.
    pub fn new() -> (s: State)
        ensures
            s.wf(),
            s@ == initial_position(),
    {
        let mut bv = filled(20, false);
        put_bit(&mut bv, 0, true);
        let s = State { info: bv };
        assert(s@ =~= initial_position());
        s
    }

    /// Replaces the whole position by the one that `board` and `turn`
    /// describe. A description with a turn marker other than `x` or `o`, or
    /// with a character other than `x`, `o` or `-` among its first nine, is
    /// not taken and leaves the position as it was.
    pub fn update(&mut self, board: Vec<char>, turn: char)
        ensures
            is_description(board@, turn) ==> final(self).wf() && final(self)@ == described(
                board@,
                turn,
            ),
            !is_description(board@, turn) ==> *final(self) == *old(self),
    {
        let mut bv = filled(20, false);
        if turn == 'x' {
            put_bit(&mut bv, 0, true);
            put_bit(&mut bv, 1, false);
        } else if turn == 'o' {
            put_bit(&mut bv, 0, false);
            put_bit(&mut bv, 1, true);
        } else {
            return ;
        }
        let mut i: usize = 0;
        while i < board.len() && i < 9
            invariant
                i <= 9,
                i <= board.len(),
                is_turn_char(turn),
                bit_seq(bv).len() == 20,
                forall|j: int| 0 <= j < i ==> is_cell_char(#[trigger] board@[j]),
                code_pair(bit_seq(bv), 0) == char_code(turn),
                forall|j: int|
                    1 <= j <= i ==> code_pair(bit_seq(bv), j) == char_code(board@[j - 1]),
                forall|j: int| i < j <= 9 ==> code_pair(bit_seq(bv), j) == 0,
            decreases 9 - i,
        {
            let c = board[i];
            let ghost before = bit_seq(bv);
            if c == 'x' {
                put_bit(&mut bv, 2 * i + 2, true);
                put_bit(&mut bv, 2 * i + 3, false);
            } else if c == 'o' {
                put_bit(&mut bv, 2 * i + 2, false);
                put_bit(&mut bv, 2 * i + 3, true);
            } else if c == '-' {
                put_bit(&mut bv, 2 * i + 2, false);
                put_bit(&mut bv, 2 * i + 3, false);
            } else {
                return ;
            }
            proof {
                let after = bit_seq(bv);
                assert forall|j: int| 0 <= j <= 9 && j != i + 1 implies code_pair(after, j)
                    == code_pair(before, j) by {
                    assert(after[2 * j] == before[2 * j]);
                    assert(after[2 * j + 1] == before[2 * j + 1]);
                }
                assert(code_pair(after, i + 1) == char_code(c));
            }
            i = i + 1;
        }
        self.info = bv;
        proof {
            assert(self@ =~= described(board@, turn)) by {
                assert forall|j: int| 0 <= j < 10 implies self@[j] == described(
                    board@,
                    turn,
                )[j] by {
                    assert(self@[j] == code_pair(bit_seq(bv), j));
                }
            }
            lemma_described_is_position(board@, turn);
        }
    }

    /// The occupant code at index `idx`: the player to move for index 0, the
    /// cell's occupant for indices one to nine.
    pub fn get(&self, idx: usize) -> (code: usize)
        requires
            self.wf(),
            idx <= 9,
        ensures
            code == self@[idx as int],
    {
        let high = bit_or_false(&self.info, idx * 2 + 1);
        let low = bit_or_false(&self.info, idx * 2);
        (if high { 2 } else { 0 }) + (if low { 1 } else { 0 })
    }

    /// Passes the turn to the other player by flipping both turn bits.
    pub fn switch_turn(&mut self)
        requires
            old(self).wf(),
        ensures
            final(self).wf(),
            final(self)@ == switched(old(self)@),
    {
        let low = bit_or_false(&self.info, 0);
        put_bit(&mut self.info, 0, !low);
        let high = bit_or_false(&self.info, 1);
        put_bit(&mut self.info, 1, !high);
        assert(self@ =~= switched(old(self)@));
    }

    /// A move: marks cell `idx` with the turn's own two bits and passes the
    /// turn. The cell is meant to be empty; whatever it held is overwritten.
    pub fn set(&mut self, idx: usize)
        requires
            old(self).wf(),
            is_cell(idx as int),
        ensures
            final(self).wf(),
            final(self)@ == played(old(self)@, idx as int),
    {
        let low = bit_or_false(&self.info, 0);
        put_bit(&mut self.info, idx * 2, low);
        let high = bit_or_false(&self.info, 1);
        put_bit(&mut self.info, idx * 2 + 1, high);
        assert(self@ =~= old(self)@.update(idx as int, old(self)@[0]));
        self.switch_turn();
    }

    /// Takes a move back: clears cell `idx` and passes the turn.
    pub fn unset(&mut self, idx: usize)
        requires
            old(self).wf(),
            is_cell(idx as int),
        ensures
            final(self).wf(),
            final(self)@ == unplayed(old(self)@, idx as int),
    {
        put_bit(&mut self.info, idx * 2, false);
        put_bit(&mut self.info, idx * 2 + 1, false);
        assert(self@ =~= old(self)@.update(idx as int, 0));
        self.switch_turn();
    }
}

/// Two stored positions hold the same bits exactly when they spell the same
/// player to move and the same cells: what `==` compares is the position
/// and nothing else.
pub proof fn lemma_equal_iff_same_position(a: State, b: State)
    requires
        a.inv(),
        b.inv(),
    ensures
        a.bits() == b.bits() <==> a@ == b@,
{
    if a@ == b@ {
        assert forall|j: int| 0 <= j < 20 implies a.bits()[j] == b.bits()[j] by {
            let i = j / 2;
            assert(a@[i] == code_pair(a.bits(), i));
            assert(b@[i] == code_pair(b.bits(), i));
        }
        assert(a.bits() =~= b.bits());
    }
}

/// A move taken back leaves no trace: a store that spells the position
/// reached by marking an empty cell and clearing it again holds, bit for
/// bit, what the store held before the move.
pub proof fn lemma_undo_restores(before: State, after: State, idx: int)
    requires
        before.wf(),
        after.inv(),
        is_cell(idx),
        before@[idx] == EMPTY,
        after@ == unplayed(played(before@, idx), idx),
    ensures
        after@ == before@,
        after.bits() == before.bits(),
{
    lemma_unplay_restores(before@, idx);
    lemma_equal_iff_same_position(before, after);
}

/// The occupant code that the bits hold for index `j`.
spec fn code_pair(bits: Seq<bool>, j: int) -> int {
    code_of(bits[2 * j], bits[2 * j + 1])
}

/// The bit at index `i`, or `false` where the vector has no such bit.
fn bit_or_false(v: &BitVec<u32>, i: usize) -> (b: bool)
    ensures
        b == (i < bit_seq(*v).len() && bit_seq(*v)[i as int]),
{
    match bit_at(v, i) {
        Some(b) => b,
        None => false,
    }
}

} // verus!
