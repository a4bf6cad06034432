//! The reader of the line protocol: a line is cut into words, and the words
//! are read as one request.

use crate::position::{is_cell_char, is_description, is_turn_char};
use vstd::prelude::*;

verus! {

/// A request read from one line.
pub enum InputType {
    /// Replace the position: the nine cells in row-major order, each `x`,
    /// `o` or `-`, and the player to move, `x` or `o`.
    State(Vec<char>, char),
    /// Ask for the best move.
    Move,
    /// Ask for the score of the position.
    Eval,
    /// Stop.
    Quit,
}

/// What a request says, with its board as a sequence of characters.
pub enum Request {
    /// Replace the position by this board with this player to move.
    State(Seq<char>, char),
    /// Ask for the best move.
    Move,
    /// Ask for the score of the position.
    Eval,
    /// Stop.
    Quit,
}

impl View for InputType {
    type V = Request;

    open spec fn view(&self) -> Request {
        match *self {
            InputType::State(board, turn) => Request::State(board@, turn),
            InputType::Move => Request::Move,
            InputType::Eval => Request::Eval,
            InputType::Quit => Request::Quit,
        }
    }
}

/// Holds the words of the line read last.
pub struct Parser {
    input_lines: Vec<Vec<char>>,
}

/// Whether `char::is_whitespace` holds of a character, that is, whether
/// Unicode counts the character as white space (`White_Space`).
pub uninterp spec fn is_whitespace(c: char) -> bool;

/// `char::is_whitespace`: tells whether the character is white space.
#[verifier::external_body]
fn is_space(c: char) -> (r: bool)
    ensures
        r == is_whitespace(c),
{
    c.is_whitespace()
}

/// The word that is still open at the end of `s`: the characters after the
/// last white space. It is empty when `s` is empty or ends in white space.
pub open spec fn open_word(s: Seq<char>) -> Seq<char>
    decreases s.len(),
{
    if s.len() == 0 || is_whitespace(s.last()) {
        Seq::empty()
    } else {
        open_word(s.drop_last()).push(s.last())
    }
}

/// The words of `s` that white space has closed, in order.
pub open spec fn closed_words(s: Seq<char>) -> Seq<Seq<char>>
    decreases s.len(),
{
    if s.len() == 0 {
        Seq::empty()
    } else if is_whitespace(s.last()) && open_word(s.drop_last()).len() > 0 {
        closed_words(s.drop_last()).push(open_word(s.drop_last()))
    } else {
        closed_words(s.drop_last())
    }
}

/// The words of a line: its longest runs of characters that are not white
/// space, in order. White space at either end of the line and between the
/// words is dropped.
pub open spec fn words(s: Seq<char>) -> Seq<Seq<char>> {
    if open_word(s).len() > 0 {
        closed_words(s).push(open_word(s))
    } else {
        closed_words(s)
    }
}

/// The character sequences that a list of words holds.
pub open spec fn texts(v: Seq<Vec<char>>) -> Seq<Seq<char>> {
    Seq::new(v.len(), |i: int| v[i]@)
}

/// A word: one character or more, none of them white space.
pub open spec fn is_word(t: Seq<char>) -> bool {
    &&& t.len() > 0
    &&& forall|j: int| 0 <= j < t.len() ==> !is_whitespace(#[trigger] t[j])
}

/// Each member of the list is a word.
pub open spec fn all_words(w: Seq<Seq<char>>) -> bool {
    forall|i: int| 0 <= i < w.len() ==> is_word(#[trigger] w[i])
}

/// The words read as a request to replace the position: the word `state`,
/// a board of nine cell characters, and a word that ends in `x` or `o`.
pub open spec fn is_state_request(w: Seq<Seq<char>>) -> bool {
    &&& w.len() == 3
    &&& w[0] == "state"@
    &&& w[1].len() == 9
    &&& forall|i: int| 0 <= i < 9 ==> is_cell_char(#[trigger] w[1][i])
    &&& w[2].len() > 0
    &&& is_turn_char(w[2].last())
}

/// The request that the words of a line make, if they make one. The first
/// word decides. After `move`, `eval` and `quit` anything may follow; after
/// `state` a board and a turn must.
pub open spec fn request_of(w: Seq<Seq<char>>) -> Option<Request> {
    if w.len() == 0 {
        None
    } else if w[0] == "state"@ {
        if is_state_request(w) {
            Some(Request::State(w[1], w[2].last()))
        } else {
            None
        }
    } else if w[0] == "move"@ {
        Some(Request::Move)
    } else if w[0] == "eval"@ {
        Some(Request::Eval)
    } else if w[0] == "quit"@ {
        Some(Request::Quit)
    } else {
        None
    }
}

/// The board and turn of a request to replace the position are a board
/// description that is taken: such a request never leaves the position as
/// it was for want of a good character.
pub proof fn lemma_state_request_is_taken(w: Seq<Seq<char>>)
    requires
        is_state_request(w),
    ensures
        request_of(w) == Some(Request::State(w[1], w[2].last())),
        is_description(w[1], w[2].last()),
{
}

/// The open word holds no white space.
pub proof fn lemma_open_word(s: Seq<char>)
    ensures
        forall|j: int| 0 <= j < open_word(s).len() ==> !is_whitespace(#[trigger] open_word(s)[j]),
    decreases s.len(),
{
    if s.len() > 0 && !is_whitespace(s.last()) {
        lemma_open_word(s.drop_last());
        let head = open_word(s.drop_last());
        assert forall|j: int| 0 <= j < open_word(s).len() implies !is_whitespace(
            #[trigger] open_word(s)[j],
        ) by {
            if j < head.len() {
                assert(open_word(s)[j] == head[j]);
            }
        }
    }
}

/// What white space has closed are words.
pub proof fn lemma_closed_words(s: Seq<char>)
    ensures
        all_words(closed_words(s)),
    decreases s.len(),
{
    if s.len() > 0 {
        lemma_closed_words(s.drop_last());
        lemma_open_word(s.drop_last());
    }
}

/// A line is cut into words: none of them is empty and none holds white
/// space.
pub proof fn lemma_words(s: Seq<char>)
    ensures
        all_words(words(s)),
{
    lemma_closed_words(s);
    lemma_open_word(s);
}

/// Tells whether a word spells `text`.
fn spells(word: &Vec<char>, text: &str) -> (r: bool)
    ensures
        r == (word@ == text@),
{
    let mut i: usize = 0;
    for c in it: text.chars()
        invariant
            it.seq() == text@,
            i == it.index(),
            i <= word@.len(),
            word@.take(i as int) == text@.take(i as int),
    {
        if i >= word.len() || word[i] != c {
            assert(word@ != text@) by {
                if word@ == text@ {
                    assert(word@[i as int] == text@[i as int]);
                }
            }
            return false;
        }
        assert(word@.take(i + 1) == word@.take(i as int).push(word@[i as int]));
        assert(text@.take(i + 1) == text@.take(i as int).push(text@[i as int]));
        i = i + 1;
    }
    assert(text@.take(text@.len() as int) == text@);
    assert(word@.take(word@.len() as int) == word@);
    i == word.len()
}

impl View for Parser {
    type V = Seq<Seq<char>>;

    /// The words of the line read last.
    closed spec fn view(&self) -> Seq<Seq<char>> {
        texts(self.input_lines@)
    }
}

impl Parser {
    /// What is held are words, as a line is cut into.
    pub open spec fn wf(&self) -> bool {
        all_words(self@)
    }

    /// Creates a parser that holds no words.
    pub fn new() -> (parser: Parser)
        ensures
            parser.wf(),
            parser@ == Seq::<Seq<char>>::empty(),
    {
        let parser = Parser { input_lines: Vec::new() };
        assert(parser@ =~= Seq::<Seq<char>>::empty());
        parser
    }

    /// Takes in one line and keeps its words in place of those held before.
    pub fn read_input(&mut self, line: &str)
        ensures
            final(self).wf(),
            final(self)@ == words(line@),
    {
        let mut done: Vec<Vec<char>> = Vec::new();
        let mut word: Vec<char> = Vec::new();
        for c in it: line.chars()
            invariant
                it.seq() == line@,
                word@ == open_word(line@.take(it.index() as int)),
                texts(done@) == closed_words(line@.take(it.index() as int)),
        {
            let ghost seen = line@.take(it.index() as int);
            let ghost next = line@.take(it.index() + 1);
            assert(next.drop_last() == seen);
            assert(next.last() == c);
            if is_space(c) {
                if word.len() > 0 {
                    let ghost before = done@;
                    done.push(word);
                    assert(texts(done@) == texts(before).push(word@));
                    word = Vec::new();
                }
            } else {
                word.push(c);
            }
        }
        assert(line@.take(line@.len() as int) == line@);
        if word.len() > 0 {
            let ghost before = done@;
            done.push(word);
            assert(texts(done@) == texts(before).push(word@));
        }
        self.input_lines = done;
        proof {
            lemma_words(line@);
        }
    }

    /// Reads the words held as a request. The first word decides: `move`,
    /// `eval` and `quit` are requests whatever follows them, and `state` is
    /// one when it is followed by exactly two words, a board of nine
    /// characters out of `x`, `o` and `-`, and a turn that ends in `x` or
    /// `o`. Anything else, and no words at all, is no request.
    pub fn parse_input(&self) -> (request: Option<InputType>)
        requires
            self.wf(),
        ensures
            match request {
                Some(read) => request_of(self@) == Some(read@),
                None => request_of(self@) is None,
            },
    {
        if self.input_lines.len() == 0 {
            return None;
        }
        let head = &self.input_lines[0];
        assert(self@[0] == head@);
        if spells(head, "state") {
            if self.input_lines.len() != 3 {
                return None;
            }
            let cells = &self.input_lines[1];
            assert(self@[1] == cells@);
            if cells.len() != 9 {
                return None;
            }
            let mut board: Vec<char> = Vec::new();
            let mut i: usize = 0;
            while i < 9
                invariant
                    i <= 9,
                    cells@.len() == 9,
                    self@.len() == 3,
                    self@[0] == "state"@,
                    self@[1] == cells@,
                    board@ == cells@.take(i as int),
                    forall|j: int| 0 <= j < i ==> is_cell_char(#[trigger] cells@[j]),
                decreases 9 - i,
            {
                let c = cells[i];
                if c != 'x' && c != 'o' && c != '-' {
                    return None;
                }
                board.push(c);
                assert(cells@.take(i + 1) == cells@.take(i as int).push(c));
                i = i + 1;
            }
            assert(cells@.take(9) == cells@);
            let last = &self.input_lines[2];
            assert(self@[2] == last@);
            let turn = last[last.len() - 1];
            if turn != 'x' && turn != 'o' {
                return None;
            }
            Some(InputType::State(board, turn))
        } else if spells(head, "move") {
            Some(InputType::Move)
        } else if spells(head, "eval") {
            Some(InputType::Eval)
        } else if spells(head, "quit") {
            Some(InputType::Quit)
        } else {
            None
        }
    }
}

} // verus!
