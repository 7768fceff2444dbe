//! The board: six rows of five cells, filled by keystrokes and scored on submission.
use vstd::prelude::*;
use vstd::string::*;
use crate::evaluate::{evaluate, evaluation, is_upper_letter, is_word, LetterStatus};
use crate::message::{format_win, win_phrase};
use crate::words::WordValidator;

verus! {

/// The byte of a cell that holds no letter.
pub const BLANK: u8 = 32;

/// Number of cells on the board.
pub const CELLS: usize = 30;

/// Number of guesses a game allows.
pub const MAX_GUESSES: u8 = 6;

/// Where a game stands.
#[derive(Clone, Copy, Debug, PartialEq, Eq, Structural)]
pub enum Outcome {
    /// Guesses are still being taken.
    InProgress,
    /// Won on the given guess.
    Won(u8),
    /// Six guesses were made without finding the solution.
    Lost,
}

/// One keystroke of the player.
#[derive(Clone, Copy, Debug, PartialEq, Eq, Structural)]
pub enum Command {
    /// A character key.
    CharInput(char),
    /// The backspace key.
    Backspace,
    /// The enter key.
    Submit,
}

/// An ASCII letter, in either case.
pub open spec fn is_letter_char(c: char) -> bool {
    ('A' <= c && c <= 'Z') || ('a' <= c && c <= 'z')
}

/// The uppercase byte of the ASCII letter `c`.
pub open spec fn letter_byte(c: char) -> u8 {
    (if c <= 'Z' {
        c as int
    } else {
        c as int - 32
    }) as u8
}

/// A solution as text: five uppercase ASCII letters.
pub open spec fn is_solution_text(s: Seq<char>) -> bool {
    s.len() == 5 && forall|i: int| 0 <= i < 5 ==> 'A' <= #[trigger] s[i] && s[i] <= 'Z'
}

/// The bytes of an ASCII text.
pub open spec fn text_bytes(s: Seq<char>) -> Seq<u8> {
    s.map_values(|c: char| c as u8)
}

/// Whether `s` can be the hidden word: five uppercase ASCII letters.
pub fn is_solution_word(s: &str) -> (r: bool)
    ensures
        r == is_solution_text(s@),
{
    if !s.is_ascii() {
        assert(!is_solution_text(s@)) by {
            if is_solution_text(s@) {
                assert(vstd::utf8::is_ascii_chars(s@));
            }
        }
        return false;
    }
    proof {
        vstd::utf8::is_ascii_chars_encode_utf8(s@);
    }
    let bytes = s.as_bytes();
    if bytes.len() != 5 {
        return false;
    }
    let mut i: usize = 0;
    while i < 5
        invariant
            0 <= i <= 5,
            bytes@ == s.spec_bytes(),
            bytes@.len() == 5,
            s@.len() == 5,
            forall|k: int| 0 <= k < 5 ==> s@[k] as u8 == #[trigger] bytes@[k],
            vstd::utf8::is_ascii_chars(s@),
            forall|k: int| 0 <= k < i ==> 'A' <= #[trigger] s@[k] && s@[k] <= 'Z',
        decreases 5 - i,
    {
        if bytes[i] < 65 || bytes[i] > 90 {
            return false;
        }
        i = i + 1;
    }
    true
}

/// `statuses` with the five cells from `start` on replaced by `row`.
pub open spec fn with_row(
    statuses: Seq<LetterStatus>,
    start: int,
    row: Seq<LetterStatus>,
) -> Seq<LetterStatus> {
    Seq::new(
        statuses.len(),
        |j: int|
            if start <= j < start + 5 {
                row[j - start]
            } else {
                statuses[j]
            },
    )
}

/// The game board with its cursor, guess count, outcome and message.
pub struct BoardView {
    board: [u8; 30],
    board_index: usize,
    guesses: u8,
    information: [LetterStatus; 30],
    message: String,
    solution: String,
    answer: [u8; 5],
    outcome: Outcome,
    words: WordValidator,
}

impl BoardView {
    /// The letters of the cells, `BLANK` where a cell is empty.
    pub closed spec fn cells(&self) -> Seq<u8> {
        self.board@
    }

    /// The status of each cell.
    pub closed spec fn statuses(&self) -> Seq<LetterStatus> {
        self.information@
    }

    /// The cell that the next letter goes to.
    pub closed spec fn cursor_pos(&self) -> int {
        self.board_index as int
    }

    /// How many guesses have been scored.
    pub closed spec fn guess_total(&self) -> int {
        self.guesses as int
    }

    /// The message shown to the player.
    pub closed spec fn message_seq(&self) -> Seq<char> {
        self.message@
    }

    /// The hidden word.
    pub closed spec fn solution_seq(&self) -> Seq<char> {
        self.solution@
    }

    /// Where the game stands.
    pub closed spec fn state(&self) -> Outcome {
        self.outcome
    }

    /// The words a guess must belong to.
    pub closed spec fn word_list(&self) -> WordValidator {
        self.words
    }

    /// The hidden word as bytes.
    pub closed spec fn answer_seq(&self) -> Seq<u8> {
        self.answer@
    }

    /// Well-formedness: the cursor stays in the row of the next guess, the rows already
    /// guessed are full and scored, the rest are unscored, and the outcome agrees with
    /// the guess count.
    pub open spec fn wf(&self) -> bool {
        let g = self.guess_total();
        let i = self.cursor_pos();
        &&& self.cells().len() == 30
        &&& self.statuses().len() == 30
        &&& is_solution_text(self.solution_seq())
        &&& self.answer_seq() == text_bytes(self.solution_seq())
        &&& self.word_list().wf()
        &&& 0 <= g <= 6
        &&& 0 <= i <= 30
        &&& forall|j: int|
            0 <= j < 30 ==> #[trigger] self.cells()[j] == BLANK || is_upper_letter(
                self.cells()[j],
            )
        &&& forall|j: int| 0 <= j < 5 * g ==> is_upper_letter(#[trigger] self.cells()[j])
        &&& forall|j: int|
            0 <= j < 30 ==> (#[trigger] self.statuses()[j] == LetterStatus::Empty <==> j >= 5
                * g)
        &&& match self.state() {
            Outcome::InProgress => {
                &&& g < 6
                &&& 5 * g <= i < 5 * g + 5
                &&& forall|j: int| 5 * g <= j < i ==> #[trigger] self.cells()[j] != BLANK
            },
            Outcome::Won(k) => k == g && 1 <= g && i == 5 * g,
            Outcome::Lost => g == 6 && i == 30,
        }
    }

    /// The solution and the word list are kept.
    pub open spec fn same_game(&self, other: &BoardView) -> bool {
        self.solution_seq() == other.solution_seq() && self.word_list() == other.word_list()
    }

    /// The guess in the row of the cursor.
    pub open spec fn current_row(&self) -> Seq<u8> {
        let start = self.cursor_pos() - self.cursor_pos() % 5;
        self.cells().subrange(start, start + 5)
    }

    /// What a letter key does: outside a game in progress, or for a key that is no ASCII
    /// letter, nothing. Otherwise the message is cleared, the letter goes uppercase into
    /// the cursor's cell if that cell is blank, and the cursor moves on unless it is at
    /// the last column of its row.
    pub open spec fn typed(pre: &BoardView, post: &BoardView, c: char) -> bool {
        let i = pre.cursor_pos();
        if pre.state() is InProgress && is_letter_char(c) {
            &&& post.cells() == if pre.cells()[i] == BLANK {
                pre.cells().update(i, letter_byte(c))
            } else {
                pre.cells()
            }
            &&& post.cursor_pos() == if i % 5 != 4 {
                i + 1
            } else {
                i
            }
            &&& post.message_seq() == Seq::<char>::empty()
            &&& post.statuses() == pre.statuses()
            &&& post.guess_total() == pre.guess_total()
            &&& post.state() == pre.state()
            &&& post.same_game(pre)
        } else {
            post == pre
        }
    }

    /// What backspace does: outside a game in progress, nothing. Otherwise, when the
    /// cursor's cell is blank and not the first of its row, the cursor moves back one;
    /// then the cell under the cursor is blanked.
    pub open spec fn erased(pre: &BoardView, post: &BoardView) -> bool {
        let i = pre.cursor_pos();
        let k = if i % 5 != 0 && pre.cells()[i] == BLANK {
            i - 1
        } else {
            i
        };
        if pre.state() is InProgress {
            &&& post.cells() == pre.cells().update(k, BLANK)
            &&& post.cursor_pos() == k
            &&& post.message_seq() == pre.message_seq()
            &&& post.statuses() == pre.statuses()
            &&& post.guess_total() == pre.guess_total()
            &&& post.state() == pre.state()
            &&& post.same_game(pre)
        } else {
            post == pre
        }
    }

    /// What submitting does. Unless the game is in progress and the row is complete
    /// (the cursor on its last column, that cell filled), nothing. A guess outside the
    /// word list sets the message "Not in word list" and moves the cursor to the start of
    /// the row, leaving the letters. A listed guess is scored into its row, counted, and
    /// moves the cursor to the next row; a guess equal to the solution wins, with the
    /// phrase for its count, and a sixth guess that does not win loses, revealing the
    /// solution.
    pub open spec fn submitted(pre: &BoardView, post: &BoardView) -> bool {
        let i = pre.cursor_pos();
        let start = i - 4;
        let guess = pre.cells().subrange(start, i + 1);
        let answer = text_bytes(pre.solution_seq());
        let g = pre.guess_total() + 1;
        if !(pre.state() is InProgress && i % 5 == 4 && pre.cells()[i] != BLANK) {
            post == pre
        } else if !pre.word_list().accepts(guess) {
            &&& post.message_seq() == "Not in word list"@
            &&& post.cursor_pos() == start
            &&& post.cells() == pre.cells()
            &&& post.statuses() == pre.statuses()
            &&& post.guess_total() == pre.guess_total()
            &&& post.state() == pre.state()
            &&& post.same_game(pre)
        } else {
            &&& post.cells() == pre.cells()
            &&& post.cursor_pos() == i + 1
            &&& post.statuses() == with_row(pre.statuses(), start, evaluation(guess, answer))
            &&& post.guess_total() == g
            &&& post.same_game(pre)
            &&& if guess == answer {
                post.state() == Outcome::Won(g as u8) && post.message_seq() == win_phrase(g)
            } else if g == 6 {
                post.state() == Outcome::Lost && post.message_seq() == pre.solution_seq()
            } else {
                post.state() == Outcome::InProgress && post.message_seq() == pre.message_seq()
            }
        }
    }

    /// A fresh board for `solution`: all cells blank and unscored, cursor at the first
    /// cell, no guesses, no message, game in progress.
    pub fn new(solution: String, words: WordValidator) -> (r: BoardView)
        requires
            is_solution_text(solution@),
            words.wf(),
        ensures
            r.wf(),
            r.cells() == Seq::new(30, |j: int| BLANK),
            r.statuses() == Seq::new(30, |j: int| LetterStatus::Empty),
            r.cursor_pos() == 0,
            r.guess_total() == 0,
            r.message_seq() == Seq::<char>::empty(),
            r.state() == Outcome::InProgress,
            r.solution_seq() == solution@,
            r.word_list() == words,
    {
        proof {
            vstd::utf8::is_ascii_chars_encode_utf8(solution@);
        }
        let bytes = solution.as_str().as_bytes();
        let answer: [u8; 5] = [bytes[0], bytes[1], bytes[2], bytes[3], bytes[4]];
        assert(answer@ =~= text_bytes(solution@));
        let r = BoardView {
            board: [BLANK; 30],
            board_index: 0,
            guesses: 0,
            information: [LetterStatus::Empty; 30],
            message: String::new(),
            solution,
            answer,
            outcome: Outcome::InProgress,
            words,
        };
        assert(r.cells() =~= Seq::new(30, |j: int| BLANK));
        assert(r.statuses() =~= Seq::new(30, |j: int| LetterStatus::Empty));
        r
    }

    /// Handles a typed character.
    pub fn type_char(&mut self, c: char)
        requires
            old(self).wf(),
        ensures
            final(self).wf(),
            BoardView::typed(old(self), final(self), c),
    {
        let is_letter = ('A' <= c && c <= 'Z') || ('a' <= c && c <= 'z');
        if self.outcome != Outcome::InProgress || !is_letter {
            return;
        }
        self.message = String::new();
        let i = self.board_index;
        if self.board[i] == BLANK {
            let b: u8 = c as u8;
            let upper: u8 = if c <= 'Z' {
                b
            } else {
                b - 32
            };
            self.board[i] = upper;
        }
        if i % 5 != 4 {
            self.board_index = i + 1;
        }
    }

    /// Handles backspace.
    pub fn backspace(&mut self)
        requires
            old(self).wf(),
        ensures
            final(self).wf(),
            BoardView::erased(old(self), final(self)),
    {
        if self.outcome != Outcome::InProgress {
            return;
        }
        if self.board_index % 5 != 0 && self.board[self.board_index] == BLANK {
            self.board_index = self.board_index - 1;
        }
        self.board[self.board_index] = BLANK;
    }

    /// Handles the submit key.
    pub fn submit(&mut self)
        requires
            old(self).wf(),
        ensures
            final(self).wf(),
            BoardView::submitted(old(self), final(self)),
    {
        let i = self.board_index;
        if self.outcome != Outcome::InProgress || i % 5 != 4 || self.board[i] == BLANK {
            return;
        }
        let start = i - 4;
        let guess: [u8; 5] = [
            self.board[start],
            self.board[start + 1],
            self.board[start + 2],
            self.board[start + 3],
            self.board[i],
        ];
        let ghost row = self.cells().subrange(start as int, i + 1);
        assert(guess@ =~= row);
        if !self.words.is_valid(guess.as_slice()) {
            self.message = String::from_str("Not in word list");
            self.board_index = start;
            return;
        }
        assert(is_word(guess@));
        let result = evaluate(guess.as_slice(), self.answer.as_slice());
        let ghost before = self.information@;
        self.information[start] = result[0];
        self.information[start + 1] = result[1];
        self.information[start + 2] = result[2];
        self.information[start + 3] = result[3];
        self.information[i] = result[4];
        assert(self.information@ =~= with_row(before, start as int, result@));
        self.guesses = self.guesses + 1;
        self.board_index = i + 1;
        let all_correct = result[0] == LetterStatus::Correct && result[1] == LetterStatus::Correct
            && result[2] == LetterStatus::Correct && result[3] == LetterStatus::Correct
            && result[4] == LetterStatus::Correct;
        assert(all_correct <==> guess@ == self.answer@) by {
            if all_correct {
                assert forall|k: int| 0 <= k < 5 implies guess@[k] == self.answer@[k] by {
                    assert(result@[k] == LetterStatus::Correct);
                }
                assert(guess@ =~= self.answer@);
            }
        }
        if all_correct {
            self.outcome = Outcome::Won(self.guesses);
            self.message = format_win(self.guesses);
        } else if self.guesses == MAX_GUESSES {
            self.outcome = Outcome::Lost;
            self.message = self.solution.clone();
        }
    }

    /// Handles one command; `true` when the game was in progress to take it.
    pub fn on_command(&mut self, cmd: Command) -> (consumed: bool)
        requires
            old(self).wf(),
        ensures
            final(self).wf(),
            consumed == (old(self).state() is InProgress),
            match cmd {
                Command::CharInput(c) => BoardView::typed(old(self), final(self), c),
                Command::Backspace => BoardView::erased(old(self), final(self)),
                Command::Submit => BoardView::submitted(old(self), final(self)),
            },
    {
        let consumed = self.outcome == Outcome::InProgress;
        match cmd {
            Command::CharInput(c) => self.type_char(c),
            Command::Backspace => self.backspace(),
            Command::Submit => self.submit(),
        }
        consumed
    }

    /// The cell that the next letter goes to.
    pub fn cursor(&self) -> (r: usize)
        ensures
            r == self.cursor_pos(),
    {
        self.board_index
    }

    /// How many guesses have been scored.
    pub fn guesses(&self) -> (r: u8)
        ensures
            r == self.guess_total(),
    {
        self.guesses
    }

    /// Where the game stands.
    pub fn outcome(&self) -> (r: Outcome)
        ensures
            r == self.state(),
    {
        self.outcome
    }

    /// The message shown to the player.
    pub fn message(&self) -> (r: &str)
        ensures
            r@ == self.message_seq(),
    {
        self.message.as_str()
    }

    /// The hidden word.
    pub fn solution(&self) -> (r: &str)
        ensures
            r@ == self.solution_seq(),
    {
        self.solution.as_str()
    }

    /// The letter in cell `i`, a space where the cell is blank.
    pub fn letter(&self, i: usize) -> (r: char)
        requires
            self.wf(),
            i < CELLS,
        ensures
            r as int == self.cells()[i as int] as int,
    {
        self.board[i] as char
    }

    /// The status of cell `i`.
    pub fn status(&self, i: usize) -> (r: LetterStatus)
        requires
            self.wf(),
            i < CELLS,
        ensures
            r == self.statuses()[i as int],
    {
        self.information[i]
    }
}

/// The cells of the row that the next guess goes to.
pub open spec fn open_row(b: &BoardView) -> Seq<u8> {
    b.cells().subrange(5 * b.guess_total(), 5 * b.guess_total() + 5)
}

/// Submitting a row that still has a blank cell changes nothing.
pub proof fn lemma_incomplete_row_rejected(pre: &BoardView, post: &BoardView, j: int)
    requires
        pre.wf(),
        pre.state() is InProgress,
        0 <= j < 5,
        open_row(pre)[j] == BLANK,
        BoardView::submitted(pre, post),
    ensures
        post == pre,
        post.cursor_pos() == pre.cursor_pos(),
{
    let g = pre.guess_total();
    let i = pre.cursor_pos();
    assert(pre.cells()[5 * g + j] == BLANK);
    if i % 5 == 4 && pre.cells()[i] != BLANK {
        assert(i == 5 * g + 4);
        assert(5 * g + j < i);
    }
}

/// Submitting a complete row whose word is not listed keeps the letters and the guess
/// count, moves the cursor to the row's first column and says "Not in word list".
pub proof fn lemma_unlisted_guess_rejected(pre: &BoardView, post: &BoardView)
    requires
        pre.wf(),
        pre.state() is InProgress,
        pre.cursor_pos() % 5 == 4,
        forall|j: int| 0 <= j < 5 ==> #[trigger] open_row(pre)[j] != BLANK,
        !pre.word_list().accepts(open_row(pre)),
        BoardView::submitted(pre, post),
    ensures
        post.cells() == pre.cells(),
        post.cursor_pos() == 5 * pre.guess_total(),
        post.message_seq() == "Not in word list"@,
        post.guess_total() == pre.guess_total(),
        post.state() is InProgress,
{
    let g = pre.guess_total();
    let i = pre.cursor_pos();
    assert(i == 5 * g + 4);
    assert(pre.cells()[i] == open_row(pre)[4]);
    assert(pre.cells().subrange(i - 4, i + 1) =~= open_row(pre));
}

/// A listed guess that is not the solution counts one guess; the sixth such guess
/// loses the game and reveals the solution, earlier ones leave it in progress.
pub proof fn lemma_losing_guess(pre: &BoardView, post: &BoardView)
    requires
        pre.wf(),
        pre.state() is InProgress,
        pre.cursor_pos() % 5 == 4,
        forall|j: int| 0 <= j < 5 ==> #[trigger] open_row(pre)[j] != BLANK,
        pre.word_list().accepts(open_row(pre)),
        open_row(pre) != text_bytes(pre.solution_seq()),
        BoardView::submitted(pre, post),
    ensures
        post.guess_total() == pre.guess_total() + 1,
        post.guess_total() == 6 ==> post.state() == Outcome::Lost && post.message_seq()
            == pre.solution_seq(),
        post.guess_total() < 6 ==> post.state() == Outcome::InProgress,
{
    let g = pre.guess_total();
    let i = pre.cursor_pos();
    assert(i == 5 * g + 4);
    assert(pre.cells()[i] == open_row(pre)[4]);
    assert(pre.cells().subrange(i - 4, i + 1) =~= open_row(pre));
}

/// A listed guess equal to the solution, made as guess `k`, wins on guess `k` with the
/// phrase for `k`.
pub proof fn lemma_winning_guess(pre: &BoardView, post: &BoardView)
    requires
        pre.wf(),
        pre.state() is InProgress,
        pre.cursor_pos() % 5 == 4,
        forall|j: int| 0 <= j < 5 ==> #[trigger] open_row(pre)[j] != BLANK,
        pre.word_list().accepts(open_row(pre)),
        open_row(pre) == text_bytes(pre.solution_seq()),
        BoardView::submitted(pre, post),
    ensures
        1 <= post.guess_total() <= 6,
        post.guess_total() == pre.guess_total() + 1,
        post.state() == Outcome::Won(post.guess_total() as u8),
        post.message_seq() == win_phrase(post.guess_total()),
        post.guess_total() == 1 ==> post.message_seq() == "Genius"@,
{
    let g = pre.guess_total();
    let i = pre.cursor_pos();
    assert(i == 5 * g + 4);
    assert(pre.cells()[i] == open_row(pre)[4]);
    assert(pre.cells().subrange(i - 4, i + 1) =~= open_row(pre));
}

} // verus!
