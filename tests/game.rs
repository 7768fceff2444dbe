use wordle::board::{is_solution_word, BoardView, Command, Outcome, CELLS};
use wordle::evaluate::{evaluate, LetterStatus};
use wordle::help::InstructionView;
use wordle::message::format_win;
use wordle::words::WordValidator;

use LetterStatus::{Absent, Correct, Empty, Present};

const LIST: &str = "ARISE\nCRANE\nHOUSE\nMOUSE\nPLANT\nRAISE\nSPEED\nTRAIN\n";

fn validator() -> WordValidator {
    WordValidator::from_text(LIST).expect("sorted list")
}

fn board(solution: &str) -> BoardView {
    BoardView::new(solution.to_string(), validator())
}

fn type_word(b: &mut BoardView, w: &str) {
    for c in w.chars() {
        b.type_char(c);
    }
}

fn row_letters(b: &BoardView, row: usize) -> String {
    (0..5).map(|j| b.letter(row * 5 + j)).collect()
}

fn row_statuses(b: &BoardView, row: usize) -> Vec<LetterStatus> {
    (0..5).map(|j| b.status(row * 5 + j)).collect()
}

#[test]
fn evaluate_is_deterministic() {
    let first = evaluate(b"SPEED", b"ERASE");
    let second = evaluate(b"SPEED", b"ERASE");
    assert_eq!(first, second);
}

#[test]
fn evaluate_solution_is_all_correct() {
    assert_eq!(evaluate(b"RAISE", b"RAISE"), [Correct; 5]);
    assert_eq!(evaluate(b"AAAAA", b"AAAAA"), [Correct; 5]);
}

#[test]
fn evaluate_duplicate_letters() {
    let r = evaluate(b"SPEED", b"ERASE");
    assert_eq!(r, [Present, Absent, Present, Present, Absent]);
    let present_e = r.iter().zip(b"SPEED").filter(|(s, c)| **s == Present && **c == b'E').count();
    assert!(present_e <= 2);
}

#[test]
fn evaluate_exact_match_claims_the_letter() {
    // the only L is matched exactly, so the first L is absent
    assert_eq!(evaluate(b"LLAMA", b"HELLO"), [Present, Present, Absent, Absent, Absent]);
    assert_eq!(evaluate(b"EERIE", b"THERE"), [Present, Absent, Present, Absent, Correct]);
    assert_eq!(evaluate(b"ABBEY", b"KEBAB"), [Present, Present, Correct, Present, Absent]);
}

#[test]
fn evaluate_arise_against_raise() {
    assert_eq!(evaluate(b"ARISE", b"RAISE"), [Present, Present, Correct, Correct, Correct]);
}

#[test]
fn validator_accepts_listed_words() {
    let v = validator();
    for w in LIST.lines() {
        assert!(v.is_valid(w.as_bytes()));
    }
}

#[test]
fn validator_rejects_unlisted_words() {
    let v = validator();
    assert!(!v.is_valid(b"ZZZZZ"));
    assert!(!v.is_valid(b"AAAAA"));
    assert!(!v.is_valid(b"RAISF"));
}

#[test]
fn validator_normalizes_case() {
    let v = validator();
    assert!(v.is_valid(b"raise"));
    assert!(v.is_valid(b"TrAiN"));
    assert!(!v.is_valid(b"zebra"));
}

#[test]
fn validator_text_without_final_newline() {
    let v = WordValidator::from_text("ARISE\nRAISE").unwrap();
    assert!(v.is_valid(b"RAISE"));
    assert!(v.is_valid(b"ARISE"));
    assert!(WordValidator::from_text("").is_some());
}

#[test]
fn validator_rejects_unsorted_or_malformed_text() {
    assert!(WordValidator::from_text("RAISE\nARISE\n").is_none());
    assert!(WordValidator::from_text("RAISE\nAR1SE\n").is_none());
    assert!(WordValidator::from_text("RAISE\nARISES\n").is_none());
    assert!(WordValidator::from_text("raise\n").is_none());
    assert!(WordValidator::new(vec![*b"RAISE", *b"ARISE"]).is_none());
    assert!(WordValidator::new(vec![*b"ARISE", *b"ARISE", *b"RAISE"]).is_some());
}

#[test]
fn format_win_phrases() {
    assert_eq!(format_win(1), "Genius");
    assert_eq!(format_win(2), "Magnificent");
    assert_eq!(format_win(3), "Impressive");
    assert_eq!(format_win(4), "Splendid");
    assert_eq!(format_win(5), "Great");
    assert_eq!(format_win(6), "Phew");
}

#[test]
fn solution_word_check() {
    assert!(is_solution_word("RAISE"));
    assert!(!is_solution_word("raise"));
    assert!(!is_solution_word("RAIS"));
    assert!(!is_solution_word("RAISES"));
    assert!(!is_solution_word("RAÏSE"));
}

#[test]
fn new_board_is_empty() {
    let b = board("RAISE");
    let _help = InstructionView::new();
    assert_eq!(b.cursor(), 0);
    assert_eq!(b.guesses(), 0);
    assert_eq!(b.outcome(), Outcome::InProgress);
    assert_eq!(b.message(), "");
    assert_eq!(b.solution(), "RAISE");
    for i in 0..CELLS {
        assert_eq!(b.letter(i), ' ');
        assert_eq!(b.status(i), Empty);
    }
}

#[test]
fn typing_fills_and_uppercases() {
    let mut b = board("RAISE");
    b.type_char('a');
    b.type_char('1');
    b.type_char('r');
    assert_eq!(b.cursor(), 2);
    assert_eq!(row_letters(&b, 0), "AR   ");
    type_word(&mut b, "ise");
    assert_eq!(b.cursor(), 4);
    b.type_char('x');
    assert_eq!(b.cursor(), 4);
    assert_eq!(row_letters(&b, 0), "ARISE");
}

#[test]
fn backspace_erases_and_moves_back() {
    let mut b = board("RAISE");
    type_word(&mut b, "AR");
    b.backspace();
    assert_eq!(b.cursor(), 1);
    assert_eq!(row_letters(&b, 0), "A    ");
    b.backspace();
    assert_eq!(b.cursor(), 0);
    assert_eq!(row_letters(&b, 0), "     ");
    b.backspace();
    assert_eq!(b.cursor(), 0);
    type_word(&mut b, "ARISE");
    b.backspace();
    assert_eq!(b.cursor(), 4);
    assert_eq!(row_letters(&b, 0), "ARIS ");
}

#[test]
fn incomplete_row_submission_is_rejected() {
    let mut b = board("RAISE");
    type_word(&mut b, "ARI");
    b.submit();
    assert_eq!(b.cursor(), 3);
    assert_eq!(b.guesses(), 0);
    assert_eq!(b.message(), "");
    assert_eq!(row_letters(&b, 0), "ARI  ");
    assert_eq!(row_statuses(&b, 0), vec![Empty; 5]);
}

#[test]
fn invalid_word_submission_keeps_row() {
    let mut b = board("RAISE");
    type_word(&mut b, "ZZZZZ");
    b.submit();
    assert_eq!(b.message(), "Not in word list");
    assert_eq!(b.cursor(), 0);
    assert_eq!(b.guesses(), 0);
    assert_eq!(b.outcome(), Outcome::InProgress);
    assert_eq!(row_letters(&b, 0), "ZZZZZ");
    assert_eq!(row_statuses(&b, 0), vec![Empty; 5]);
    b.type_char('Q');
    assert_eq!(b.message(), "");
}

#[test]
fn arise_then_raise_scenario() {
    let mut b = board("RAISE");
    type_word(&mut b, "arise");
    assert!(b.on_command(Command::Submit));
    assert_eq!(row_statuses(&b, 0), vec![Present, Present, Correct, Correct, Correct]);
    assert_eq!(b.outcome(), Outcome::InProgress);
    assert_eq!(b.guesses(), 1);
    assert_eq!(b.cursor(), 5);
    assert_eq!(b.message(), "");
}

#[test]
fn win_on_first_guess() {
    let mut b = board("RAISE");
    type_word(&mut b, "RAISE");
    b.submit();
    assert_eq!(b.outcome(), Outcome::Won(1));
    assert_eq!(b.message(), "Genius");
    assert_eq!(row_statuses(&b, 0), vec![Correct; 5]);
    assert!(!b.on_command(Command::CharInput('A')));
    assert_eq!(b.letter(5), ' ');
}

#[test]
fn win_on_third_guess() {
    let mut b = board("RAISE");
    for w in ["CRANE", "HOUSE", "RAISE"] {
        type_word(&mut b, w);
        b.submit();
    }
    assert_eq!(b.outcome(), Outcome::Won(3));
    assert_eq!(b.guesses(), 3);
    assert_eq!(b.message(), "Impressive");
}

#[test]
fn win_on_sixth_guess() {
    let mut b = board("RAISE");
    for w in ["CRANE", "HOUSE", "MOUSE", "PLANT", "TRAIN", "RAISE"] {
        type_word(&mut b, w);
        b.submit();
    }
    assert_eq!(b.outcome(), Outcome::Won(6));
    assert_eq!(b.message(), "Phew");
    assert_eq!(b.cursor(), 30);
}

#[test]
fn six_misses_lose() {
    let mut b = board("RAISE");
    for w in ["CRANE", "HOUSE", "MOUSE", "PLANT", "TRAIN"] {
        type_word(&mut b, w);
        b.submit();
        assert_eq!(b.outcome(), Outcome::InProgress);
    }
    type_word(&mut b, "ARISE");
    b.submit();
    assert_eq!(b.guesses(), 6);
    assert_eq!(b.outcome(), Outcome::Lost);
    assert_eq!(b.message(), "RAISE");
    assert!(!b.on_command(Command::Backspace));
    assert!(!b.on_command(Command::Submit));
    assert_eq!(row_letters(&b, 5), "ARISE");
}

#[test]
fn commands_dispatch() {
    let mut b = board("RAISE");
    assert!(b.on_command(Command::CharInput('c')));
    assert!(b.on_command(Command::CharInput('r')));
    assert!(b.on_command(Command::Backspace));
    assert_eq!(row_letters(&b, 0), "C    ");
    assert_eq!(b.cursor(), 1);
}
