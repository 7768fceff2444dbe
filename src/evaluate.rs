//! Scoring a guess against the solution, letter by letter.
use vstd::prelude::*;

verus! {

/// The state of one cell of the board.
#[derive(Clone, Copy, Debug, PartialEq, Eq, Structural)]
pub enum LetterStatus {
    /// No guess has been scored in this cell yet.
    Empty,
    /// The letter is not in the solution, once its other occurrences are accounted for.
    Absent,
    /// The letter is in the solution, at another position.
    Present,
    /// The letter is in the solution at this very position.
    Correct,
}

/// Number of letters in a word.
pub const WORD_LEN: usize = 5;

/// An uppercase ASCII letter.
pub open spec fn is_upper_letter(b: u8) -> bool {
    65 <= b && b <= 90
}

/// A word of the game: five uppercase ASCII letters.
pub open spec fn is_word(w: Seq<u8>) -> bool {
    w.len() == 5 && forall|i: int| 0 <= i < 5 ==> is_upper_letter(#[trigger] w[i])
}

/// Occurrences of `c` among the first `n` letters of `w`.
pub open spec fn occurrences(w: Seq<u8>, c: u8, n: int) -> nat
    decreases n,
{
    if n <= 0 {
        0
    } else {
        occurrences(w, c, n - 1) + if w[n - 1] == c {
            1nat
        } else {
            0nat
        }
    }
}

/// Positions below `n` where guess and solution both hold `c`.
pub open spec fn exact_count(guess: Seq<u8>, solution: Seq<u8>, c: u8, n: int) -> nat
    decreases n,
{
    if n <= 0 {
        0
    } else {
        exact_count(guess, solution, c, n - 1) + if solution[n - 1] == c && guess[n - 1]
            == solution[n - 1] {
            1nat
        } else {
            0nat
        }
    }
}

/// Positions below `n` where the solution holds `c` and the guess holds another letter:
/// the occurrences of `c` that remain once exact matches are set aside.
pub open spec fn unmatched_count(guess: Seq<u8>, solution: Seq<u8>, c: u8, n: int) -> nat
    decreases n,
{
    if n <= 0 {
        0
    } else {
        unmatched_count(guess, solution, c, n - 1) + if solution[n - 1] == c && guess[n - 1]
            != solution[n - 1] {
            1nat
        } else {
            0nat
        }
    }
}

/// Positions below `n` where the guess holds `c` and the solution holds another letter.
pub open spec fn misplaced_count(guess: Seq<u8>, solution: Seq<u8>, c: u8, n: int) -> nat
    decreases n,
{
    if n <= 0 {
        0
    } else {
        misplaced_count(guess, solution, c, n - 1) + if guess[n - 1] == c && guess[n - 1]
            != solution[n - 1] {
            1nat
        } else {
            0nat
        }
    }
}

/// The status of position `i`: `Correct` on an exact match; otherwise `Present` while
/// earlier misplaced copies of the letter have not used up its unmatched occurrences in
/// the solution, and `Absent` after that.
pub open spec fn status_at(guess: Seq<u8>, solution: Seq<u8>, i: int) -> LetterStatus {
    if guess[i] == solution[i] {
        LetterStatus::Correct
    } else if misplaced_count(guess, solution, guess[i], i) < unmatched_count(
        guess,
        solution,
        guess[i],
        5,
    ) {
        LetterStatus::Present
    } else {
        LetterStatus::Absent
    }
}

/// The statuses of all five positions of `guess` against `solution`.
pub open spec fn evaluation(guess: Seq<u8>, solution: Seq<u8>) -> Seq<LetterStatus> {
    Seq::new(5, |i: int| status_at(guess, solution, i))
}

proof fn lemma_exact_monotonic(guess: Seq<u8>, solution: Seq<u8>, c: u8, a: int, b: int)
    requires
        a <= b,
    ensures
        exact_count(guess, solution, c, a) <= exact_count(guess, solution, c, b),
    decreases b - a,
{
    if a < b {
        lemma_exact_monotonic(guess, solution, c, a, b - 1);
    }
}

proof fn lemma_occurrences_bound(w: Seq<u8>, c: u8, n: int)
    requires
        0 <= n,
    ensures
        occurrences(w, c, n) <= n,
    decreases n,
{
    if n > 0 {
        lemma_occurrences_bound(w, c, n - 1);
    }
}

proof fn lemma_occurrences_split(guess: Seq<u8>, solution: Seq<u8>, c: u8, n: int)
    ensures
        occurrences(solution, c, n) == exact_count(guess, solution, c, n) + unmatched_count(
            guess,
            solution,
            c,
            n,
        ),
    decreases n,
{
    if n > 0 {
        lemma_occurrences_split(guess, solution, c, n - 1);
    }
}

/// Scores `guess` against `solution` in two passes: exact matches first, then the
/// remaining positions from left to right, each taking one of the solution's
/// occurrences of its letter that are still unclaimed.
pub fn evaluate(guess: &[u8], solution: &[u8]) -> (r: [LetterStatus; 5])
    requires
        is_word(guess@),
        is_word(solution@),
    ensures
        r@ == evaluation(guess@, solution@),
{
    let ghost g = guess@;
    let ghost s = solution@;
    // letter -> occurrences in the solution
    let mut count: [u8; 26] = [0u8; 26];
    let mut i: usize = 0;
    while i < WORD_LEN
        invariant
            0 <= i <= 5,
            g == guess@,
            s == solution@,
            is_word(s),
            forall|k: int|
                0 <= k < 26 ==> #[trigger] count@[k] as int == occurrences(s, (k + 65) as u8, i as int),
        decreases 5 - i,
    {
        let k: usize = (solution[i] - 65) as usize;
        assert(count@[k as int] <= i) by {
            lemma_occurrences_bound(s, (k + 65) as u8, i as int);
        }
        count[k] = count[k] + 1;
        i = i + 1;
    }
    // exact matches: each claims one occurrence of its letter
    let mut r: [LetterStatus; 5] = [LetterStatus::Absent; 5];
    i = 0;
    while i < WORD_LEN
        invariant
            0 <= i <= 5,
            g == guess@,
            s == solution@,
            is_word(g),
            is_word(s),
            r@.len() == 5,
            forall|k: int|
                0 <= k < 26 ==> #[trigger] count@[k] as int == occurrences(s, (k + 65) as u8, 5)
                    - exact_count(g, s, (k + 65) as u8, i as int),
            forall|k: int| 0 <= k < i ==> (#[trigger] r@[k] == LetterStatus::Correct <==> g[k] == s[k]),
            forall|k: int| i <= k < 5 ==> #[trigger] r@[k] == LetterStatus::Absent,
        decreases 5 - i,
    {
        if guess[i] == solution[i] {
            let k: usize = (solution[i] - 65) as usize;
            assert(count@[k as int] >= 1) by {
                let c = (k + 65) as u8;
                lemma_exact_monotonic(g, s, c, i as int + 1, 5);
                lemma_occurrences_split(g, s, c, 5);
            }
            count[k] = count[k] - 1;
            r[i] = LetterStatus::Correct;
        }
        i = i + 1;
    }
    assert forall|k: int| 0 <= k < 26 implies #[trigger] count@[k] as int == unmatched_count(
        g,
        s,
        (k + 65) as u8,
        5,
    ) by {
        lemma_occurrences_split(g, s, (k + 65) as u8, 5);
    }
    // the other positions, left to right
    i = 0;
    while i < WORD_LEN
        invariant
            0 <= i <= 5,
            g == guess@,
            s == solution@,
            is_word(g),
            is_word(s),
            r@.len() == 5,
            forall|k: int|
                0 <= k < 26 ==> #[trigger] count@[k] as int == if misplaced_count(
                    g,
                    s,
                    (k + 65) as u8,
                    i as int,
                ) <= unmatched_count(g, s, (k + 65) as u8, 5) {
                    unmatched_count(g, s, (k + 65) as u8, 5) - misplaced_count(
                        g,
                        s,
                        (k + 65) as u8,
                        i as int,
                    )
                } else {
                    0
                },
            forall|k: int| 0 <= k < i ==> #[trigger] r@[k] == status_at(g, s, k),
            forall|k: int| i <= k < 5 ==> (#[trigger] r@[k] == LetterStatus::Correct <==> g[k] == s[k]),
        decreases 5 - i,
    {
        if guess[i] != solution[i] {
            let k: usize = (guess[i] - 65) as usize;
            assert((k + 65) as u8 == g[i as int]);
            if count[k] > 0 {
                count[k] = count[k] - 1;
                r[i] = LetterStatus::Present;
            } else {
                r[i] = LetterStatus::Absent;
            }
        }
        i = i + 1;
    }
    assert(r@ =~= evaluation(g, s));
    r
}

/// Positions below `n` where the guess holds `c` and is marked `Present`.
pub open spec fn present_count(guess: Seq<u8>, solution: Seq<u8>, c: u8, n: int) -> nat
    decreases n,
{
    if n <= 0 {
        0
    } else {
        present_count(guess, solution, c, n - 1) + if guess[n - 1] == c && status_at(
            guess,
            solution,
            n - 1,
        ) == LetterStatus::Present {
            1nat
        } else {
            0nat
        }
    }
}

/// Scoring is a function of its two words: two results for the same guess and solution
/// are the same.
pub proof fn lemma_evaluation_deterministic(
    guess: Seq<u8>,
    solution: Seq<u8>,
    r1: [LetterStatus; 5],
    r2: [LetterStatus; 5],
)
    requires
        is_word(guess),
        is_word(solution),
        r1@ == evaluation(guess, solution),
        r2@ == evaluation(guess, solution),
    ensures
        r1 == r2,
{
    assert(r1@ =~= r2@);
    vstd::array::axiom_array_ext_equal(r1, r2);
}

/// A guess equal to the solution is `Correct` at every position.
pub proof fn lemma_evaluation_of_solution(solution: Seq<u8>)
    requires
        is_word(solution),
    ensures
        evaluation(solution, solution) == Seq::new(5, |i: int| LetterStatus::Correct),
{
    assert(evaluation(solution, solution) =~= Seq::new(5, |i: int| LetterStatus::Correct));
}

proof fn lemma_present_prefix(guess: Seq<u8>, solution: Seq<u8>, c: u8, n: int)
    requires
        0 <= n <= 5,
    ensures
        present_count(guess, solution, c, n) == if misplaced_count(guess, solution, c, n)
            <= unmatched_count(guess, solution, c, 5) {
            misplaced_count(guess, solution, c, n)
        } else {
            unmatched_count(guess, solution, c, 5)
        },
    decreases n,
{
    if n > 0 {
        lemma_present_prefix(guess, solution, c, n - 1);
    }
}

/// No letter is marked `Present` more often than the solution holds it outside the
/// exact matches.
pub proof fn lemma_present_bounded(guess: Seq<u8>, solution: Seq<u8>, c: u8)
    requires
        is_word(guess),
        is_word(solution),
    ensures
        present_count(guess, solution, c, 5) <= unmatched_count(guess, solution, c, 5),
{
    lemma_present_prefix(guess, solution, c, 5);
}

} // verus!
