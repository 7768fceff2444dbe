//! Text shown to the player when the game is won.
use vstd::prelude::*;
use vstd::string::*;

verus! {

/// The phrase for a win on guess `k`.
pub open spec fn win_phrase(k: int) -> Seq<char> {
    if k == 1 {
        "Genius"@
    } else if k == 2 {
        "Magnificent"@
    } else if k == 3 {
        "Impressive"@
    } else if k == 4 {
        "Splendid"@
    } else if k == 5 {
        "Great"@
    } else {
        "Phew"@
    }
}

/// The phrase of encouragement for a win on guess `guess_count`.
pub fn format_win(guess_count: u8) -> (r: String)
    requires
        1 <= guess_count <= 6,
    ensures
        r@ == win_phrase(guess_count as int),
{
    if guess_count == 1 {
        String::from_str("Genius")
    } else if guess_count == 2 {
        String::from_str("Magnificent")
    } else if guess_count == 3 {
        String::from_str("Impressive")
    } else if guess_count == 4 {
        String::from_str("Splendid")
    } else if guess_count == 5 {
        String::from_str("Great")
    } else {
        String::from_str("Phew")
    }
}

} // verus!
