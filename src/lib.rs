//! A five-letter word-guessing game: scoring of guesses, the list of accepted words,
//! and the board that turns keystrokes into guesses and decides the outcome.
pub mod board;
pub mod evaluate;
pub mod help;
pub mod message;
pub mod words;
