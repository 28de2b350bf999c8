//! A five-letter word-guessing game: guess parsing, evaluation against a
//! secret word, dictionary cleaning and secret selection.

pub mod text;
pub mod letter_guess;
pub mod word_guess;
pub mod dictionary_parser;
pub mod word_picker;
pub mod letter_frequencies;
