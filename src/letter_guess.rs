//! The evaluation state of one guessed letter, and its two-character code.

use vstd::prelude::*;
use crate::text::{is_letter, upper, to_upper, is_ascii_letter, push_char};

verus! {

/// How one guessed letter compares with the secret word.
#[derive(Debug, Clone, Copy, PartialEq, Eq, Structural)]
pub enum LetterGuessStatus {
    Incorrect,
    Correct,
    IncorrectPosition,
    Unevaluated,
}

/// The status that a one-character code stands for, if any.
pub open spec fn status_of_code(c: char) -> Option<LetterGuessStatus> {
    if c == '?' {
        Some(LetterGuessStatus::Unevaluated)
    } else if c == '_' {
        Some(LetterGuessStatus::IncorrectPosition)
    } else if c == 'x' {
        Some(LetterGuessStatus::Incorrect)
    } else if c == '!' {
        Some(LetterGuessStatus::Correct)
    } else {
        None
    }
}

/// The one-character code of a status.
pub open spec fn code_of(s: LetterGuessStatus) -> char {
    match s {
        LetterGuessStatus::Unevaluated => '?',
        LetterGuessStatus::IncorrectPosition => '_',
        LetterGuessStatus::Incorrect => 'x',
        LetterGuessStatus::Correct => '!',
    }
}

impl LetterGuessStatus {
    /// Reads a status from its code: `?`, `_`, `x` or `!`.
    pub fn from(c: char) -> (r: Result<LetterGuessStatus, ()>)
        ensures
            r is Ok <==> status_of_code(c) is Some,
            r is Ok ==> r->Ok_0 == status_of_code(c)->Some_0,
    {
        match c {
            '?' => Ok(LetterGuessStatus::Unevaluated),
            '_' => Ok(LetterGuessStatus::IncorrectPosition),
            'x' => Ok(LetterGuessStatus::Incorrect),
            '!' => Ok(LetterGuessStatus::Correct),
            _ => Err(()),
        }
    }

    /// The code of this status.
    pub fn code(&self) -> (r: char)
        ensures
            r == code_of(*self),
            status_of_code(r) == Some(*self),
    {
        match self {
            LetterGuessStatus::Unevaluated => '?',
            LetterGuessStatus::IncorrectPosition => '_',
            LetterGuessStatus::Incorrect => 'x',
            LetterGuessStatus::Correct => '!',
        }
    }

    /// The code of this status as a one-character string.
    pub fn to_string(&self) -> (r: String)
        ensures
            r@ == seq![code_of(*self)],
    {
        let mut r = String::new();
        push_char(&mut r, self.code());
        proof {
            assert(r@ =~= seq![code_of(*self)]);
        }
        r
    }
}

impl Default for LetterGuessStatus {
    fn default() -> (r: LetterGuessStatus)
        ensures
            r == LetterGuessStatus::Unevaluated,
    {
        LetterGuessStatus::Unevaluated
    }
}

/// One guessed letter, its index in the word and its status.
#[derive(Debug, Clone, Copy, PartialEq, Eq, Structural)]
pub struct LetterGuess {
    pub letter: char,
    pub position: usize,
    pub status: LetterGuessStatus,
}

/// A two-character letter code that could not be read.
#[derive(Debug, PartialEq, Eq, Structural)]
pub struct LetterGuessParseError;

/// Whether `s` is a status code followed by an ASCII letter.
pub open spec fn is_letter_code(s: Seq<char>) -> bool {
    &&& s.len() == 2
    &&& status_of_code(s[0]) is Some
    &&& is_letter(s[1])
}

/// The letter guess that a valid two-character code stands for, at index 0.
pub open spec fn letter_of_code(s: Seq<char>) -> LetterGuess {
    LetterGuess { letter: upper(s[1]), position: 0, status: status_of_code(s[0])->Some_0 }
}

impl LetterGuess {
    /// Reads a letter guess from a status code followed by a letter, as in `!B`.
    /// The letter is upper-cased; the position is 0.
    pub fn from_str(s: &str) -> (r: Result<LetterGuess, LetterGuessParseError>)
        ensures
            r is Ok <==> is_letter_code(s@),
            r is Ok ==> r->Ok_0 == letter_of_code(s@),
    {
        if s.unicode_len() != 2 {
            return Err(LetterGuessParseError);
        }
        let code = s.get_char(0);
        let letter = s.get_char(1);
        if !is_ascii_letter(letter) {
            return Err(LetterGuessParseError);
        }
        match LetterGuessStatus::from(code) {
            Ok(status) => Ok(LetterGuess { letter: to_upper(letter), position: 0, status }),
            Err(()) => Err(LetterGuessParseError),
        }
    }
}

impl core::str::FromStr for LetterGuess {
    type Err = LetterGuessParseError;

    fn from_str(s: &str) -> Result<LetterGuess, LetterGuessParseError> {
        LetterGuess::from_str(s)
    }
}

} // verus!
