//! A whole guess of five letters: parsing, evaluation against the secret word
//! and the status-coded text form.

use vstd::prelude::*;
use crate::text::{
    is_letter, upper, upper_seq, lower_seq, to_upper, to_lower, is_ascii_letter, push_char,
};
use crate::letter_guess::{
    LetterGuess, LetterGuessStatus, status_of_code, code_of,
};

verus! {

/// The outcome of a whole guess.
#[derive(Debug, Clone, Copy, PartialEq, Eq, Structural)]
pub enum WordGuessStatus {
    Incorrect,
    Correct,
    Unevaluated,
}

/// One guess of five letters and its overall status.
#[derive(Debug, Clone, Copy, PartialEq, Eq)]
pub struct WordGuess {
    pub letter_guesses: [LetterGuess; 5],
    pub status: WordGuessStatus,
}

/// A guess that could not be read.
#[derive(Debug, PartialEq, Eq, Structural)]
pub struct ParseWordGuessError;

/// Five ASCII letters.
pub open spec fn is_plain_guess(s: Seq<char>) -> bool {
    &&& s.len() == 5
    &&& forall|i: int| 0 <= i < 5 ==> is_letter(#[trigger] s[i])
}

/// Five pairs, each a status code followed by an ASCII letter.
pub open spec fn is_coded_guess(s: Seq<char>) -> bool {
    &&& s.len() == 10
    &&& forall|i: int|
        0 <= i < 5 ==> #[trigger] status_of_code(s[2 * i]) is Some && is_letter(s[2 * i + 1])
}

/// Whether a guess can be read from `s`.
pub open spec fn parses(s: Seq<char>) -> bool {
    is_plain_guess(s) || is_coded_guess(s)
}

/// The letters read from five plain letters: upper-cased and unevaluated.
pub open spec fn plain_letters(s: Seq<char>) -> Seq<LetterGuess> {
    Seq::new(
        5,
        |i: int|
            LetterGuess {
                letter: upper(s[i]),
                position: i as usize,
                status: LetterGuessStatus::Unevaluated,
            },
    )
}

/// The letters read from five status-coded pairs.
pub open spec fn coded_letters(s: Seq<char>) -> Seq<LetterGuess> {
    Seq::new(
        5,
        |i: int|
            LetterGuess {
                letter: upper(s[2 * i + 1]),
                position: i as usize,
                status: status_of_code(s[2 * i])->Some_0,
            },
    )
}

/// The letters that a readable `s` stands for.
pub open spec fn parsed_letters(s: Seq<char>) -> Seq<LetterGuess> {
    if s.len() == 5 {
        plain_letters(s)
    } else {
        coded_letters(s)
    }
}

/// Five letters, upper-case, each at its own index.
pub open spec fn well_formed_letters(lgs: Seq<LetterGuess>) -> bool {
    &&& lgs.len() == 5
    &&& forall|i: int|
        0 <= i < 5 ==> {
            &&& is_letter(#[trigger] lgs[i].letter)
            &&& upper(lgs[i].letter) == lgs[i].letter
            &&& lgs[i].position == i
        }
}

/// The status of the guessed letter `c` at index `i` against `secret`.
pub open spec fn letter_status(c: char, i: int, secret: Seq<char>) -> LetterGuessStatus {
    if c == secret[i] {
        LetterGuessStatus::Correct
    } else if secret.contains(c) {
        LetterGuessStatus::IncorrectPosition
    } else {
        LetterGuessStatus::Incorrect
    }
}

/// The letters of a guess with their statuses set against `secret`.
pub open spec fn evaluate_letters(lgs: Seq<LetterGuess>, secret: Seq<char>) -> Seq<LetterGuess> {
    lgs.map(
        |i: int, g: LetterGuess|
            LetterGuess {
                letter: g.letter,
                position: g.position,
                status: letter_status(g.letter, i, secret),
            },
    )
}

/// Every letter is correct.
pub open spec fn all_correct(lgs: Seq<LetterGuess>) -> bool {
    forall|i: int| 0 <= i < lgs.len() ==> (#[trigger] lgs[i]).status == LetterGuessStatus::Correct
}

/// The overall status of evaluated letters.
pub open spec fn word_status(lgs: Seq<LetterGuess>) -> WordGuessStatus {
    if all_correct(lgs) {
        WordGuessStatus::Correct
    } else {
        WordGuessStatus::Incorrect
    }
}

/// Each letter preceded by the code of its status, left to right.
pub open spec fn formatted(lgs: Seq<LetterGuess>) -> Seq<char>
    decreases lgs.len(),
{
    if lgs.len() == 0 {
        Seq::empty()
    } else {
        formatted(lgs.drop_last()) + seq![code_of(lgs.last().status), lgs.last().letter]
    }
}

impl WordGuess {
    /// The letters are five upper-case letters, each at its own index.
    pub open spec fn well_formed(&self) -> bool {
        well_formed_letters(self.letter_guesses@)
    }

    /// Reads five plain letters, upper-cased and unevaluated.
    pub fn parse_letters(s: &str) -> (r: Result<[LetterGuess; 5], ParseWordGuessError>)
        requires
            s@.len() == 5,
        ensures
            r is Ok <==> is_plain_guess(s@),
            r is Ok ==> r->Ok_0@ == plain_letters(s@),
    {
        let unset = LetterGuess { letter: 'A', position: 0, status: LetterGuessStatus::Unevaluated };
        let mut letters: [LetterGuess; 5] = [unset, unset, unset, unset, unset];
        let mut i: usize = 0;
        while i < 5
            invariant
                0 <= i <= 5,
                s@.len() == 5,
                forall|j: int| 0 <= j < i ==> is_letter(#[trigger] s@[j]),
                forall|j: int| 0 <= j < i ==> #[trigger] letters@[j] == plain_letters(s@)[j],
            decreases 5 - i,
        {
            let c = s.get_char(i);
            if !is_ascii_letter(c) {
                return Err(ParseWordGuessError);
            }
            letters[i] = LetterGuess {
                letter: to_upper(c),
                position: i,
                status: LetterGuessStatus::Unevaluated,
            };
            i = i + 1;
        }
        assert(letters@ =~= plain_letters(s@));
        Ok(letters)
    }

    /// Reads five pairs of a status code and a letter; each letter is
    /// upper-cased and placed at the index of its pair.
    pub fn parse_letters_with_status(s: &str) -> (r: Result<[LetterGuess; 5], ParseWordGuessError>)
        requires
            s@.len() == 10,
        ensures
            r is Ok <==> is_coded_guess(s@),
            r is Ok ==> r->Ok_0@ == coded_letters(s@),
    {
        let unset = LetterGuess { letter: 'A', position: 0, status: LetterGuessStatus::Unevaluated };
        let mut letters: [LetterGuess; 5] = [unset, unset, unset, unset, unset];
        let mut i: usize = 0;
        while i < 5
            invariant
                0 <= i <= 5,
                s@.len() == 10,
                forall|j: int|
                    0 <= j < i ==> #[trigger] status_of_code(s@[2 * j]) is Some && is_letter(
                        s@[2 * j + 1],
                    ),
                forall|j: int| 0 <= j < i ==> #[trigger] letters@[j] == coded_letters(s@)[j],
            decreases 5 - i,
        {
            let pair = s.substring_char(2 * i, 2 * i + 2);
            assert(pair@[0] == s@[2 * i as int] && pair@[1] == s@[2 * i + 1]);
            match LetterGuess::from_str(pair) {
                Ok(guess) => {
                    letters[i] = LetterGuess {
                        letter: guess.letter,
                        position: i,
                        status: guess.status,
                    };
                },
                Err(_) => {
                    assert(!(status_of_code(s@[2 * i as int]) is Some && is_letter(
                        s@[2 * i as int + 1],
                    )));
                    return Err(ParseWordGuessError);
                },
            }
            i = i + 1;
        }
        assert(letters@ =~= coded_letters(s@));
        Ok(letters)
    }

    /// Reads a guess from five letters, or from five pairs of a status code
    /// and a letter. Letters are upper-cased; the guess is unevaluated.
    pub fn from_str(s: &str) -> (r: Result<WordGuess, ParseWordGuessError>)
        ensures
            r is Ok <==> parses(s@),
            r is Ok ==> r->Ok_0.letter_guesses@ == parsed_letters(s@),
            r is Ok ==> r->Ok_0.status == WordGuessStatus::Unevaluated,
            r is Ok ==> r->Ok_0.well_formed(),
    {
        let n = s.unicode_len();
        if n == 5 {
            match Self::parse_letters(s) {
                Ok(letters) => {
                    proof { lemma_parsed_well_formed(s@); }
                    Ok(WordGuess { letter_guesses: letters, status: WordGuessStatus::Unevaluated })
                },
                Err(e) => Err(e),
            }
        } else if n == 10 {
            match Self::parse_letters_with_status(s) {
                Ok(letters) => {
                    proof { lemma_parsed_well_formed(s@); }
                    Ok(WordGuess { letter_guesses: letters, status: WordGuessStatus::Unevaluated })
                },
                Err(e) => Err(e),
            }
        } else {
            Err(ParseWordGuessError)
        }
    }
    /// Sets the status of each letter against `word`, upper-cased: correct
    /// where the letters at that index agree, in the wrong position where the
    /// letter occurs anywhere in the word, incorrect otherwise. The guess is
    /// correct when all five letters are; the overall status is returned.
    pub fn check_word_guess(&mut self, word: &str) -> (r: WordGuessStatus)
        requires
            word@.len() == 5,
        ensures
            final(self).letter_guesses@ == evaluate_letters(
                old(self).letter_guesses@,
                upper_seq(word@),
            ),
            final(self).status == r,
            r == word_status(final(self).letter_guesses@),
            old(self).well_formed() ==> final(self).well_formed(),
    {
        let ghost secret = upper_seq(word@);
        let ghost before = self.letter_guesses@;
        let mut actual: Vec<char> = Vec::new();
        let mut k: usize = 0;
        while k < 5
            invariant
                0 <= k <= 5,
                word@.len() == 5,
                secret == upper_seq(word@),
                actual@ == secret.take(k as int),
            decreases 5 - k,
        {
            actual.push(to_upper(word.get_char(k)));
            k = k + 1;
            assert(actual@ =~= secret.take(k as int));
        }
        assert(actual@ =~= secret);
        let mut index: usize = 0;
        while index < 5
            invariant
                0 <= index <= 5,
                actual@ == secret,
                secret.len() == 5,
                before == old(self).letter_guesses@,
                forall|j: int|
                    0 <= j < index ==> #[trigger] self.letter_guesses@[j] == evaluate_letters(
                        before,
                        secret,
                    )[j],
                forall|j: int| index <= j < 5 ==> #[trigger] self.letter_guesses@[j] == before[j],
            decreases 5 - index,
        {
            let g = self.letter_guesses[index];
            let status = if g.letter == actual[index] {
                LetterGuessStatus::Correct
            } else if contains_char(&actual, g.letter) {
                LetterGuessStatus::IncorrectPosition
            } else {
                LetterGuessStatus::Incorrect
            };
            self.letter_guesses[index] = LetterGuess { letter: g.letter, position: g.position, status };
            index = index + 1;
        }
        assert(self.letter_guesses@ =~= evaluate_letters(before, secret));
        let mut correct = true;
        let mut j: usize = 0;
        while j < 5
            invariant
                0 <= j <= 5,
                self.letter_guesses@.len() == 5,
                correct <==> forall|m: int|
                    0 <= m < j ==> (#[trigger] self.letter_guesses@[m]).status
                        == LetterGuessStatus::Correct,
            decreases 5 - j,
        {
            if self.letter_guesses[j].status != LetterGuessStatus::Correct {
                correct = false;
            }
            j = j + 1;
        }
        self.status = if correct {
            WordGuessStatus::Correct
        } else {
            WordGuessStatus::Incorrect
        };
        self.status
    }

    /// Each letter preceded by the code of its status, as in `!A_BxC?D!E`.
    pub fn to_string(&self) -> (r: String)
        ensures
            r@ == formatted(self.letter_guesses@),
    {
        let mut r = String::new();
        let mut i: usize = 0;
        while i < 5
            invariant
                0 <= i <= 5,
                r@ == formatted(self.letter_guesses@.take(i as int)),
            decreases 5 - i,
        {
            let g = self.letter_guesses[i];
            push_char(&mut r, g.status.code());
            push_char(&mut r, g.letter);
            proof {
                let t = self.letter_guesses@.take(i + 1);
                assert(t.drop_last() =~= self.letter_guesses@.take(i as int));
            }
            i = i + 1;
        }
        assert(self.letter_guesses@.take(5) =~= self.letter_guesses@);
        r
    }

    /// The guessed letters, lower-cased, as a word of the vocabulary is written.
    pub fn get_guessed_word(&self) -> (r: String)
        ensures
            r@ == lower_seq(self.letter_guesses@.map_values(|g: LetterGuess| g.letter)),
    {
        let ghost letters = self.letter_guesses@.map_values(|g: LetterGuess| g.letter);
        let mut r = String::new();
        let mut i: usize = 0;
        while i < 5
            invariant
                0 <= i <= 5,
                letters == self.letter_guesses@.map_values(|g: LetterGuess| g.letter),
                r@ == lower_seq(letters).take(i as int),
            decreases 5 - i,
        {
            push_char(&mut r, to_lower(self.letter_guesses[i].letter));
            i = i + 1;
            assert(r@ =~= lower_seq(letters).take(i as int));
        }
        assert(lower_seq(letters).take(5) =~= lower_seq(letters));
        r
    }
}

impl core::str::FromStr for WordGuess {
    type Err = ParseWordGuessError;

    fn from_str(s: &str) -> Result<WordGuess, ParseWordGuessError> {
        WordGuess::from_str(s)
    }
}

/// Whether `c` occurs in `v`.
fn contains_char(v: &Vec<char>, c: char) -> (r: bool)
    ensures
        r == v@.contains(c),
{
    let mut i: usize = 0;
    while i < v.len()
        invariant
            0 <= i <= v@.len(),
            forall|j: int| 0 <= j < i ==> v@[j] != c,
        decreases v@.len() - i,
    {
        if v[i] == c {
            return true;
        }
        i = i + 1;
    }
    false
}

/// What is read from a readable text is five upper-case letters at their own indices.
pub proof fn lemma_parsed_well_formed(s: Seq<char>)
    requires
        parses(s),
    ensures
        well_formed_letters(parsed_letters(s)),
{
    assert forall|i: int| 0 <= i < 5 implies {
        &&& is_letter(#[trigger] parsed_letters(s)[i].letter)
        &&& upper(parsed_letters(s)[i].letter) == parsed_letters(s)[i].letter
        &&& parsed_letters(s)[i].position == i
    } by {
        if s.len() == 5 {
            assert(is_letter(s[i]));
        } else {
            assert(status_of_code(s[2 * i]) is Some && is_letter(s[2 * i + 1]));
        }
    }
}

/// The letters of a status-coded text: every second character, from the second.
pub open spec fn letters_of_format(t: Seq<char>) -> Seq<char> {
    Seq::new(t.len() / 2, |i: int| t[2 * i + 1])
}

/// The text form holds two characters per letter: its status code, then the letter.
pub proof fn lemma_formatted_index(lgs: Seq<LetterGuess>)
    ensures
        formatted(lgs).len() == 2 * lgs.len(),
        forall|i: int|
            0 <= i < lgs.len() ==> {
                &&& #[trigger] formatted(lgs)[2 * i] == code_of(lgs[i].status)
                &&& formatted(lgs)[2 * i + 1] == lgs[i].letter
            },
    decreases lgs.len(),
{
    if lgs.len() > 0 {
        let init = lgs.drop_last();
        lemma_formatted_index(init);
        assert forall|i: int| 0 <= i < lgs.len() implies {
            &&& #[trigger] formatted(lgs)[2 * i] == code_of(lgs[i].status)
            &&& formatted(lgs)[2 * i + 1] == lgs[i].letter
        } by {
            if i < init.len() {
                assert(formatted(init)[2 * i] == code_of(init[i].status));
            }
        }
    }
}

/// Reading the code of a status gives the status back.
pub proof fn lemma_code_round_trip(st: LetterGuessStatus)
    ensures
        status_of_code(code_of(st)) == Some(st),
{
}

/// Five ASCII letters are always read, as those letters upper-cased, at
/// their own indices, all unevaluated.
pub proof fn lemma_plain_guess_parses(s: Seq<char>)
    requires
        is_plain_guess(s),
    ensures
        parses(s),
        parsed_letters(s).len() == 5,
        forall|i: int|
            0 <= i < 5 ==> {
                &&& (#[trigger] parsed_letters(s)[i]).letter == upper(s[i])
                &&& parsed_letters(s)[i].position == i
                &&& parsed_letters(s)[i].status == LetterGuessStatus::Unevaluated
            },
{
}

/// No guess is read from a text whose length is neither 5 nor 10, nor from
/// one with a character that is not an ASCII letter where a letter belongs.
pub proof fn lemma_unreadable(s: Seq<char>)
    requires
        (s.len() != 5 && s.len() != 10) || (s.len() == 5 && exists|i: int|
            0 <= i < 5 && !is_letter(#[trigger] s[i])) || (s.len() == 10 && exists|i: int|
            0 <= i < 5 && !is_letter(#[trigger] s[2 * i + 1])),
    ensures
        !parses(s),
{
    if s.len() == 10 {
        let i = choose|i: int| 0 <= i < 5 && !is_letter(#[trigger] s[2 * i + 1]);
        assert(!(status_of_code(s[2 * i]) is Some && is_letter(s[2 * i + 1])));
    }
}

/// The letters of the text form of a guess read from five letters are
/// those letters upper-cased.
pub proof fn lemma_plain_round_trip(s: Seq<char>)
    requires
        is_plain_guess(s),
    ensures
        letters_of_format(formatted(parsed_letters(s))) == upper_seq(s),
{
    let lgs = parsed_letters(s);
    lemma_formatted_index(lgs);
    assert forall|i: int| 0 <= i < 5 implies #[trigger] letters_of_format(formatted(lgs))[i]
        == upper_seq(s)[i] by {
        assert(formatted(lgs)[2 * i] == code_of(lgs[i].status));
    }
    assert(letters_of_format(formatted(parsed_letters(s))) =~= upper_seq(s));
}

/// The text form of a well-formed guess reads back as the same letters,
/// statuses included.
pub proof fn lemma_coded_round_trip(lgs: Seq<LetterGuess>)
    requires
        well_formed_letters(lgs),
    ensures
        parses(formatted(lgs)),
        parsed_letters(formatted(lgs)) == lgs,
{
    let t = formatted(lgs);
    lemma_formatted_index(lgs);
    assert forall|i: int| 0 <= i < 5 implies #[trigger] status_of_code(t[2 * i]) is Some
        && is_letter(t[2 * i + 1]) by {
        lemma_code_round_trip(lgs[i].status);
        assert(t[2 * i] == code_of(lgs[i].status));
    }
    assert forall|i: int| 0 <= i < 5 implies #[trigger] coded_letters(t)[i] == lgs[i] by {
        lemma_code_round_trip(lgs[i].status);
        assert(t[2 * i] == code_of(lgs[i].status));
    }
    assert(coded_letters(t) =~= lgs);
}

/// A guess read from five letters, evaluated against the same word, is
/// correct in every letter and as a whole.
pub proof fn lemma_guess_equal_to_secret(s: Seq<char>, secret: Seq<char>)
    requires
        is_plain_guess(s),
        upper_seq(secret) == upper_seq(s),
    ensures
        all_correct(evaluate_letters(parsed_letters(s), upper_seq(secret))),
        word_status(evaluate_letters(parsed_letters(s), upper_seq(secret)))
            == WordGuessStatus::Correct,
{
    let ev = evaluate_letters(parsed_letters(s), upper_seq(secret));
    assert forall|i: int| 0 <= i < ev.len() implies (#[trigger] ev[i]).status
        == LetterGuessStatus::Correct by {
        assert(upper_seq(s)[i] == upper(s[i]));
    }
}

/// A guess whose letters all occur in the secret word, but not all at the
/// same index, is incorrect: each letter is correct where the two agree and
/// in the wrong position elsewhere.
pub proof fn lemma_shifted_letters(s: Seq<char>, secret: Seq<char>)
    requires
        is_plain_guess(s),
        secret.len() == 5,
        forall|i: int| 0 <= i < 5 ==> upper_seq(secret).contains(upper(#[trigger] s[i])),
        exists|i: int| 0 <= i < 5 && upper(#[trigger] s[i]) != upper(secret[i]),
    ensures
        word_status(evaluate_letters(parsed_letters(s), upper_seq(secret)))
            == WordGuessStatus::Incorrect,
        forall|i: int|
            0 <= i < 5 ==> (#[trigger] evaluate_letters(parsed_letters(s), upper_seq(secret))[i]).status
                == if upper(s[i]) == upper(secret[i]) {
                LetterGuessStatus::Correct
            } else {
                LetterGuessStatus::IncorrectPosition
            },
{
    let ev = evaluate_letters(parsed_letters(s), upper_seq(secret));
    let k = choose|i: int| 0 <= i < 5 && upper(#[trigger] s[i]) != upper(secret[i]);
    assert(ev[k].status != LetterGuessStatus::Correct);
}

} // verus!
