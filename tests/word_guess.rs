use wordle::letter_guess::LetterGuessStatus;
use wordle::word_guess::{WordGuess, WordGuessStatus};

#[test]
fn lib_create_word_guess() {
    let new_word_guess = WordGuess::from_str("abcde");
    assert_eq!(new_word_guess.unwrap().status, WordGuessStatus::Unevaluated);
    let new_word_guess = WordGuess::from_str("abcde");
    assert_eq!(new_word_guess.unwrap().letter_guesses[0].letter, 'A');
}

#[test]
fn lib_create_word_guess_too_long() {
    let new_word_guess = WordGuess::from_str("abcdef");
    assert!(new_word_guess.is_err());
}

#[test]
fn lib_create_word_guess_not_letter() {
    let new_word_guess = WordGuess::from_str("ab!de");
    assert!(new_word_guess.is_err());
}

#[test]
fn word_guess_create_word_guess() {
    let new_word_guess = WordGuess::from_str("abcde");
    assert_eq!(new_word_guess.unwrap().status, WordGuessStatus::Unevaluated);
    let new_word_guess = WordGuess::from_str("abcde");
    assert_eq!(new_word_guess.unwrap().letter_guesses[0].letter, 'A');
}

#[test]
fn word_guess_create_word_guess_too_long() {
    let new_word_guess = WordGuess::from_str("abcdef");
    assert!(new_word_guess.is_err());
}

#[test]
fn word_guess_create_word_guess_not_letter() {
    let new_word_guess = WordGuess::from_str("ab!de");
    assert!(new_word_guess.is_err());
}

#[test]
fn check_correct_word_guess() {
    let check_result = WordGuess::from_str("abcde")
        .unwrap()
        .check_word_guess("abcde");
    assert_eq!(check_result, WordGuessStatus::Correct);
}

#[test]
fn check_incorrect_word_guess() {
    let mut word_guess = WordGuess::from_str("acbde").unwrap();
    let check_result = word_guess.check_word_guess("abcde");
    assert_eq!(check_result, WordGuessStatus::Incorrect);
    assert_eq!(word_guess.letter_guesses[1].status, LetterGuessStatus::IncorrectPosition);
    assert_eq!(word_guess.letter_guesses[2].status, LetterGuessStatus::IncorrectPosition);
}

#[test]
fn plain_guess_letters_are_upper_cased_and_unevaluated() {
    let g = WordGuess::from_str("hElLo").unwrap();
    let letters: Vec<char> = g.letter_guesses.iter().map(|l| l.letter).collect();
    assert_eq!(letters, vec!['H', 'E', 'L', 'L', 'O']);
    for (i, l) in g.letter_guesses.iter().enumerate() {
        assert_eq!(l.position, i);
        assert_eq!(l.status, LetterGuessStatus::Unevaluated);
    }
}

#[test]
fn guesses_of_other_lengths_fail() {
    for s in ["", "a", "abcd", "abcdef", "abcdefghi", "abcdefghijk"] {
        assert!(WordGuess::from_str(s).is_err(), "{}", s);
    }
}

#[test]
fn non_ascii_guess_fails() {
    assert!(WordGuess::from_str("abcdé").is_err());
    assert!(WordGuess::from_str("ab de").is_err());
    assert!(WordGuess::from_str("abcd1").is_err());
}

#[test]
fn coded_guess_is_read() {
    let g = WordGuess::from_str("!a_B?cxD!e").unwrap();
    assert_eq!(g.status, WordGuessStatus::Unevaluated);
    let letters: Vec<char> = g.letter_guesses.iter().map(|l| l.letter).collect();
    assert_eq!(letters, vec!['A', 'B', 'C', 'D', 'E']);
    let statuses: Vec<LetterGuessStatus> = g.letter_guesses.iter().map(|l| l.status).collect();
    assert_eq!(
        statuses,
        vec![
            LetterGuessStatus::Correct,
            LetterGuessStatus::IncorrectPosition,
            LetterGuessStatus::Unevaluated,
            LetterGuessStatus::Incorrect,
            LetterGuessStatus::Correct,
        ]
    );
    for (i, l) in g.letter_guesses.iter().enumerate() {
        assert_eq!(l.position, i);
    }
}

#[test]
fn coded_guess_errors() {
    assert!(WordGuess::from_str("!a_B?cxD!1").is_err());
    assert!(WordGuess::from_str("#a_B?cxD!e").is_err());
    assert!(WordGuess::from_str("!a_B?cXD!e").is_err());
}

#[test]
fn plain_guess_formats_with_unevaluated_codes() {
    let g = WordGuess::from_str("abcde").unwrap();
    assert_eq!(g.to_string(), "?A?B?C?D?E");
}

#[test]
fn coded_form_round_trips() {
    let g = WordGuess::from_str("!A_B?CxD!E").unwrap();
    assert_eq!(g.to_string(), "!A_B?CxD!E");
    let mut g = WordGuess::from_str("crane").unwrap();
    g.check_word_guess("react");
    let text = g.to_string();
    let again = WordGuess::from_str(&text).unwrap();
    assert_eq!(again.letter_guesses, g.letter_guesses);
}

#[test]
fn equal_guess_is_correct_everywhere() {
    let mut g = WordGuess::from_str("abcde").unwrap();
    assert_eq!(g.check_word_guess("ABCDE"), WordGuessStatus::Correct);
    assert_eq!(g.status, WordGuessStatus::Correct);
    for l in g.letter_guesses.iter() {
        assert_eq!(l.status, LetterGuessStatus::Correct);
    }
    assert_eq!(g.to_string(), "!A!B!C!D!E");
}

#[test]
fn shifted_letters_are_in_the_wrong_position() {
    let mut g = WordGuess::from_str("acbde").unwrap();
    assert_eq!(g.check_word_guess("abcde"), WordGuessStatus::Incorrect);
    assert_eq!(g.to_string(), "!A_C_B!D!E");
}

#[test]
fn absent_letters_are_incorrect() {
    let mut g = WordGuess::from_str("xyzab").unwrap();
    assert_eq!(g.check_word_guess("abcde"), WordGuessStatus::Incorrect);
    assert_eq!(g.to_string(), "xXxYxZ_A_B");
}

#[test]
fn repeated_letters_each_count_as_present() {
    let mut g = WordGuess::from_str("eerie").unwrap();
    assert_eq!(g.check_word_guess("there"), WordGuessStatus::Incorrect);
    assert_eq!(g.to_string(), "_E_E_RxI!E");
}

#[test]
fn guessed_word_is_lower_case() {
    let g = WordGuess::from_str("PlAnE").unwrap();
    assert_eq!(g.get_guessed_word(), "plane");
}

#[test]
fn guess_parses_through_from_str_trait() {
    let g: WordGuess = "abcde".parse().unwrap();
    assert_eq!(g.to_string(), "?A?B?C?D?E");
    assert!("ab!de".parse::<WordGuess>().is_err());
}
