use wordle::letter_frequencies::LetterFrequencies;

#[test]
fn add_word_to_letter_frequencies_apple_four_letters() {
    let mut letter_frequencies = LetterFrequencies::new();
    letter_frequencies.add_word_to_letter_frequencies(String::from("apple"));

    assert_eq!(letter_frequencies.total_occurrences, 5);
    assert_eq!(letter_frequencies.occurrences.len(), 4);
}

#[test]
fn add_word_to_letter_frequencies_multiple_apple_four_letters() {
    let mut letter_frequencies = LetterFrequencies::new();
    letter_frequencies.add_word_to_letter_frequencies(String::from("apple"));
    letter_frequencies.add_word_to_letter_frequencies(String::from("apple"));

    assert_eq!(letter_frequencies.total_occurrences, 10);
    assert_eq!(letter_frequencies.occurrences.len(), 4);
}

#[test]
fn add_word_to_letter_frequencies_multiple_words_four_e() {
    let mut letter_frequencies = LetterFrequencies::new();
    letter_frequencies.add_word_to_letter_frequencies(String::from("apple"));
    letter_frequencies.add_word_to_letter_frequencies(String::from("fence"));
    letter_frequencies.add_word_to_letter_frequencies(String::from("fires"));

    assert_eq!(letter_frequencies.total_occurrences, 15);
    assert_eq!(letter_frequencies.occurrences.get(&'e').unwrap(), &4);
}

#[test]
fn add_multiple_words_to_string() {
    let mut letter_frequencies = LetterFrequencies::new();
    letter_frequencies.add_word_to_letter_frequencies(String::from("apple"));
    letter_frequencies.add_word_to_letter_frequencies(String::from("fence"));
    letter_frequencies.add_word_to_letter_frequencies(String::from("fires"));

    assert_eq!(letter_frequencies.to_string().len(), 5 * 10);
}

#[test]
fn letters_are_listed_in_order_first_seen() {
    let mut letter_frequencies = LetterFrequencies::new();
    letter_frequencies.add_word_to_letter_frequencies(String::from("apple"));
    assert_eq!(letter_frequencies.to_string(), "a: 1;p: 2;l: 1;e: 1;");
    assert_eq!(letter_frequencies.occurrences.get(&'z'), None);
    assert_eq!(LetterFrequencies::new().to_string(), "");
}

#[test]
fn counts_of_two_digits_are_written_in_full() {
    let mut letter_frequencies = LetterFrequencies::new();
    for _ in 0..3 {
        letter_frequencies.add_word_to_letter_frequencies(String::from("eerie"));
    }
    letter_frequencies.add_word_to_letter_frequencies(String::from("geese"));
    assert_eq!(letter_frequencies.to_string(), "e: 12;r: 3;i: 3;g: 1;s: 1;");
    assert_eq!(letter_frequencies.total_occurrences, 20);
}

#[test]
fn total_counts_utf8_bytes() {
    let mut letter_frequencies = LetterFrequencies::new();
    letter_frequencies.add_word_to_letter_frequencies(String::from("é"));
    assert_eq!(letter_frequencies.total_occurrences, 2);
    assert_eq!(letter_frequencies.occurrences.len(), 1);
    assert_eq!(letter_frequencies.occurrences.get(&'é').unwrap(), &1);
    letter_frequencies.add_word_to_letter_frequencies(String::from("café"));
    assert_eq!(letter_frequencies.total_occurrences, 7);
    assert_eq!(letter_frequencies.to_string(), "é: 2;c: 1;a: 1;f: 1;");
}
