use wordle::dictionary_parser::{parse_lines, parse_word};

#[test]
fn five_letter_with_meta_word_returns() {
    let test_word = "Agata/M";
    let result = parse_word(test_word);
    assert_eq!(result.is_some(), true);
    assert_eq!(result.unwrap(), "agata");
}

#[test]
fn five_letter_with_no_meta_word_returns() {
    let test_word = "Canad";
    let result = parse_word(test_word);
    assert_eq!(result.is_some(), true);
    assert_eq!(result.unwrap(), "canad");
}

#[test]
fn five_letter_with_apostrophe_word_returns() {
    let test_word = "D'Arcy";
    let result = parse_word(test_word);
    assert_eq!(result.is_some(), true);
    assert_eq!(result.unwrap(), "darcy");
}

#[test]
fn longer_word_returns_none() {
    let test_word = "Anglicanism/MS";
    let result = parse_word(test_word);
    assert_eq!(result.is_some(), false);
    assert_eq!(result.is_none(), true);
}

#[test]
fn surrounding_white_space_is_trimmed() {
    assert_eq!(parse_word("  Canad \t\r").unwrap(), "canad");
    assert_eq!(parse_word("\u{3000}Plane/S\n").unwrap(), "plane");
}

#[test]
fn numeric_characters_are_dropped() {
    assert_eq!(parse_word("ab1cd2e").unwrap(), "abcde");
    assert_eq!(parse_word("ab\u{0663}cde").unwrap(), "abcde");
    assert!(parse_word("12345").is_none());
}

#[test]
fn short_and_empty_lines_give_no_word() {
    assert!(parse_word("").is_none());
    assert!(parse_word("four").is_none());
    assert!(parse_word("/abcde").is_none());
    assert!(parse_word("abcdef/M").is_none());
}

#[test]
fn only_the_part_before_the_first_slash_counts() {
    assert_eq!(parse_word("abc/de/fg"), None);
    assert_eq!(parse_word("abcde/fg/hi").unwrap(), "abcde");
}

#[test]
fn lines_keep_order_and_repeats() {
    let lines: Vec<String> = ["Agata/M", "Anglicanism/MS", "Canad", "", "D'Arcy", "Canad"]
        .iter()
        .map(|s| s.to_string())
        .collect();
    let words = parse_lines(&lines);
    assert_eq!(words, vec!["agata", "canad", "darcy", "canad"]);
    assert!(parse_lines(&Vec::new()).is_empty());
}

#[test]
fn unicode_white_space_and_numbers_are_removed() {
    assert_eq!(parse_word("\u{2003}\u{85}river\u{a0}").unwrap(), "river");
    assert_eq!(parse_word("ro\u{2167}ver").unwrap(), "rover");
    assert_eq!(parse_word("ro\u{b2}ver").unwrap(), "rover");
}
