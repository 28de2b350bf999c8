use wordle::word_picker::{fallback_words, is_valid_word, pick_word_from, select_word, vocabulary};

#[test]
fn word_in_list_valid() {
    let words = vec![String::from("train"), String::from("plane")];
    let test_word = String::from("plane");

    assert!(is_valid_word(test_word, &words));
    assert_eq!(words.iter().len(), 2);
}

#[test]
fn word_not_in_list_invalid() {
    let words = vec![String::from("train"), String::from("plane")];
    let test_word = String::from("word");

    assert!(!is_valid_word(test_word, &words));
    assert_eq!(words.iter().len(), 2);
}

#[test]
fn validity_is_case_sensitive() {
    let words = vec![String::from("train"), String::from("plane")];
    assert!(!is_valid_word(String::from("PLANE"), &words));
    assert!(!is_valid_word(String::from("plane"), &Vec::new()));
}

#[test]
fn fallback_list_is_fixed() {
    assert_eq!(fallback_words(), vec!["train", "plane", "river", "rusty", "rover", "arise"]);
}

#[test]
fn missing_dictionary_falls_back() {
    for _ in 0..20 {
        let (secret, words) = pick_word_from(None);
        assert_eq!(words, fallback_words());
        assert!(words.contains(&secret));
    }
}

#[test]
fn empty_dictionary_falls_back() {
    let (secret, words) = pick_word_from(Some(Vec::new()));
    assert_eq!(words, fallback_words());
    assert!(words.contains(&secret));
    assert_eq!(vocabulary(Some(Vec::new())), fallback_words());
}

#[test]
fn dictionary_words_are_the_vocabulary() {
    let dict = vec![String::from("agata"), String::from("canad"), String::from("darcy")];
    for _ in 0..20 {
        let (secret, words) = pick_word_from(Some(dict.clone()));
        assert_eq!(words, dict);
        assert!(dict.contains(&secret));
    }
    let one = vec![String::from("canad")];
    assert_eq!(pick_word_from(Some(one)).0, "canad");
}

#[test]
fn selected_word_is_at_the_index() {
    let words = fallback_words();
    assert_eq!(select_word(&words, 0), "train");
    assert_eq!(select_word(&words, 5), "arise");
}
