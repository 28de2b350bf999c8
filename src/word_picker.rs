//! Choosing the secret word and the vocabulary of accepted guesses.

use vstd::prelude::*;

verus! {

/// The texts of a sequence of strings.
pub open spec fn texts(v: Seq<String>) -> Seq<Seq<char>> {
    v.map_values(|w: String| w@)
}

/// The built-in vocabulary, used when no dictionary words are available.
pub open spec fn fallback_list() -> Seq<Seq<char>> {
    seq!["train"@, "plane"@, "river"@, "rusty"@, "rover"@, "arise"@]
}

/// The vocabulary for a game: the dictionary's words where there are any,
/// the built-in list otherwise.
pub open spec fn vocabulary_of(dictionary: Option<Seq<Seq<char>>>) -> Seq<Seq<char>> {
    match dictionary {
        Some(d) => if d.len() > 0 {
            d
        } else {
            fallback_list()
        },
        None => fallback_list(),
    }
}

/// The texts of an optional list of strings.
pub open spec fn option_texts(dictionary: Option<Vec<String>>) -> Option<Seq<Seq<char>>> {
    match dictionary {
        Some(d) => Some(texts(d@)),
        None => None,
    }
}

/// Relies on `rand::random_range`: a value drawn from `0..n`, which must
/// not be empty.
#[verifier::external_body]
fn random_below(n: usize) -> (r: usize)
    requires
        n > 0,
    ensures
        r < n,
{
    rand::random_range(0..n)
}

/// The built-in vocabulary.
pub fn fallback_words() -> (r: Vec<String>)
    ensures
        texts(r@) == fallback_list(),
        r@.len() == 6,
{
    let r = vec![
        "train".to_owned(),
        "plane".to_owned(),
        "river".to_owned(),
        "rusty".to_owned(),
        "rover".to_owned(),
        "arise".to_owned(),
    ];
    assert(texts(r@) =~= fallback_list());
    r
}

/// The dictionary's words where there are any, the built-in list otherwise.
pub fn vocabulary(dictionary: Option<Vec<String>>) -> (r: Vec<String>)
    ensures
        texts(r@) == vocabulary_of(option_texts(dictionary)),
        r@.len() > 0,
{
    match dictionary {
        Some(words) => {
            if words.len() > 0 {
                words
            } else {
                fallback_words()
            }
        },
        None => fallback_words(),
    }
}

/// The word at `index` of the vocabulary.
pub fn select_word(vocabulary: &Vec<String>, index: usize) -> (r: String)
    requires
        index < vocabulary@.len(),
    ensures
        r@ == vocabulary@[index as int]@,
{
    vocabulary[index].clone()
}

/// The secret word and the vocabulary for a game: the vocabulary is the
/// dictionary's words where there are any, the built-in list otherwise, and
/// the secret is drawn at random from it.
pub fn pick_word_from(dictionary: Option<Vec<String>>) -> (r: (String, Vec<String>))
    ensures
        texts(r.1@) == vocabulary_of(option_texts(dictionary)),
        texts(r.1@).contains(r.0@),
        (dictionary is None || dictionary->Some_0@.len() == 0) ==> texts(r.1@) == fallback_list()
            && fallback_list().contains(r.0@),
{
    let words = vocabulary(dictionary);
    let index = random_below(words.len());
    let secret = select_word(&words, index);
    assert(texts(words@)[index as int] == secret@);
    (secret, words)
}

/// Whether `word` is, letter for letter, one of `valid_words`.
pub fn is_valid_word(word: String, valid_words: &Vec<String>) -> (r: bool)
    ensures
        r == texts(valid_words@).contains(word@),
{
    let mut i: usize = 0;
    while i < valid_words.len()
        invariant
            0 <= i <= valid_words@.len(),
            forall|j: int| 0 <= j < i ==> valid_words@[j]@ != word@,
        decreases valid_words@.len() - i,
    {
        if valid_words[i] == word {
            assert(texts(valid_words@)[i as int] == word@);
            return true;
        }
        i = i + 1;
    }
    proof {
        if texts(valid_words@).contains(word@) {
            let j = choose|j: int| 0 <= j < valid_words@.len() && texts(valid_words@)[j] == word@;
            assert(valid_words@[j]@ == word@);
        }
    }
    false
}

} // verus!
