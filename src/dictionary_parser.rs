//! Cleaning the lines of a dictionary into candidate five-letter words.

use vstd::prelude::*;
use crate::text::{lower_seq, to_lower, push_char};

verus! {

/// A character of the Unicode White_Space property.
pub open spec fn white_space(c: char) -> bool {
    ('\u{9}' <= c && c <= '\u{d}') || c == ' ' || c == '\u{85}' || c == '\u{a0}' || c
        == '\u{1680}' || ('\u{2000}' <= c && c <= '\u{200a}') || c == '\u{2028}' || c
        == '\u{2029}' || c == '\u{202f}' || c == '\u{205f}' || c == '\u{3000}'
}

/// `s` without its leading white space.
pub open spec fn trim_start(s: Seq<char>) -> Seq<char>
    decreases s.len(),
{
    if s.len() > 0 && white_space(s[0]) {
        trim_start(s.drop_first())
    } else {
        s
    }
}

/// `s` without its trailing white space.
pub open spec fn trim_end(s: Seq<char>) -> Seq<char>
    decreases s.len(),
{
    if s.len() > 0 && white_space(s.last()) {
        trim_end(s.drop_last())
    } else {
        s
    }
}

/// `s` without its leading and trailing white space.
pub open spec fn trimmed(s: Seq<char>) -> Seq<char> {
    trim_end(trim_start(s))
}

/// Whether a character outside ASCII is in one of the Unicode number
/// categories, as `char::is_numeric` decides it.
pub uninterp spec fn unicode_number(c: char) -> bool;

/// A numeric character: an ASCII digit, or a number in Unicode beyond ASCII.
pub open spec fn numeric(c: char) -> bool {
    ('0' <= c && c <= '9') || ('\u{7f}' < c && unicode_number(c))
}

/// Relies on `str::trim`: leading and trailing characters of the Unicode
/// White_Space property removed.
#[verifier::external_body]
fn trim(s: &str) -> (r: &str)
    ensures
        r@ == trimmed(s@),
{
    s.trim()
}

/// Relies on `char::is_numeric`: true of the ASCII digits, and beyond ASCII
/// of the characters in a Unicode number category.
#[verifier::external_body]
fn is_numeric(c: char) -> (r: bool)
    ensures
        r == (('0' <= c && c <= '9') || ('\u{7f}' < c && unicode_number(c))),
{
    c.is_numeric()
}

/// A character that survives cleaning: neither an apostrophe nor numeric.
pub open spec fn kept(c: char) -> bool {
    c != '\'' && !numeric(c)
}

/// A line trimmed, lower-cased, and rid of apostrophes and numeric characters.
pub open spec fn cleaned(s: Seq<char>) -> Seq<char> {
    lower_seq(trimmed(s)).filter(|c: char| kept(c))
}

/// The part of `s` before its first `/`, or all of `s` where it has none.
pub open spec fn before_slash(s: Seq<char>) -> Seq<char>
    decreases s.len(),
{
    if s.len() == 0 {
        s
    } else if s[0] == '/' {
        Seq::empty()
    } else {
        seq![s[0]] + before_slash(s.drop_first())
    }
}

/// The word that a dictionary line gives: the cleaned part before any `/`,
/// where it is exactly five characters long.
pub open spec fn word_of_line(s: Seq<char>) -> Option<Seq<char>> {
    let w = before_slash(cleaned(s));
    if w.len() == 5 {
        Some(w)
    } else {
        None
    }
}

/// The words that a sequence of dictionary lines gives, in order.
pub open spec fn words_of_lines(lines: Seq<Seq<char>>) -> Seq<Seq<char>> {
    lines.filter_map(|l: Seq<char>| word_of_line(l))
}

/// `before_slash` of `s` is `s` up to the first `/`.
proof fn lemma_before_slash(s: Seq<char>, k: int)
    requires
        0 <= k <= s.len(),
        forall|j: int| 0 <= j < k ==> s[j] != '/',
        k == s.len() || s[k] == '/',
    ensures
        before_slash(s) == s.take(k),
    decreases s.len(),
{
    if s.len() > 0 && k > 0 {
        lemma_before_slash(s.drop_first(), k - 1);
        assert(s.take(k) =~= seq![s[0]] + s.drop_first().take(k - 1));
    } else {
        assert(s.take(k) =~= Seq::<char>::empty());
    }
}

/// Cleans one dictionary line: trims it, lower-cases it, drops apostrophes
/// and numeric characters, and keeps what stands before the first `/`. The
/// result is a word only when exactly five characters remain.
pub fn parse_word(word: &str) -> (r: Option<String>)
    ensures
        r is Some <==> word_of_line(word@) is Some,
        r is Some ==> r->Some_0@ == word_of_line(word@)->Some_0,
{
    let bare = trim(word);
    let ghost lowered = lower_seq(trimmed(word@));
    let n = bare.unicode_len();
    let mut kept_chars: Vec<char> = Vec::new();
    let mut i: usize = 0;
    while i < n
        invariant
            0 <= i <= n,
            n == bare@.len(),
            bare@ == trimmed(word@),
            lowered == lower_seq(trimmed(word@)),
            kept_chars@ == lowered.take(i as int).filter(|c: char| kept(c)),
        decreases n - i,
    {
        let c = to_lower(bare.get_char(i));
        let keep = c != '\'' && !is_numeric(c);
        if keep {
            kept_chars.push(c);
        }
        proof {
            let t = lowered.take(i + 1);
            assert(t.drop_last() =~= lowered.take(i as int));
            assert(t.last() == c);
            reveal(Seq::filter);
        }
        i = i + 1;
    }
    assert(lowered.take(n as int) =~= lowered);
    let ghost clean = cleaned(word@);
    assert(kept_chars@ == clean);
    let mut w = String::new();
    let mut k: usize = 0;
    while k < kept_chars.len() && kept_chars[k] != '/'
        invariant
            0 <= k <= kept_chars@.len(),
            kept_chars@ == clean,
            forall|j: int| 0 <= j < k ==> clean[j] != '/',
            w@ == clean.take(k as int),
        decreases kept_chars@.len() - k,
    {
        push_char(&mut w, kept_chars[k]);
        k = k + 1;
        assert(w@ =~= clean.take(k as int));
    }
    proof {
        lemma_before_slash(clean, k as int);
    }
    if w.unicode_len() == 5 {
        Some(w)
    } else {
        None
    }
}

/// The words of a dictionary, one candidate per line, in the order of the
/// lines; lines that give no word are skipped and repeats are kept.
pub fn parse_lines(lines: &Vec<String>) -> (r: Vec<String>)
    ensures
        r@.map_values(|w: String| w@) == words_of_lines(lines@.map_values(|l: String| l@)),
        forall|i: int| 0 <= i < r@.len() ==> (#[trigger] r@[i])@.len() == 5,
{
    let ghost all = lines@.map_values(|l: String| l@);
    let mut words: Vec<String> = Vec::new();
    let mut i: usize = 0;
    while i < lines.len()
        invariant
            0 <= i <= lines@.len(),
            all == lines@.map_values(|l: String| l@),
            words@.map_values(|w: String| w@) == words_of_lines(all.take(i as int)),
            forall|j: int| 0 <= j < words@.len() ==> (#[trigger] words@[j])@.len() == 5,
        decreases lines@.len() - i,
    {
        let parsed = parse_word(lines[i].as_str());
        proof {
            let t = all.take(i + 1);
            assert(t.drop_last() =~= all.take(i as int));
            assert(t.last() == lines@[i as int]@);
        }
        match parsed {
            Some(w) => {
                words.push(w);
            },
            None => {},
        }
        i = i + 1;
        assert(words@.map_values(|w: String| w@) =~= words_of_lines(all.take(i as int)));
    }
    assert(all.take(lines@.len() as int) =~= all);
    words
}

} // verus!
