//! Counts of how often each letter occurs over a set of words.

use vstd::prelude::*;
use vstd::utf8::encode_utf8;
use crate::text::push_char;

verus! {

/// The decimal digits of `n`, most significant first.
pub open spec fn decimal(n: nat) -> Seq<char>
    decreases n,
{
    if n < 10 {
        seq![digit(n)]
    } else {
        decimal(n / 10).push(digit(n % 10))
    }
}

/// The character of a decimal digit.
pub open spec fn digit(d: nat) -> char {
    ((d as int) + 48) as char
}

/// A count with one more occurrence of `c`: its entry is incremented where
/// there is one, otherwise a new entry of one is appended.
pub open spec fn add_letter_to(e: Seq<(char, nat)>, c: char) -> Seq<(char, nat)> {
    if exists|i: int| 0 <= i < e.len() && (#[trigger] e[i]).0 == c {
        let i = choose|i: int| 0 <= i < e.len() && (#[trigger] e[i]).0 == c;
        e.update(i, (c, e[i].1 + 1))
    } else {
        e.push((c, 1))
    }
}

/// A count with every character of `w` added, left to right.
pub open spec fn add_word_to(e: Seq<(char, nat)>, w: Seq<char>) -> Seq<(char, nat)>
    decreases w.len(),
{
    if w.len() == 0 {
        e
    } else {
        add_letter_to(add_word_to(e, w.drop_last()), w.last())
    }
}

/// A text takes at least one UTF-8 byte per character.
proof fn lemma_utf8_at_least_one_byte_each(s: Seq<char>)
    ensures
        s.len() <= encode_utf8(s).len(),
    decreases s.len(),
{
    if s.len() > 0 {
        lemma_utf8_at_least_one_byte_each(s.drop_first());
    }
}

/// The text form of counted letters: `letter: count;` for each, in order.
pub open spec fn rendered(e: Seq<(char, nat)>) -> Seq<char>
    decreases e.len(),
{
    if e.len() == 0 {
        Seq::empty()
    } else {
        rendered(e.drop_last()) + seq![e.last().0, ':', ' '] + decimal(e.last().1) + seq![';']
    }
}

/// No letter has two entries.
pub open spec fn distinct_letters(e: Seq<(char, nat)>) -> bool {
    forall|i: int, j: int| 0 <= i < j < e.len() ==> (#[trigger] e[i]).0 != (#[trigger] e[j]).0
}

/// Letters with their counts, in the order in which each letter was first seen.
pub struct LetterCounts {
    entries: Vec<(char, u32)>,
}

impl View for LetterCounts {
    type V = Seq<(char, nat)>;

    closed spec fn view(&self) -> Seq<(char, nat)> {
        self.entries@.map_values(|p: (char, u32)| (p.0, p.1 as nat))
    }
}

impl LetterCounts {
    /// Each letter has one entry.
    pub open spec fn well_formed(&self) -> bool {
        distinct_letters(self@)
    }

    /// The number of distinct letters counted.
    pub fn len(&self) -> (r: usize)
        ensures
            r == self@.len(),
    {
        self.entries.len()
    }

    /// The index of the entry of `c`, if it has been seen.
    fn index_of(&self, c: char) -> (r: Option<usize>)
        requires
            self.well_formed(),
        ensures
            r is Some <==> exists|i: int| 0 <= i < self@.len() && (#[trigger] self@[i]).0 == c,
            r is Some ==> r->Some_0 < self@.len() && self@[r->Some_0 as int].0 == c,
            r is Some ==> forall|i: int|
                0 <= i < self@.len() && (#[trigger] self@[i]).0 == c ==> i == r->Some_0,
    {
        let mut i: usize = 0;
        while i < self.entries.len()
            invariant
                0 <= i <= self@.len(),
                self.well_formed(),
                self@.len() == self.entries@.len(),
                forall|j: int| 0 <= j < i ==> (#[trigger] self@[j]).0 != c,
            decreases self.entries@.len() - i,
        {
            if self.entries[i].0 == c {
                assert(self@[i as int].0 == c);
                proof {
                    assert forall|j: int| 0 <= j < self@.len() && (#[trigger] self@[j]).0 == c
                        implies j == i by {
                        if j > i {
                            assert(self@[i as int].0 != self@[j].0);
                        }
                    }
                }
                return Some(i);
            }
            i = i + 1;
        }
        None
    }

    /// The count of `c`, if it has been seen.
    pub fn get(&self, c: &char) -> (r: Option<&u32>)
        requires
            self.well_formed(),
        ensures
            r is Some <==> exists|i: int| 0 <= i < self@.len() && (#[trigger] self@[i]).0 == *c,
            forall|i: int|
                0 <= i < self@.len() && (#[trigger] self@[i]).0 == *c ==> r is Some && *r->Some_0
                    == self@[i].1,
    {
        match self.index_of(*c) {
            Some(i) => Some(&self.entries[i].1),
            None => None,
        }
    }
}

/// How often each character occurs over the words added, and how many UTF-8
/// bytes were added in all.
pub struct LetterFrequencies {
    pub occurrences: LetterCounts,
    pub total_occurrences: u32,
}

impl LetterFrequencies {
    /// Each letter has one entry, and no count exceeds the total.
    pub open spec fn well_formed(&self) -> bool {
        &&& self.occurrences.well_formed()
        &&& forall|i: int|
            0 <= i < self.occurrences@.len() ==> (#[trigger] self.occurrences@[i]).1
                <= self.total_occurrences
    }

    /// No letters counted.
    pub fn new() -> (r: LetterFrequencies)
        ensures
            r.occurrences@ == Seq::<(char, nat)>::empty(),
            r.total_occurrences == 0,
            r.well_formed(),
    {
        let r = LetterFrequencies { occurrences: LetterCounts { entries: Vec::new() }, total_occurrences: 0 };
        assert(r.occurrences@ =~= Seq::<(char, nat)>::empty());
        r
    }

    /// Counts one more occurrence of `c`; no count that was at most `bound`
    /// goes above `bound + 1`.
    fn add_letter(&mut self, c: char, Ghost(bound): Ghost<nat>)
        requires
            old(self).occurrences.well_formed(),
            bound < u32::MAX,
            forall|i: int|
                0 <= i < old(self).occurrences@.len() ==> (#[trigger] old(self).occurrences@[i]).1
                    <= bound,
        ensures
            final(self).occurrences@ == add_letter_to(old(self).occurrences@, c),
            final(self).total_occurrences == old(self).total_occurrences,
            final(self).occurrences.well_formed(),
            forall|i: int|
                0 <= i < final(self).occurrences@.len() ==> (#[trigger] final(self).occurrences@[i]).1
                    <= bound + 1,
    {
        let ghost e = self.occurrences@;
        match self.occurrences.index_of(c) {
            Some(i) => {
                let (k, v) = self.occurrences.entries[i];
                assert(v as nat == e[i as int].1);
                self.occurrences.entries.set(i, (c, v + 1));
                assert(self.occurrences@ =~= e.update(i as int, (c, e[i as int].1 + 1)));
            },
            None => {
                self.occurrences.entries.push((c, 1));
                assert(self.occurrences@ =~= e.push((c, 1)));
            },
        }
    }

    /// Counts every character of `word`; the total grows by the length of
    /// `word` in UTF-8 bytes.
    pub fn add_word_to_letter_frequencies(&mut self, word: String)
        requires
            old(self).well_formed(),
            old(self).total_occurrences + encode_utf8(word@).len() <= u32::MAX,
        ensures
            final(self).occurrences@ == add_word_to(old(self).occurrences@, word@),
            final(self).total_occurrences == old(self).total_occurrences + encode_utf8(
                word@,
            ).len(),
            final(self).well_formed(),
    {
        let ghost start = self.occurrences@;
        let ghost total = self.total_occurrences;
        proof {
            lemma_utf8_at_least_one_byte_each(word@);
        }
        let n = word.as_str().unicode_len();
        let mut i: usize = 0;
        while i < n
            invariant
                0 <= i <= n,
                n == word@.len(),
                total + encode_utf8(word@).len() <= u32::MAX,
                n <= encode_utf8(word@).len(),
                self.occurrences.well_formed(),
                self.total_occurrences == total,
                forall|j: int|
                    0 <= j < self.occurrences@.len() ==> (#[trigger] self.occurrences@[j]).1
                        <= total + i,
                self.occurrences@ == add_word_to(start, word@.take(i as int)),
            decreases n - i,
        {
            let c = word.as_str().get_char(i);
            self.add_letter(c, Ghost((total + i) as nat));
            proof {
                let t = word@.take(i + 1);
                assert(t.drop_last() =~= word@.take(i as int));
            }
            i = i + 1;
        }
        assert(word@.take(n as int) =~= word@);
        let bytes = word.as_str().len();
        self.total_occurrences = self.total_occurrences + bytes as u32;
    }

    /// Each counted letter as `letter: count;`, in the order first seen.
    pub fn to_string(&self) -> (r: String)
        ensures
            r@ == rendered(self.occurrences@),
    {
        let ghost e = self.occurrences@;
        let mut r = String::new();
        let mut i: usize = 0;
        while i < self.occurrences.entries.len()
            invariant
                0 <= i <= e.len(),
                e == self.occurrences@,
                e.len() == self.occurrences.entries@.len(),
                r@ == rendered(e.take(i as int)),
            decreases e.len() - i,
        {
            let (k, v) = self.occurrences.entries[i];
            push_char(&mut r, k);
            push_char(&mut r, ':');
            push_char(&mut r, ' ');
            push_decimal(&mut r, v);
            push_char(&mut r, ';');
            proof {
                let t = e.take(i + 1);
                assert(t.drop_last() =~= e.take(i as int));
                assert(t.last() == (k, v as nat));
                assert(r@ =~= rendered(t));
            }
            i = i + 1;
        }
        assert(e.take(e.len() as int) =~= e);
        r
    }
}

/// Appends the decimal digits of `n`.
fn push_decimal(s: &mut String, n: u32)
    ensures
        final(s)@ == old(s)@ + decimal(n as nat),
    decreases n,
{
    if n >= 10 {
        push_decimal(s, n / 10);
    }
    let d = ((n % 10) as u8 + 48) as char;
    push_char(s, d);
    assert(final(s)@ =~= old(s)@ + decimal(n as nat));
}

} // verus!
