//! Looking for a word in a message.

use vstd::prelude::*;

verus! {

/// The lower case form of a text, in the sense of Unicode.
pub uninterp spec fn lowercase(text: Seq<char>) -> Seq<char>;

/// The lower case form of an ASCII character.
pub open spec fn ascii_lowercase(c: char) -> char {
    if 'A' <= c && c <= 'Z' {
        (c as u32 + 32) as char
    } else {
        c
    }
}

/// `str::to_lowercase` depends on its argument alone. An ASCII text keeps its length; its capital
/// letters become small letters and its other characters stay as they are.
pub assume_specification[ str::to_lowercase ](s: &str) -> (lower: String)
    ensures
        lower@ == lowercase(s@),
        (forall|i: int| 0 <= i < s@.len() ==> (#[trigger] s@[i] as u32) < 128) ==> lower@
            == Seq::new(s@.len(), |i: int| ascii_lowercase(s@[i])),
;

/// Whether the word stands at this position of the text.
pub open spec fn stands_at(text: Seq<char>, word: Seq<char>, at: int) -> bool {
    &&& 0 <= at <= text.len() - word.len()
    &&& text.subrange(at, at + word.len()) == word
}

/// Whether the word stands anywhere in the text.
pub open spec fn occurs_in(text: Seq<char>, word: Seq<char>) -> bool {
    exists|at: int| stands_at(text, word, at)
}

fn chars_of(text: &str) -> (chars: Vec<char>)
    ensures
        chars@ == text@,
{
    let mut chars: Vec<char> = Vec::new();
    for c in it: text.chars()
        invariant
            it.seq() == text@,
            chars@ == it.seq().take(it.index()),
    {
        chars.push(c);
    }
    chars
}

fn matches_at(text: &Vec<char>, word: &Vec<char>, at: usize) -> (found: bool)
    requires
        at <= text@.len() - word@.len(),
    ensures
        found == stands_at(text@, word@, at as int),
{
    let len: usize = text.len();
    let mut i: usize = 0;
    while i < word.len()
        invariant
            len == text@.len(),
            at <= text@.len() - word@.len(),
            i <= word@.len(),
            forall|j: int| 0 <= j < i ==> text@[at + j] == word@[j],
        decreases word@.len() - i,
    {
        if text[at + i] != word[i] {
            assert(text@.subrange(at as int, at + word@.len())[i as int] != word@[i as int]);
            return false;
        }
        i = i + 1;
    }
    assert(text@.subrange(at as int, at + word@.len()) =~= word@);
    true
}

/// Whether the word occurs in the text.
pub fn contains(text: &str, word: &str) -> (found: bool)
    ensures
        found == occurs_in(text@, word@),
{
    let text_chars = chars_of(text);
    let word_chars = chars_of(word);
    if text_chars.len() < word_chars.len() {
        return false;
    }
    let last: usize = text_chars.len() - word_chars.len();
    let mut at: usize = 0;
    loop
        invariant
            text_chars@ == text@,
            word_chars@ == word@,
            last == text@.len() - word@.len(),
            at <= last,
            forall|j: int| 0 <= j < at ==> !stands_at(text@, word@, j),
        decreases last - at,
    {
        if matches_at(&text_chars, &word_chars, at) {
            return true;
        }
        if at == last {
            return false;
        }
        at = at + 1;
    }
}

/// A word occurs in a text exactly when the text is something, followed by the word, followed by
/// something.
pub proof fn law_occurs_in(text: Seq<char>, word: Seq<char>)
    ensures
        occurs_in(text, word) <==> exists|before: Seq<char>, after: Seq<char>|
            text == #[trigger] (before + word + after),
{
    if occurs_in(text, word) {
        let at = choose|at: int| stands_at(text, word, at);
        assert(text =~= text.take(at) + word + text.skip(at + word.len()));
    }
    if exists|before: Seq<char>, after: Seq<char>| text == #[trigger] (before + word + after) {
        let (before, after) = choose|before: Seq<char>, after: Seq<char>|
            text == #[trigger] (before + word + after);
        let at = before.len() as int;
        assert(text.subrange(at, at + word.len()) =~= word);
        assert(stands_at(text, word, at));
    }
}

} // verus!
