//! Small operations on strings that the rest of the library builds on.

use vstd::prelude::*;
use vstd::string::StrSliceExecFns;

verus! {

/// How many characters a text can have at most for the tokenizer to take
/// it: `proc_macro2` counts the characters of a text in 32 bits, and the
/// places in it start at 1.
pub const TEXT_LIMIT: usize = 0xFFFF_FFFE;

/// Whether the tokenizer can take a text: whether it has at most
/// `TEXT_LIMIT` characters.
pub(crate) fn fits(text: &str) -> (yes: bool)
    ensures
        yes == (text@.len() <= TEXT_LIMIT),
{
    text.unicode_len() <= TEXT_LIMIT
}

/// Whether two string slices hold the same characters. Calls `str::eq` of
/// std, of which the contract says that it compares character by character.
#[verifier::external_body]
pub(crate) fn str_eq(a: &str, b: &str) -> (same: bool)
    ensures
        same == (a@ == b@),
{
    a == b
}

/// Adds one character at the end of a string. Calls `String::push` of std.
#[verifier::external_body]
pub(crate) fn push_char(text: &mut String, c: char)
    ensures
        final(text)@ == old(text)@.push(c),
{
    text.push(c)
}

/// The characters of a string slice, in order.
pub(crate) fn chars_of(text: &str) -> (chars: Vec<char>)
    ensures
        chars@ == text@,
{
    broadcast use vstd::string::group_string_axioms;

    let mut chars: Vec<char> = Vec::new();
    let mut rest = text.chars();
    loop
        invariant
            vstd::std_specs::iter::IteratorSpec::obeys_prophetic_iter_laws(&rest),
            vstd::std_specs::iter::IteratorSpec::decrease(&rest) is Some,
            chars@ + vstd::std_specs::iter::IteratorSpec::remaining(&rest) == text@,
        decreases vstd::std_specs::iter::IteratorSpec::decrease(&rest)->0,
    {
        match rest.next() {
            Some(c) => {
                chars.push(c);
                assert(chars@ + vstd::std_specs::iter::IteratorSpec::remaining(&rest) =~= text@);
            },
            None => {
                assert(chars@ =~= text@);
                return chars;
            },
        }
    }
}

/// The place of the first `c` in `text`, if there is one.
pub open spec fn first_index_of(text: Seq<char>, c: char) -> Option<int>
    decreases text.len(),
{
    if text.len() == 0 {
        None
    } else if text.first() == c {
        Some(0)
    } else {
        match first_index_of(text.skip(1), c) {
            Some(i) => Some(i + 1),
            None => None,
        }
    }
}

/// `first_index_of` finds the first place of `c`, and finds none only where
/// `c` does not occur.
pub proof fn lemma_first_index_of(text: Seq<char>, c: char)
    ensures
        match first_index_of(text, c) {
            Some(i) => 0 <= i < text.len() && text[i] == c && forall|j: int|
                0 <= j < i ==> text[j] != c,
            None => forall|j: int| 0 <= j < text.len() ==> text[j] != c,
        },
    decreases text.len(),
{
    if text.len() > 0 && text.first() != c {
        lemma_first_index_of(text.skip(1), c);
        match first_index_of(text.skip(1), c) {
            Some(i) => {
                assert forall|j: int| 0 <= j < i + 1 implies text[j] != c by {
                    if j > 0 {
                        assert(text[j] == text.skip(1)[j - 1]);
                    }
                }
            },
            None => {
                assert forall|j: int| 0 <= j < text.len() implies text[j] != c by {
                    if j > 0 {
                        assert(text[j] == text.skip(1)[j - 1]);
                    }
                }
            },
        }
    }
}

/// The place of the first `c` at or after `from`, if there is one.
pub(crate) fn find_char(chars: &Vec<char>, from: usize, c: char) -> (found: Option<usize>)
    requires
        from <= chars.len(),
    ensures
        match found {
            Some(at) => from <= at < chars.len() && first_index_of(chars@.skip(from as int), c)
                == Some(at - from),
            None => first_index_of(chars@.skip(from as int), c) is None,
        },
{
    let ghost rest = chars@.skip(from as int);
    let mut at: usize = from;
    while at < chars.len()
        invariant
            from <= at <= chars.len(),
            rest == chars@.skip(from as int),
            forall|j: int| 0 <= j < at - from ==> rest[j] != c,
        decreases chars.len() - at,
    {
        if chars[at] == c {
            proof {
                lemma_first_index_of(rest, c);
                assert(rest[at - from] == c);
            }
            return Some(at);
        }
        at += 1;
    }
    proof {
        lemma_first_index_of(rest, c);
    }
    None
}

/// The string of the characters from `from` up to, not including, `to`.
pub(crate) fn substring(chars: &Vec<char>, from: usize, to: usize) -> (text: String)
    requires
        from <= to <= chars.len(),
    ensures
        text@ == chars@.subrange(from as int, to as int),
{
    let mut text = String::new();
    let mut i: usize = from;
    while i < to
        invariant
            from <= i <= to <= chars.len(),
            text@ == chars@.subrange(from as int, i as int),
        decreases to - i,
    {
        push_char(&mut text, chars[i]);
        assert(chars@.subrange(from as int, i + 1) =~= chars@.subrange(from as int, i as int).push(
            chars[i as int],
        ));
        i += 1;
    }
    text
}

/// Whether a character is white space between tokens.
pub open spec fn is_space(c: char) -> bool {
    c == ' ' || c == '\t' || c == '\n' || c == '\r' || c == '\u{b}' || c == '\u{c}' || c
        == '\u{85}' || c == '\u{200e}' || c == '\u{200f}' || c == '\u{2028}' || c == '\u{2029}'
}

/// `text` without the white space at its end.
pub open spec fn trimmed_end(text: Seq<char>) -> Seq<char>
    decreases text.len(),
{
    if text.len() > 0 && is_space(text.last()) {
        trimmed_end(text.drop_last())
    } else {
        text
    }
}

/// `text` without the white space at its start and at its end.
pub open spec fn trimmed(text: Seq<char>) -> Seq<char>
    decreases text.len(),
{
    if text.len() > 0 && is_space(text.first()) {
        trimmed(text.skip(1))
    } else {
        trimmed_end(text)
    }
}

/// The characters of `text` from `from` up to, not including, `to`, where
/// a place outside the text counts as its nearer end.
pub open spec fn clamped(text: Seq<char>, from: int, to: int) -> Seq<char> {
    let low = if from < 0 {
        0
    } else if from > text.len() {
        text.len() as int
    } else {
        from
    };
    let high = if to < low {
        low
    } else if to > text.len() {
        text.len() as int
    } else {
        to
    };
    text.subrange(low, high)
}

/// Whether a character is white space between tokens.
pub(crate) fn is_space_char(c: char) -> (yes: bool)
    ensures
        yes == is_space(c),
{
    c == ' ' || c == '\t' || c == '\n' || c == '\r' || c == '\u{b}' || c == '\u{c}' || c
        == '\u{85}' || c == '\u{200e}' || c == '\u{200f}' || c == '\u{2028}' || c == '\u{2029}'
}

/// The characters from `from` up to, not including, `to`, without the
/// white space at the start and at the end; a place outside the text counts
/// as its nearer end.
pub(crate) fn trimmed_slice(chars: &Vec<char>, from: usize, to: usize) -> (text: String)
    ensures
        text@ == trimmed(clamped(chars@, from as int, to as int)),
{
    let mut low = if from > chars.len() {
        chars.len()
    } else {
        from
    };
    let mut high = if to < low {
        low
    } else if to > chars.len() {
        chars.len()
    } else {
        to
    };
    let ghost whole = chars@.subrange(low as int, high as int);
    while low < high && is_space_char(chars[low])
        invariant
            low <= high <= chars.len(),
            trimmed(whole) == trimmed(chars@.subrange(low as int, high as int)),
        decreases high - low,
    {
        assert(chars@.subrange(low as int, high as int).skip(1) =~= chars@.subrange(
            low + 1,
            high as int,
        ));
        low += 1;
    }
    while low < high && is_space_char(chars[high - 1])
        invariant
            low <= high <= chars.len(),
            low < high ==> !is_space(chars[low as int]),
            trimmed(whole) == trimmed_end(chars@.subrange(low as int, high as int)),
        decreases high - low,
    {
        assert(chars@.subrange(low as int, high as int).drop_last() =~= chars@.subrange(
            low as int,
            high - 1,
        ));
        high -= 1;
    }
    substring(chars, low, high)
}

} // verus!
