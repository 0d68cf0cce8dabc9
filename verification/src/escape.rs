//! HTML-entity escaping of text and of attribute values.

use vstd::prelude::*;

verus! {

/// What one character becomes in text: `&`, `<` and `>` become their
/// entities, any other character stays.
pub open spec fn escaped_text_char(c: char) -> Seq<char> {
    if c == '&' {
        "&amp;"@
    } else if c == '<' {
        "&lt;"@
    } else if c == '>' {
        "&gt;"@
    } else {
        seq![c]
    }
}

/// What one character becomes in an attribute value: as in text, and `"`
/// becomes its entity too.
pub open spec fn escaped_attribute_char(c: char) -> Seq<char> {
    if c == '"' {
        "&quot;"@
    } else {
        escaped_text_char(c)
    }
}

/// Escaped text: what each character becomes, in order.
pub open spec fn escaped_text(text: Seq<char>) -> Seq<char>
    decreases text.len(),
{
    if text.len() == 0 {
        Seq::empty()
    } else {
        escaped_text(text.drop_last()) + escaped_text_char(text.last())
    }
}

/// An escaped attribute value: what each character becomes, in order.
pub open spec fn escaped_attribute(text: Seq<char>) -> Seq<char>
    decreases text.len(),
{
    if text.len() == 0 {
        Seq::empty()
    } else {
        escaped_attribute(text.drop_last()) + escaped_attribute_char(text.last())
    }
}

/// Escapes text for use between tags. Calls `htmlize::escape_text`, which
/// replaces each `&`, `<` and `>` by its entity and copies every other
/// character; the contract says exactly that and is not proved here.
#[verifier::external_body]
pub fn escape_text(text: &str) -> (escaped: String)
    ensures
        escaped@ == escaped_text(text@),
{
    htmlize::escape_text(text).into_owned()
}

/// Escapes text for use in a double-quoted attribute value. Calls
/// `htmlize::escape_attribute`, which replaces each `&`, `<`, `>` and `"`
/// by its entity and copies every other character; the contract says
/// exactly that and is not proved here.
#[verifier::external_body]
pub fn escape_attribute(text: &str) -> (escaped: String)
    ensures
        escaped@ == escaped_attribute(text@),
{
    htmlize::escape_attribute(text).into_owned()
}

} // verus!
