//! Names and paths of tags: which of them name a component, and how a path
//! is written.

use vstd::prelude::*;
use vstd::string::StrSliceExecFns;
use vstd::string::StringExecFns;

verus! {

/// Whether a character has the Unicode property Uppercase: what
/// `char::is_uppercase` of std returns for it.
pub uninterp spec fn is_uppercase(c: char) -> bool;

/// Whether a character is an upper-case letter. Calls `char::is_uppercase`
/// of std; the contract gives its result a name and says nothing more.
#[verifier::external_body]
fn char_is_uppercase(c: char) -> (yes: bool)
    ensures
        yes == is_uppercase(c),
{
    c.is_uppercase()
}

/// Whether a name starts with an upper-case letter.
pub open spec fn starts_uppercase(name: Seq<char>) -> bool {
    name.len() > 0 && is_uppercase(name[0])
}

/// The segments of a path, in order.
pub open spec fn path_view(path: Seq<String>) -> Seq<Seq<char>> {
    Seq::new(path.len(), |i: int| path[i]@)
}

/// A path as it is written: its segments with `::` between them.
pub open spec fn path_text(path: Seq<Seq<char>>) -> Seq<char>
    decreases path.len(),
{
    if path.len() == 0 {
        Seq::empty()
    } else if path.len() == 1 {
        path[0]
    } else {
        path_text(path.drop_last()) + "::"@ + path.last()
    }
}

/// Whether a name is that of a component: whether its first character is an
/// upper-case letter.
pub fn is_pascal_case(name: &str) -> (yes: bool)
    ensures
        yes == starts_uppercase(name@),
{
    if name.unicode_len() == 0 {
        false
    } else {
        char_is_uppercase(name.get_char(0))
    }
}

/// Whether a path names a component: whether its last segment does.
pub fn is_path_pascal_case(path: &Vec<String>) -> (yes: bool)
    requires
        path.len() > 0,
    ensures
        yes == starts_uppercase(path_view(path@).last()),
{
    is_pascal_case(extract_ident_from_path(path).as_str())
}

/// The last segment of a path.
pub fn extract_ident_from_path(path: &Vec<String>) -> (last: &String)
    requires
        path.len() > 0,
    ensures
        last@ == path_view(path@).last(),
{
    &path[path.len() - 1]
}

/// A path as it is written: its segments with `::` between them.
pub fn path_to_string(path: &Vec<String>) -> (text: String)
    ensures
        text@ == path_text(path_view(path@)),
{
    let ghost view = path_view(path@);
    let mut text = String::new();
    let mut i: usize = 0;
    while i < path.len()
        invariant
            i <= path.len(),
            view == path_view(path@),
            text@ == path_text(view.take(i as int)),
        decreases path.len() - i,
    {
        proof {
            assert(view.take(i + 1).drop_last() =~= view.take(i as int));
            assert(view.take(i + 1).last() == path[i as int]@);
            assert(view.take(i + 1)[0] == view[0]);
        }
        if i > 0 {
            text.append("::");
        }
        text.append(path[i].as_str());
        proof {
            if i == 0 {
                assert(text@ =~= path[0]@);
            }
        }
        i += 1;
    }
    assert(view.take(path.len() as int) =~= view);
    text
}

} // verus!
