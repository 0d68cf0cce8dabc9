//! The grammar of templates: from tokens to nodes.
//!
//! Every rule is a function of the tokens and a place among them. It gives
//! what it has read together with the place after it, or the error that
//! ends the parse.
//!
//! A rule that reads something ends after the place where it starts, and
//! within the tokens (`lemma_node_advances` and the lemmas beside it). The
//! rules that repeat another rule go on only where that holds, which is what
//! makes them come to an end; it always does hold.

use vstd::prelude::*;
use vstd::string::StrSliceExecFns;
use vstd::string::StringExecFns;
use crate::attributes::{
    AttrName, AttrNameView, AttrValue, AttrValueView, Attribute, AttributeView, ForExpr,
    ForExprView, InterpolatedSegment, InterpolatedSegmentView, RegularAttribute,
    RegularAttributeView,
};
use crate::error::{ParseError, ParseErrorView};
use crate::nodes::{Component, ComponentView, Node, NodeCollection, NodeView, Tag, TagView};
use crate::text::{chars_of, find_char, push_char, str_eq, substring, trimmed_slice};
use crate::tokens::{Delimiter, Token, TokenKind, TokenKindView, TokenView};
use crate::utils::{is_pascal_case, path_to_string};

verus! {

/// Whether `text` is a word written in any mix of upper and lower case,
/// where `lower` and `upper` are the word in lower and in upper case.
pub open spec fn is_word_in_any_case(text: Seq<char>, lower: Seq<char>, upper: Seq<char>) -> bool {
    &&& text.len() == lower.len()
    &&& text.len() == upper.len()
    &&& forall|i: int| 0 <= i < text.len() ==> text[i] == lower[i] || text[i] == upper[i]
}

/// The text between the brackets of a group with the source text `text`.
pub open spec fn inner_text(text: Seq<char>) -> Seq<char> {
    if text.len() >= 2 {
        text.subrange(1, text.len() - 1)
    } else {
        Seq::empty()
    }
}

/// The source of the expression that a brace group holds: the text between
/// the braces, without white space around it.
pub open spec fn group_expression(token: TokenView) -> Seq<char> {
    crate::text::trimmed(inner_text(token.text))
}

/// The segments of the path that follows its first segment, from `at` on,
/// and the place after the path: as long as `::` and an identifier follow,
/// the identifier is one more segment.
pub open spec fn path_tail(tokens: Seq<TokenView>, at: int) -> (Seq<Seq<char>>, int)
    decreases tokens.len() - at,
{
    if crate::tokens::is_punct(tokens, at, ':') && crate::tokens::is_punct(tokens, at + 1, ':')
        && crate::tokens::is_ident(tokens, at + 2) {
        let rest = path_tail(tokens, at + 3);
        (seq![tokens[at + 2].text] + rest.0, rest.1)
    } else {
        (Seq::empty(), at)
    }
}

/// The path at `at`, if an identifier stands there, and the place after
/// it.
pub open spec fn parsed_path(tokens: Seq<TokenView>, at: int) -> Option<(Seq<Seq<char>>, int)> {
    if crate::tokens::is_ident(tokens, at) {
        let rest = path_tail(tokens, at + 1);
        Some((seq![tokens[at].text] + rest.0, rest.1))
    } else {
        None
    }
}

/// Whether the token at `at` can be part of an attribute name as a word:
/// an identifier or keyword other than `_`.
pub open spec fn is_name_word(tokens: Seq<TokenView>, at: int) -> bool {
    crate::tokens::is_ident(tokens, at) && tokens[at].text != "_"@
}

/// The rest of a written attribute name from `at` on, and the place after
/// it. Words, hyphens and colons are joined as they come, whatever space
/// lies between them; a word that follows a word is not part of the name.
pub open spec fn name_run(tokens: Seq<TokenView>, at: int, after_word: bool) -> (Seq<char>, int)
    decreases tokens.len() - at,
{
    if is_name_word(tokens, at) {
        if after_word {
            (Seq::empty(), at)
        } else {
            let rest = name_run(tokens, at + 1, true);
            (tokens[at].text + rest.0, rest.1)
        }
    } else if crate::tokens::is_punct(tokens, at, '-') {
        let rest = name_run(tokens, at + 1, false);
        (seq!['-'] + rest.0, rest.1)
    } else if crate::tokens::is_punct(tokens, at, ':') {
        let rest = name_run(tokens, at + 1, false);
        (seq![':'] + rest.0, rest.1)
    } else {
        (Seq::empty(), at)
    }
}

/// The attribute name at `at`: the expression of a brace group, or a
/// written name, which must not be empty.
pub open spec fn parsed_attr_name(tokens: Seq<TokenView>, at: int) -> Result<
    (AttrNameView, int),
    ParseErrorView,
> {
    if crate::tokens::is_brace_group(tokens, at) {
        if group_expression(tokens[at]).len() == 0 {
            Err(ParseErrorView::EmptyExpression)
        } else {
            Ok((AttrNameView::Expression(group_expression(tokens[at])), at + 1))
        }
    } else {
        let run = name_run(tokens, at, false);
        if run.0.len() == 0 {
            Err(ParseErrorView::InvalidAttributeName)
        } else {
            Ok((AttrNameView::Literal(run.0), run.1))
        }
    }
}

/// Whether a string holds a `{` with a `}` somewhere after it.
pub open spec fn has_brace_pair(text: Seq<char>) -> bool {
    match crate::text::first_index_of(text, '{') {
        Some(open) => crate::text::first_index_of(text.skip(open + 1), '}') is Some,
        None => false,
    }
}

/// The segments of a string with expressions in it, from left to right:
/// the text between a `{` and the next `}` is an expression, the text
/// outside is literal. A `{` that no `}` follows is an error.
pub open spec fn segments_of(text: Seq<char>) -> Result<
    Seq<InterpolatedSegmentView>,
    ParseErrorView,
>
    decreases text.len(),
{
    match crate::text::first_index_of(text, '{') {
        None => if text.len() > 0 {
            Ok(seq![InterpolatedSegmentView::Str(text)])
        } else {
            Ok(Seq::empty())
        },
        Some(open) => {
            proof {
                crate::text::lemma_first_index_of(text, '{');
                crate::text::lemma_first_index_of(text.skip(open + 1), '}');
            }
            match crate::text::first_index_of(text.skip(open + 1), '}') {
                None => Err(ParseErrorView::UnterminatedInterpolation),
                Some(close) => {
                    let head = if open > 0 {
                        seq![InterpolatedSegmentView::Str(text.take(open))]
                    } else {
                        Seq::empty()
                    };
                    let expression = InterpolatedSegmentView::Expr(
                        text.subrange(open + 1, open + 1 + close),
                    );
                    match segments_of(text.skip(open + close + 2)) {
                        Err(error) => Err(error),
                        Ok(rest) => Ok(head + seq![expression] + rest),
                    }
                },
            }
        },
    }
}

/// The attribute value at `at`: the expression of a brace group, or a
/// string, which is interpolated where it holds a `{` with a `}` after it.
pub open spec fn parsed_attr_value(tokens: Seq<TokenView>, at: int) -> Result<
    (AttrValueView, int),
    ParseErrorView,
> {
    if crate::tokens::is_brace_group(tokens, at) {
        if group_expression(tokens[at]).len() == 0 {
            Err(ParseErrorView::EmptyExpression)
        } else {
            Ok((AttrValueView::Expression(group_expression(tokens[at])), at + 1))
        }
    } else if crate::tokens::is_str(tokens, at) {
        let value = tokens[at].kind->Str_0;
        if has_brace_pair(value) {
            match segments_of(value) {
                Err(error) => Err(error),
                Ok(segments) => Ok((AttrValueView::Interpolated(segments), at + 1)),
            }
        } else {
            Ok((AttrValueView::Literal(value), at + 1))
        }
    } else {
        Err(ParseErrorView::InvalidAttributeValue)
    }
}

/// The place of the first token from `from` on that is the word `word`.
pub open spec fn first_word(tokens: Seq<TokenView>, word: Seq<char>, from: int) -> Option<int>
    decreases tokens.len() - from,
{
    if from < 0 || from >= tokens.len() {
        None
    } else if crate::tokens::is_word(tokens, from, word) {
        Some(from)
    } else {
        first_word(tokens, word, from + 1)
    }
}

/// The pattern and the collection that the brace group of a `:for` holds:
/// the text before and the text after the first `in` among the tokens of
/// the group, each without white space around it and neither empty.
pub open spec fn parsed_for(token: TokenView) -> Result<ForExprView, ParseErrorView> {
    match first_word(token.kind->Group_1, "in"@, 0) {
        None => Err(ParseErrorView::MalformedForPattern),
        Some(k) => {
            let body = inner_text(token.text);
            let word = token.kind->Group_1[k];
            let pat = crate::text::trimmed(crate::text::clamped(body, 0, word.start as int));
            let collection = crate::text::trimmed(
                crate::text::clamped(body, word.end as int, body.len() as int),
            );
            if pat.len() == 0 || collection.len() == 0 {
                Err(ParseErrorView::MalformedForPattern)
            } else {
                Ok(ForExprView { pat, collection })
            }
        },
    }
}

/// The attribute at `at`: a `:for`, an `:if`, or a name with or without a
/// value.
pub open spec fn parsed_attribute(tokens: Seq<TokenView>, at: int) -> Result<
    (AttributeView, int),
    ParseErrorView,
> {
    if crate::tokens::is_punct(tokens, at, ':') && crate::tokens::is_word(tokens, at + 1, "for"@) {
        if crate::tokens::is_punct(tokens, at + 2, '=') && crate::tokens::is_brace_group(
            tokens,
            at + 3,
        ) {
            match parsed_for(tokens[at + 3]) {
                Err(error) => Err(error),
                Ok(for_expr) => Ok((AttributeView::For(for_expr), at + 4)),
            }
        } else {
            Err(ParseErrorView::MalformedForPattern)
        }
    } else if crate::tokens::is_punct(tokens, at, ':') && crate::tokens::is_word(
        tokens,
        at + 1,
        "if"@,
    ) {
        if crate::tokens::is_punct(tokens, at + 2, '=') && crate::tokens::is_brace_group(
            tokens,
            at + 3,
        ) && group_expression(tokens[at + 3]).len() > 0 {
            Ok((AttributeView::If(group_expression(tokens[at + 3])), at + 4))
        } else {
            Err(ParseErrorView::MalformedIf)
        }
    } else {
        match parsed_attr_name(tokens, at) {
            Err(error) => Err(error),
            Ok((name, after_name)) => if crate::tokens::is_punct(tokens, after_name, '=') {
                match parsed_attr_value(tokens, after_name + 1) {
                    Err(error) => Err(error),
                    Ok((value, after_value)) => Ok(
                        (
                            AttributeView::RegularAttribute(
                                RegularAttributeView { name, value: Some(value) },
                            ),
                            after_value,
                        ),
                    ),
                }
            } else {
                Ok(
                    (
                        AttributeView::RegularAttribute(RegularAttributeView { name, value: None }),
                        after_name,
                    ),
                )
            },
        }
    }
}

/// Whether the tag ends at `at`: with `>`, or with `/` and `>`.
pub open spec fn is_tag_end(tokens: Seq<TokenView>, at: int) -> bool {
    crate::tokens::is_punct(tokens, at, '>') || (crate::tokens::is_punct(tokens, at, '/')
        && crate::tokens::is_punct(tokens, at + 1, '>'))
}

/// `first`, then what `rest` holds, with the place of `rest`; or the error
/// of `rest`.
pub open spec fn and_then<T>(first: Seq<T>, rest: Result<(Seq<T>, int), ParseErrorView>) -> Result<
    (Seq<T>, int),
    ParseErrorView,
> {
    match rest {
        Ok((more, at)) => Ok((first + more, at)),
        Err(error) => Err(error),
    }
}

/// The attributes from `at` up to the end of the tag, and the place of
/// that end.
pub open spec fn parsed_attributes(tokens: Seq<TokenView>, at: int) -> Result<
    (Seq<AttributeView>, int),
    ParseErrorView,
>
    decreases tokens.len() - at,
{
    if is_tag_end(tokens, at) {
        Ok((Seq::empty(), at))
    } else {
        match parsed_attribute(tokens, at) {
            Err(error) => Err(error),
            Ok((attribute, next)) => if at < next <= tokens.len() {
                and_then(seq![attribute], parsed_attributes(tokens, next))
            } else {
                Err(ParseErrorView::InvalidAttributeName)
            },
        }
    }
}

/// Whether no space is written before the token: whether it is one of the
/// punctuation characters `, . ! ? ; : ) ] }` and `"`.
pub open spec fn no_space_before(token: TokenView) -> bool {
    token.kind matches TokenKindView::Punct(c) && (c == ',' || c == '.' || c == '!' || c == '?'
        || c == ';' || c == ':' || c == ')' || c == ']' || c == '}' || c == '"')
}

/// Whether text stops at `at`: at the end of the tokens, at the closing
/// tag of `path`, and where a child starts.
pub open spec fn text_stops(tokens: Seq<TokenView>, at: int, path: Seq<Seq<char>>) -> bool {
    ||| at >= tokens.len()
    ||| (crate::tokens::is_punct(tokens, at, '<') && crate::tokens::is_punct(tokens, at + 1, '/')
        && parsed_path(tokens, at + 2) is Some && parsed_path(tokens, at + 2)->Some_0.0 == path)
    ||| child_starts(tokens, at)
}

/// What is written between the token at `previous` and the token at `at`
/// that follows it in text: one space where both stand on one line and a
/// space can stand before the second, nothing otherwise.
pub open spec fn gap(tokens: Seq<TokenView>, previous: Option<int>, at: int) -> Seq<char> {
    match previous {
        Some(before) => if 0 <= before < tokens.len() && tokens[before].last_line
            == tokens[at].first_line && !no_space_before(tokens[at]) {
            seq![' ']
        } else {
            Seq::empty()
        },
        None => Seq::empty(),
    }
}

/// Text written without quotes inside the tag `path`, from `at` on, and
/// the place where it stops: the source text of each token, with the gaps
/// between them.
pub open spec fn bare_text(
    tokens: Seq<TokenView>,
    at: int,
    path: Seq<Seq<char>>,
    previous: Option<int>,
) -> (Seq<char>, int)
    decreases tokens.len() - at,
{
    if at < 0 || text_stops(tokens, at, path) {
        (Seq::empty(), at)
    } else {
        let rest = bare_text(tokens, at + 1, path, Some(at));
        (gap(tokens, previous, at) + tokens[at].text + rest.0, rest.1)
    }
}

/// Whether the braces of a text literal pair up, from `rest` on: a doubled
/// brace aside, every `{` is followed by a `}` and no `}` stands alone.
pub open spec fn braces_pair_up(rest: Seq<char>) -> bool
    decreases rest.len(),
{
    if rest.len() == 0 {
        true
    } else if rest[0] == '{' {
        if rest.len() > 1 && rest[1] == '{' {
            braces_pair_up(rest.skip(2))
        } else {
            proof {
                crate::text::lemma_first_index_of(rest.skip(1), '}');
            }
            match crate::text::first_index_of(rest.skip(1), '}') {
                None => false,
                Some(close) => braces_pair_up(rest.skip(close + 2)),
            }
        }
    } else if rest[0] == '}' {
        rest.len() > 1 && rest[1] == '}' && braces_pair_up(rest.skip(2))
    } else {
        braces_pair_up(rest.skip(1))
    }
}

/// Whether a child starts at `at`: a tag, a string or a brace group.
pub open spec fn child_starts(tokens: Seq<TokenView>, at: int) -> bool {
    ||| (crate::tokens::is_punct(tokens, at, '<') && crate::tokens::is_ident(tokens, at + 1))
    ||| crate::tokens::is_str(tokens, at)
    ||| crate::tokens::is_brace_group(tokens, at)
}

/// The node that a tag with the given path, attributes and children is: a
/// component call where the last segment of the path starts with an
/// upper-case letter, else an element of that last segment's name.
pub open spec fn tag_node(
    path: Seq<Seq<char>>,
    attributes: Seq<AttributeView>,
    children: Seq<NodeView>,
    self_closing: bool,
) -> NodeView {
    if crate::utils::starts_uppercase(path.last()) {
        NodeView::Component(
            ComponentView { name: crate::utils::path_text(path), props: attributes, children },
        )
    } else {
        NodeView::Element(
            TagView { tag_name: path.last(), attributes, children, self_closing },
        )
    }
}

/// The node that the brace group `token` is: the expression between
/// doubled braces is not escaped, the expression between single braces is.
pub open spec fn expression_node(token: TokenView) -> Result<NodeView, ParseErrorView> {
    let inner = token.kind->Group_1;
    if crate::tokens::is_brace_group(inner, 0) {
        if inner.len() != 1 {
            Err(ParseErrorView::UnexpectedToken)
        } else if group_expression(inner[0]).len() == 0 {
            Err(ParseErrorView::EmptyExpression)
        } else {
            Ok(NodeView::UnescapedExpression(group_expression(inner[0])))
        }
    } else if group_expression(token).len() == 0 {
        Err(ParseErrorView::EmptyExpression)
    } else {
        Ok(NodeView::Expression(group_expression(token)))
    }
}

/// Whether `<!doctype html>` stands at `at`, in any mix of upper and lower
/// case.
pub open spec fn is_doctype(tokens: Seq<TokenView>, at: int) -> bool {
    &&& crate::tokens::is_punct(tokens, at, '<')
    &&& crate::tokens::is_punct(tokens, at + 1, '!')
    &&& crate::tokens::is_ident(tokens, at + 2)
    &&& is_word_in_any_case(tokens[at + 2].text, "doctype"@, "DOCTYPE"@)
    &&& crate::tokens::is_ident(tokens, at + 3)
    &&& is_word_in_any_case(tokens[at + 3].text, "html"@, "HTML"@)
    &&& crate::tokens::is_punct(tokens, at + 4, '>')
}

/// What follows the children of the tag `path` that was opened with the
/// given attributes: its closing tag, which makes the node complete.
pub open spec fn closed_tag(
    tokens: Seq<TokenView>,
    at: int,
    path: Seq<Seq<char>>,
    attributes: Seq<AttributeView>,
    children: Seq<NodeView>,
) -> Result<(NodeView, int), ParseErrorView> {
    if crate::tokens::is_punct(tokens, at, '<') && crate::tokens::is_punct(tokens, at + 1, '/')
        && crate::tokens::is_ident(tokens, at + 2) {
        let (closing, after) = parsed_path(tokens, at + 2)->Some_0;
        if closing != path {
            Err(
                ParseErrorView::MismatchedClosingTag {
                    expected: crate::utils::path_text(path),
                    found: crate::utils::path_text(closing),
                },
            )
        } else if crate::tokens::is_punct(tokens, after, '>') {
            Ok((tag_node(path, attributes, children, false), after + 1))
        } else {
            Err(ParseErrorView::UnexpectedToken)
        }
    } else {
        Err(ParseErrorView::UnclosedTag { tag: crate::utils::path_text(path) })
    }
}

/// The node at `at` and the place after it.
pub open spec fn parsed_node(tokens: Seq<TokenView>, at: int) -> Result<
    (NodeView, int),
    ParseErrorView,
>
    decreases tokens.len() - at, 0nat,
{
    if crate::tokens::is_punct(tokens, at, '<') && crate::tokens::is_punct(tokens, at + 1, '!') {
        if is_doctype(tokens, at) {
            Ok((NodeView::DocType, at + 5))
        } else {
            Err(ParseErrorView::InvalidDoctype)
        }
    } else if crate::tokens::is_punct(tokens, at, '<') {
        match parsed_path(tokens, at + 1) {
            None => Err(ParseErrorView::UnexpectedToken),
            Some((path, after_path)) => match parsed_attributes(tokens, after_path) {
                Err(error) => Err(error),
                Ok((attributes, end)) => if crate::tokens::is_punct(tokens, end, '/') {
                    Ok((tag_node(path, attributes, Seq::empty(), true), end + 2))
                } else if at < end < tokens.len() {
                    match parsed_children(tokens, end + 1, path) {
                        Err(error) => Err(error),
                        Ok((children, after)) => closed_tag(
                            tokens,
                            after,
                            path,
                            attributes,
                            children,
                        ),
                    }
                } else {
                    Err(ParseErrorView::UnexpectedToken)
                },
            },
        }
    } else if crate::tokens::is_str(tokens, at) {
        if braces_pair_up(tokens[at].kind->Str_0) {
            Ok((NodeView::Text(tokens[at].kind->Str_0), at + 1))
        } else {
            Err(ParseErrorView::UnterminatedInterpolation)
        }
    } else if crate::tokens::is_brace_group(tokens, at) {
        match expression_node(tokens[at]) {
            Err(error) => Err(error),
            Ok(node) => Ok((node, at + 1)),
        }
    } else {
        Err(ParseErrorView::UnexpectedToken)
    }
}

/// The children of the tag `path` from `at` on, and the place where they
/// end: at the end of the tokens, at `</`, or where neither a child nor
/// text starts.
pub open spec fn parsed_children(tokens: Seq<TokenView>, at: int, path: Seq<Seq<char>>) -> Result<
    (Seq<NodeView>, int),
    ParseErrorView,
>
    decreases tokens.len() - at, 1nat,
{
    if at < 0 || at >= tokens.len() {
        Ok((Seq::empty(), at))
    } else if crate::tokens::is_punct(tokens, at, '<') && crate::tokens::is_punct(
        tokens,
        at + 1,
        '/',
    ) {
        Ok((Seq::empty(), at))
    } else if child_starts(tokens, at) {
        match parsed_node(tokens, at) {
            Err(error) => Err(error),
            Ok((child, next)) => if at < next <= tokens.len() {
                and_then(seq![child], parsed_children(tokens, next, path))
            } else {
                Err(ParseErrorView::UnexpectedToken)
            },
        }
    } else {
        let (text, next) = bare_text(tokens, at, path, None);
        if text.len() > 0 && at < next <= tokens.len() {
            and_then(seq![NodeView::BareText(text)], parsed_children(tokens, next, path))
        } else {
            Ok((Seq::empty(), next))
        }
    }
}

/// The nodes from `at` up to the end of the tokens.
pub open spec fn parsed_nodes(tokens: Seq<TokenView>, at: int) -> Result<
    Seq<NodeView>,
    ParseErrorView,
>
    decreases tokens.len() - at,
{
    if at < 0 || at >= tokens.len() {
        Ok(Seq::empty())
    } else {
        match parsed_node(tokens, at) {
            Err(error) => Err(error),
            Ok((node, next)) => if at < next <= tokens.len() {
                match parsed_nodes(tokens, next) {
                    Err(error) => Err(error),
                    Ok(rest) => Ok(seq![node] + rest),
                }
            } else {
                Err(ParseErrorView::UnexpectedToken)
            },
        }
    }
}

/// A path tail ends within the tokens, at or after where it starts.
pub proof fn lemma_path_tail_ends(tokens: Seq<TokenView>, at: int)
    requires
        0 <= at <= tokens.len(),
    ensures
        at <= path_tail(tokens, at).1 <= tokens.len(),
    decreases tokens.len() - at,
{
    if crate::tokens::is_punct(tokens, at, ':') && crate::tokens::is_punct(tokens, at + 1, ':')
        && crate::tokens::is_ident(tokens, at + 2) {
        lemma_path_tail_ends(tokens, at + 3);
    }
}

/// A written name ends within the tokens, and after where it starts
/// unless it is empty.
pub proof fn lemma_name_run_ends(tokens: Seq<TokenView>, at: int, after_word: bool)
    requires
        0 <= at <= tokens.len(),
    ensures
        at <= name_run(tokens, at, after_word).1 <= tokens.len(),
        name_run(tokens, at, after_word).0.len() > 0 ==> at < name_run(tokens, at, after_word).1,
    decreases tokens.len() - at,
{
    if is_name_word(tokens, at) {
        if !after_word {
            lemma_name_run_ends(tokens, at + 1, true);
        }
    } else if crate::tokens::is_punct(tokens, at, '-') {
        lemma_name_run_ends(tokens, at + 1, false);
    } else if crate::tokens::is_punct(tokens, at, ':') {
        lemma_name_run_ends(tokens, at + 1, false);
    }
}

/// An attribute that is read ends within the tokens, after where it
/// starts.
pub proof fn lemma_attribute_advances(tokens: Seq<TokenView>, at: int)
    requires
        0 <= at <= tokens.len(),
    ensures
        parsed_attribute(tokens, at) matches Ok((_, next)) ==> at < next <= tokens.len(),
{
    lemma_name_run_ends(tokens, at, false);
}

/// The attributes that are read end at the end of the tag, within the
/// tokens.
pub proof fn lemma_attributes_end(tokens: Seq<TokenView>, at: int)
    requires
        0 <= at <= tokens.len(),
    ensures
        parsed_attributes(tokens, at) matches Ok((_, end)) ==> at <= end < tokens.len()
            && is_tag_end(tokens, end),
    decreases tokens.len() - at,
{
    if !is_tag_end(tokens, at) {
        lemma_attribute_advances(tokens, at);
        match parsed_attribute(tokens, at) {
            Ok((_, next)) => {
                lemma_attributes_end(tokens, next);
            },
            Err(_) => {},
        }
    }
}

/// Text ends within the tokens, at or after where it starts.
pub proof fn lemma_bare_text_ends(
    tokens: Seq<TokenView>,
    at: int,
    path: Seq<Seq<char>>,
    previous: Option<int>,
)
    requires
        0 <= at <= tokens.len(),
    ensures
        at <= bare_text(tokens, at, path, previous).1 <= tokens.len(),
    decreases tokens.len() - at,
{
    if !text_stops(tokens, at, path) {
        lemma_bare_text_ends(tokens, at + 1, path, Some(at));
    }
}

/// A node that is read ends within the tokens, after where it starts: no
/// rule reads a node out of nothing, and none reads past the end.
pub proof fn lemma_node_advances(tokens: Seq<TokenView>, at: int)
    requires
        0 <= at <= tokens.len(),
    ensures
        parsed_node(tokens, at) matches Ok((_, next)) ==> at < next <= tokens.len(),
    decreases tokens.len() - at, 0nat,
{
    if crate::tokens::is_punct(tokens, at, '<') && !crate::tokens::is_punct(tokens, at + 1, '!') {
        match parsed_path(tokens, at + 1) {
            None => {},
            Some((path, after_path)) => {
                lemma_path_tail_ends(tokens, at + 2);
                lemma_attributes_end(tokens, after_path);
                match parsed_attributes(tokens, after_path) {
                    Err(_) => {},
                    Ok((attributes, end)) => {
                        if !crate::tokens::is_punct(tokens, end, '/') {
                            lemma_children_end(tokens, end + 1, path);
                            match parsed_children(tokens, end + 1, path) {
                                Err(_) => {},
                                Ok((children, after)) => {
                                    if crate::tokens::is_ident(tokens, after + 2) {
                                        lemma_path_tail_ends(tokens, after + 3);
                                    }
                                },
                            }
                        }
                    },
                }
            },
        }
    }
}

/// The children that are read end within the tokens, at or after where
/// they start.
pub proof fn lemma_children_end(tokens: Seq<TokenView>, at: int, path: Seq<Seq<char>>)
    requires
        0 <= at <= tokens.len(),
    ensures
        parsed_children(tokens, at, path) matches Ok((_, next)) ==> at <= next <= tokens.len(),
    decreases tokens.len() - at, 1nat,
{
    if at < tokens.len() && !(crate::tokens::is_punct(tokens, at, '<') && crate::tokens::is_punct(
        tokens,
        at + 1,
        '/',
    )) {
        if child_starts(tokens, at) {
            lemma_node_advances(tokens, at);
            match parsed_node(tokens, at) {
                Err(_) => {},
                Ok((_, next)) => {
                    lemma_children_end(tokens, next, path);
                },
            }
        } else {
            lemma_bare_text_ends(tokens, at, path, None);
            let (text, next) = bare_text(tokens, at, path, None);
            if text.len() > 0 && at < next {
                lemma_children_end(tokens, next, path);
            }
        }
    }
}

/// Whether no element in the node, at any depth, has a name that starts
/// with an upper-case letter.
pub open spec fn elements_are_lower_case(node: NodeView) -> bool
    decreases node,
{
    match node {
        NodeView::Element(tag) => {
            &&& !crate::utils::starts_uppercase(tag.tag_name)
            &&& forall|i: int|
                0 <= i < tag.children.len() ==> elements_are_lower_case(#[trigger] tag.children[i])
        },
        NodeView::Component(component) => forall|i: int|
            0 <= i < component.children.len() ==> elements_are_lower_case(
                #[trigger] component.children[i],
            ),
        _ => true,
    }
}

/// A tag whose name starts with an upper-case letter is never read as an
/// element: in the node that is read, no element at any depth has such a
/// name.
pub proof fn lemma_node_elements_are_lower_case(tokens: Seq<TokenView>, at: int)
    ensures
        parsed_node(tokens, at) matches Ok((node, _)) ==> elements_are_lower_case(node),
    decreases tokens.len() - at, 0nat,
{
    if crate::tokens::is_punct(tokens, at, '<') && !crate::tokens::is_punct(tokens, at + 1, '!') {
        match parsed_path(tokens, at + 1) {
            None => {},
            Some((path, after_path)) => match parsed_attributes(tokens, after_path) {
                Err(_) => {},
                Ok((attributes, end)) => {
                    if !crate::tokens::is_punct(tokens, end, '/') && at < end < tokens.len() {
                        lemma_children_elements_are_lower_case(tokens, end + 1, path);
                    }
                },
            },
        }
    }
}

/// In the children that are read, no element at any depth has a name that
/// starts with an upper-case letter.
pub proof fn lemma_children_elements_are_lower_case(
    tokens: Seq<TokenView>,
    at: int,
    path: Seq<Seq<char>>,
)
    ensures
        parsed_children(tokens, at, path) matches Ok((children, _)) ==> forall|i: int|
            0 <= i < children.len() ==> elements_are_lower_case(#[trigger] children[i]),
    decreases tokens.len() - at, 1nat,
{
    if 0 <= at < tokens.len() && !(crate::tokens::is_punct(tokens, at, '<')
        && crate::tokens::is_punct(tokens, at + 1, '/')) {
        if child_starts(tokens, at) {
            lemma_node_elements_are_lower_case(tokens, at);
            match parsed_node(tokens, at) {
                Err(_) => {},
                Ok((child, next)) => {
                    if at < next <= tokens.len() {
                        lemma_children_elements_are_lower_case(tokens, next, path);
                        match parsed_children(tokens, next, path) {
                            Err(_) => {},
                            Ok((rest, _)) => {
                                let children = seq![child] + rest;
                                assert forall|i: int|
                                    0 <= i < children.len() implies elements_are_lower_case(
                                    #[trigger] children[i],
                                ) by {
                                    if i > 0 {
                                        assert(children[i] == rest[i - 1]);
                                    }
                                }
                            },
                        }
                    }
                },
            }
        } else {
            let (text, next) = bare_text(tokens, at, path, None);
            if text.len() > 0 && at < next <= tokens.len() {
                lemma_children_elements_are_lower_case(tokens, next, path);
                match parsed_children(tokens, next, path) {
                    Err(_) => {},
                    Ok((rest, _)) => {
                        let children = seq![NodeView::BareText(text)] + rest;
                        assert forall|i: int|
                            0 <= i < children.len() implies elements_are_lower_case(
                            #[trigger] children[i],
                        ) by {
                            if i > 0 {
                                assert(children[i] == rest[i - 1]);
                            }
                        }
                    },
                }
            }
        }
    }
}

/// In the nodes of a template that is parsed, no element at any depth has
/// a name that starts with an upper-case letter.
pub proof fn lemma_parsed_elements_are_lower_case(tokens: Seq<TokenView>, at: int)
    ensures
        parsed_nodes(tokens, at) matches Ok(nodes) ==> forall|i: int|
            0 <= i < nodes.len() ==> elements_are_lower_case(#[trigger] nodes[i]),
    decreases tokens.len() - at,
{
    if 0 <= at < tokens.len() {
        lemma_node_elements_are_lower_case(tokens, at);
        match parsed_node(tokens, at) {
            Err(_) => {},
            Ok((node, next)) => {
                if at < next <= tokens.len() {
                    lemma_parsed_elements_are_lower_case(tokens, next);
                    match parsed_nodes(tokens, next) {
                        Err(_) => {},
                        Ok(rest) => {
                            let nodes = seq![node] + rest;
                            assert forall|i: int|
                                0 <= i < nodes.len() implies elements_are_lower_case(
                                #[trigger] nodes[i],
                            ) by {
                                if i > 0 {
                                    assert(nodes[i] == rest[i - 1]);
                                }
                            }
                        },
                    }
                }
            },
        }
    }
}

/// The token `ahead` places after `at`, if there is one.
fn token_at(tokens: &Vec<Token>, at: usize, ahead: usize) -> (token: Option<&Token>)
    requires
        at <= tokens.len(),
    ensures
        match token {
            Some(t) => at + ahead < tokens.len() && *t == tokens[at + ahead] && t@
                == crate::tokens::tokens_view(tokens@)[at + ahead],
            None => at + ahead >= tokens.len(),
        },
{
    if ahead < tokens.len() - at {
        Some(&tokens[at + ahead])
    } else {
        None
    }
}

/// Whether the token `ahead` places after `at` is the punctuation `c`.
fn punct_at(tokens: &Vec<Token>, at: usize, ahead: usize, c: char) -> (yes: bool)
    requires
        at <= tokens.len(),
    ensures
        yes == crate::tokens::is_punct(crate::tokens::tokens_view(tokens@), at + ahead, c),
{
    match token_at(tokens, at, ahead) {
        Some(token) => match &token.kind {
            TokenKind::Punct(p) => *p == c,
            _ => false,
        },
        None => false,
    }
}

/// Whether the token `ahead` places after `at` is an identifier or a
/// keyword.
fn ident_at(tokens: &Vec<Token>, at: usize, ahead: usize) -> (yes: bool)
    requires
        at <= tokens.len(),
    ensures
        yes == crate::tokens::is_ident(crate::tokens::tokens_view(tokens@), at + ahead),
{
    match token_at(tokens, at, ahead) {
        Some(token) => match &token.kind {
            TokenKind::Ident => true,
            _ => false,
        },
        None => false,
    }
}

/// Whether the token `ahead` places after `at` is the word `word`.
fn word_at(tokens: &Vec<Token>, at: usize, ahead: usize, word: &str) -> (yes: bool)
    requires
        at <= tokens.len(),
    ensures
        yes == crate::tokens::is_word(crate::tokens::tokens_view(tokens@), at + ahead, word@),
{
    match token_at(tokens, at, ahead) {
        Some(token) => match &token.kind {
            TokenKind::Ident => str_eq(token.text.as_str(), word),
            _ => false,
        },
        None => false,
    }
}

/// Whether the token `ahead` places after `at` is a string literal.
fn str_at(tokens: &Vec<Token>, at: usize, ahead: usize) -> (yes: bool)
    requires
        at <= tokens.len(),
    ensures
        yes == crate::tokens::is_str(crate::tokens::tokens_view(tokens@), at + ahead),
{
    match token_at(tokens, at, ahead) {
        Some(token) => match &token.kind {
            TokenKind::Str(_) => true,
            _ => false,
        },
        None => false,
    }
}

/// Whether the token `ahead` places after `at` is a group between braces.
fn brace_group_at(tokens: &Vec<Token>, at: usize, ahead: usize) -> (yes: bool)
    requires
        at <= tokens.len(),
    ensures
        yes == crate::tokens::is_brace_group(crate::tokens::tokens_view(tokens@), at + ahead),
{
    match token_at(tokens, at, ahead) {
        Some(token) => match &token.kind {
            TokenKind::Group(Delimiter::Brace, _) => true,
            _ => false,
        },
        None => false,
    }
}

/// The path at `at`, if an identifier stands there, and the place after
/// it.
fn parse_path(tokens: &Vec<Token>, at: usize) -> (found: Option<(Vec<String>, usize)>)
    requires
        at <= tokens.len(),
    ensures
        match found {
            Some((path, next)) => {
                &&& parsed_path(crate::tokens::tokens_view(tokens@), at as int) == Some(
                    (crate::utils::path_view(path@), next as int),
                )
                &&& at < next <= tokens.len()
                &&& path.len() > 0
            },
            None => parsed_path(crate::tokens::tokens_view(tokens@), at as int) is None,
        },
{
    let ghost view = crate::tokens::tokens_view(tokens@);
    if !ident_at(tokens, at, 0) {
        return None;
    }
    let mut path: Vec<String> = Vec::new();
    path.push(tokens[at].text.clone());
    let mut next: usize = at + 1;
    assert(crate::utils::path_view(path@) =~= seq![view[at as int].text]);
    while punct_at(tokens, next, 0, ':') && punct_at(tokens, next, 1, ':') && ident_at(
        tokens,
        next,
        2,
    )
        invariant
            at < next <= tokens.len(),
            path.len() > 0,
            view == crate::tokens::tokens_view(tokens@),
            parsed_path(view, at as int) == Some(
                (
                    crate::utils::path_view(path@) + path_tail(view, next as int).0,
                    path_tail(view, next as int).1,
                ),
            ),
        decreases tokens.len() - next,
    {
        let ghost before = crate::utils::path_view(path@);
        path.push(tokens[next + 2].text.clone());
        proof {
            assert(crate::utils::path_view(path@) =~= before + seq![view[next + 2].text]);
            assert(before + (seq![view[next + 2].text] + path_tail(view, next + 3).0) =~= (before
                + seq![view[next + 2].text]) + path_tail(view, next + 3).0);
        }
        next += 3;
    }
    assert(crate::utils::path_view(path@) + Seq::<Seq<char>>::empty() =~= crate::utils::path_view(
        path@,
    ));
    Some((path, next))
}

/// Whether two paths have the same segments.
fn same_path(a: &Vec<String>, b: &Vec<String>) -> (same: bool)
    ensures
        same == (crate::utils::path_view(a@) == crate::utils::path_view(b@)),
{
    if a.len() != b.len() {
        assert(crate::utils::path_view(a@).len() != crate::utils::path_view(b@).len());
        return false;
    }
    let mut i: usize = 0;
    while i < a.len()
        invariant
            i <= a.len(),
            a.len() == b.len(),
            forall|j: int| 0 <= j < i ==> a[j]@ == b[j]@,
        decreases a.len() - i,
    {
        if !str_eq(a[i].as_str(), b[i].as_str()) {
            assert(crate::utils::path_view(a@)[i as int] != crate::utils::path_view(b@)[i as int]);
            return false;
        }
        i += 1;
    }
    assert(crate::utils::path_view(a@) =~= crate::utils::path_view(b@));
    true
}

/// The characters between the brackets of a group with the source text
/// `text`.
fn inner_chars(text: &str) -> (inner: Vec<char>)
    ensures
        inner@ == inner_text(text@),
{
    let chars = chars_of(text);
    let mut inner: Vec<char> = Vec::new();
    if chars.len() >= 2 {
        let mut i: usize = 1;
        while i < chars.len() - 1
            invariant
                1 <= i <= chars.len() - 1,
                inner@ == chars@.subrange(1, i as int),
            decreases chars.len() - i,
        {
            inner.push(chars[i]);
            assert(chars@.subrange(1, i + 1) =~= chars@.subrange(1, i as int).push(chars[i as int]));
            i += 1;
        }
    }
    inner
}

/// The source of the expression that a brace group holds.
fn expression_of(token: &Token) -> (source: String)
    ensures
        source@ == group_expression(token@),
{
    let inner = inner_chars(token.text.as_str());
    assert(crate::text::clamped(inner@, 0, inner.len() as int) =~= inner@);
    trimmed_slice(&inner, 0, inner.len())
}

/// The attribute name at `at` and the place after it.
fn parse_attr_name(tokens: &Vec<Token>, at: usize) -> (parsed: Result<(AttrName, usize), ParseError>)
    requires
        at <= tokens.len(),
    ensures
        match parsed {
            Ok((name, next)) => parsed_attr_name(crate::tokens::tokens_view(tokens@), at as int)
                == Ok::<(AttrNameView, int), ParseErrorView>((name@, next as int)) && at < next
                <= tokens.len(),
            Err(error) => parsed_attr_name(crate::tokens::tokens_view(tokens@), at as int) == Err::<
                (AttrNameView, int),
                ParseErrorView,
            >(error@),
        },
{
    let ghost view = crate::tokens::tokens_view(tokens@);
    if brace_group_at(tokens, at, 0) {
        let source = expression_of(&tokens[at]);
        if source.as_str().unicode_len() == 0 {
            return Err(ParseError::EmptyExpression);
        }
        return Ok((AttrName::Expression(source), at + 1));
    }
    let mut name = String::new();
    let mut next: usize = at;
    let mut after_word = false;
    assert(Seq::<char>::empty() + name_run(view, at as int, false).0 =~= name_run(
        view,
        at as int,
        false,
    ).0);
    loop
        invariant
            at <= next <= tokens.len(),
            view == crate::tokens::tokens_view(tokens@),
            name@.len() > 0 ==> at < next,
            name_run(view, at as int, false) == (
                name@ + name_run(view, next as int, after_word).0,
                name_run(view, next as int, after_word).1,
            ),
        ensures
            at <= next <= tokens.len(),
            name@.len() > 0 ==> at < next,
            name_run(view, at as int, false) == (name@, next as int),
        decreases tokens.len() - next,
    {
        let ghost before = name@;
        if ident_at(tokens, next, 0) && !str_eq(tokens[next].text.as_str(), "_") {
            if after_word {
                assert(name@ + Seq::<char>::empty() =~= name@);
                break;
            }
            name.append(tokens[next].text.as_str());
            proof {
                let tail = name_run(view, next + 1, true);
                assert(before + (view[next as int].text + tail.0) =~= (before
                    + view[next as int].text) + tail.0);
            }
            after_word = true;
        } else if punct_at(tokens, next, 0, '-') {
            push_char(&mut name, '-');
            proof {
                let tail = name_run(view, next + 1, false);
                assert(before + (seq!['-'] + tail.0) =~= before.push('-') + tail.0);
            }
            after_word = false;
        } else if punct_at(tokens, next, 0, ':') {
            push_char(&mut name, ':');
            proof {
                let tail = name_run(view, next + 1, false);
                assert(before + (seq![':'] + tail.0) =~= before.push(':') + tail.0);
            }
            after_word = false;
        } else {
            assert(name@ + Seq::<char>::empty() =~= name@);
            break;
        }
        next += 1;
    }
    if name.as_str().unicode_len() == 0 {
        Err(ParseError::InvalidAttributeName)
    } else {
        Ok((AttrName::Literal(name), next))
    }
}

/// `front`, then what `rest` holds; or the error of `rest`.
pub open spec fn followed_by<T>(front: Seq<T>, rest: Result<Seq<T>, ParseErrorView>) -> Result<
    Seq<T>,
    ParseErrorView,
> {
    match rest {
        Ok(back) => Ok(front + back),
        Err(error) => Err(error),
    }
}

/// The views of parsed segments, or the error.
pub open spec fn segments_result_view(
    result: Result<Vec<InterpolatedSegment>, ParseError>,
) -> Result<Seq<InterpolatedSegmentView>, ParseErrorView> {
    match result {
        Ok(segments) => Ok(crate::attributes::segments_view(segments@)),
        Err(error) => Err(error@),
    }
}

/// Splits a string with expressions in it into its segments.
pub fn parse_interpolated_string(text: &str) -> (parsed: Result<
    Vec<InterpolatedSegment>,
    ParseError,
>)
    ensures
        segments_result_view(parsed) == segments_of(text@),
{
    let chars = chars_of(text);
    let mut segments: Vec<InterpolatedSegment> = Vec::new();
    let mut start: usize = 0;
    proof {
        assert(chars@.skip(0) =~= chars@);
        assert(crate::attributes::segments_view(segments@) =~= Seq::empty());
        match segments_of(chars@) {
            Ok(back) => {
                assert(Seq::<InterpolatedSegmentView>::empty() + back =~= back);
            },
            Err(_) => {},
        }
    }
    loop
        invariant_except_break
            segments_of(chars@) == followed_by(
                crate::attributes::segments_view(segments@),
                segments_of(chars@.skip(start as int)),
            ),
        invariant
            start <= chars.len(),
            chars@ == text@,
        ensures
            segments_of(chars@) == Ok::<Seq<InterpolatedSegmentView>, ParseErrorView>(
                crate::attributes::segments_view(segments@),
            ),
        decreases chars.len() - start,
    {
        let ghost before = crate::attributes::segments_view(segments@);
        let ghost rest = chars@.skip(start as int);
        match find_char(&chars, start, '{') {
            None => {
                if start < chars.len() {
                    let tail = substring(&chars, start, chars.len());
                    assert(chars@.subrange(start as int, chars.len() as int) =~= rest);
                    segments.push(InterpolatedSegment::Str(tail));
                    assert(crate::attributes::segments_view(segments@) =~= before
                        + seq![InterpolatedSegmentView::Str(rest)]);
                } else {
                    assert(before + Seq::<InterpolatedSegmentView>::empty() =~= before);
                }
                break;
            },
            Some(open) => {
                proof {
                    crate::text::lemma_first_index_of(rest, '{');
                    crate::text::lemma_first_index_of(rest.skip(open - start + 1), '}');
                    assert(rest.skip(open - start + 1) =~= chars@.skip(open + 1));
                }
                match find_char(&chars, open + 1, '}') {
                    None => {
                        return Err(ParseError::UnterminatedInterpolation);
                    },
                    Some(close) => {
                        let ghost middle = before;
                        if open > start {
                            let head = substring(&chars, start, open);
                            assert(chars@.subrange(start as int, open as int) =~= rest.take(
                                open - start,
                            ));
                            segments.push(InterpolatedSegment::Str(head));
                            proof {
                                middle = before + seq![
                                    InterpolatedSegmentView::Str(rest.take(open - start)),
                                ];
                                assert(crate::attributes::segments_view(segments@) =~= middle);
                            }
                        } else {
                            assert(before + Seq::<InterpolatedSegmentView>::empty() =~= before);
                        }
                        let source = substring(&chars, open + 1, close);
                        assert(chars@.subrange(open + 1, close as int) =~= rest.subrange(
                            open - start + 1,
                            open - start + 1 + (close - (open + 1)),
                        ));
                        segments.push(InterpolatedSegment::Expr(source));
                        proof {
                            let expression = InterpolatedSegmentView::Expr(
                                rest.subrange(
                                    open - start + 1,
                                    open - start + 1 + (close - (open + 1)),
                                ),
                            );
                            assert(crate::attributes::segments_view(segments@) =~= middle
                                + seq![expression]);
                            assert(rest.skip((open - start) + (close - (open + 1)) + 2)
                                =~= chars@.skip(close + 1));
                            match segments_of(chars@.skip(close + 1)) {
                                Ok(back) => {
                                    let head = if open > start {
                                        seq![InterpolatedSegmentView::Str(rest.take(open - start))]
                                    } else {
                                        Seq::empty()
                                    };
                                    assert(before + (head + seq![expression] + back) =~= (middle
                                        + seq![expression]) + back);
                                },
                                Err(_) => {},
                            }
                        }
                        start = close + 1;
                    },
                }
            },
        }
    }
    Ok(segments)
}

/// Whether a string holds a `{` with a `}` somewhere after it.
fn holds_brace_pair(text: &str) -> (yes: bool)
    ensures
        yes == has_brace_pair(text@),
{
    let chars = chars_of(text);
    assert(chars@.skip(0) =~= chars@);
    match find_char(&chars, 0, '{') {
        None => false,
        Some(open) => {
            find_char(&chars, open + 1, '}').is_some()
        },
    }
}

/// The attribute value at `at` and the place after it.
fn parse_attr_value(tokens: &Vec<Token>, at: usize) -> (parsed: Result<
    (AttrValue, usize),
    ParseError,
>)
    requires
        at <= tokens.len(),
    ensures
        match parsed {
            Ok((value, next)) => parsed_attr_value(crate::tokens::tokens_view(tokens@), at as int)
                == Ok::<(AttrValueView, int), ParseErrorView>((value@, next as int)) && at < next
                <= tokens.len(),
            Err(error) => parsed_attr_value(crate::tokens::tokens_view(tokens@), at as int)
                == Err::<(AttrValueView, int), ParseErrorView>(error@),
        },
{
    match token_at(tokens, at, 0) {
        None => Err(ParseError::InvalidAttributeValue),
        Some(token) => match &token.kind {
            TokenKind::Group(Delimiter::Brace, _) => {
                let source = expression_of(token);
                if source.as_str().unicode_len() == 0 {
                    Err(ParseError::EmptyExpression)
                } else {
                    Ok((AttrValue::Expression(source), at + 1))
                }
            },
            TokenKind::Str(value) => {
                if holds_brace_pair(value.as_str()) {
                    match parse_interpolated_string(value.as_str()) {
                        Err(error) => Err(error),
                        Ok(segments) => Ok((AttrValue::Interpolated(segments), at + 1)),
                    }
                } else {
                    Ok((AttrValue::Literal(value.clone()), at + 1))
                }
            },
            _ => Err(ParseError::InvalidAttributeValue),
        },
    }
}

/// The view of a parsed `:for`, or the error.
pub open spec fn for_result_view(result: Result<ForExpr, ParseError>) -> Result<
    ForExprView,
    ParseErrorView,
> {
    match result {
        Ok(for_expr) => Ok(for_expr@),
        Err(error) => Err(error@),
    }
}

/// The pattern and the collection that the brace group of a `:for` holds.
fn parse_for(token: &Token) -> (parsed: Result<ForExpr, ParseError>)
    requires
        token.kind is Group,
    ensures
        for_result_view(parsed) == parsed_for(token@),
{
    let inner = match &token.kind {
        TokenKind::Group(_, inner) => inner,
        _ => {
            return Err(ParseError::MalformedForPattern);
        },
    };
    let ghost view = crate::tokens::tokens_view(inner@);
    let mut k: usize = 0;
    while k < inner.len() && !word_at(inner, k, 0, "in")
        invariant
            k <= inner.len(),
            view == crate::tokens::tokens_view(inner@),
            first_word(view, "in"@, 0) == first_word(view, "in"@, k as int),
        decreases inner.len() - k,
    {
        k += 1;
    }
    if k >= inner.len() {
        return Err(ParseError::MalformedForPattern);
    }
    let body = inner_chars(token.text.as_str());
    let pat = trimmed_slice(&body, 0, inner[k].start);
    let collection = trimmed_slice(&body, inner[k].end, body.len());
    if pat.as_str().unicode_len() == 0 || collection.as_str().unicode_len() == 0 {
        Err(ParseError::MalformedForPattern)
    } else {
        Ok(ForExpr { pat, collection })
    }
}

/// The attribute at `at` and the place after it.
fn parse_attribute(tokens: &Vec<Token>, at: usize) -> (parsed: Result<
    (Attribute, usize),
    ParseError,
>)
    requires
        at <= tokens.len(),
    ensures
        match parsed {
            Ok((attribute, next)) => parsed_attribute(crate::tokens::tokens_view(tokens@), at as int)
                == Ok::<(AttributeView, int), ParseErrorView>((attribute@, next as int)) && at
                < next <= tokens.len(),
            Err(error) => parsed_attribute(crate::tokens::tokens_view(tokens@), at as int) == Err::<
                (AttributeView, int),
                ParseErrorView,
            >(error@),
        },
{
    if punct_at(tokens, at, 0, ':') && word_at(tokens, at, 1, "for") {
        if punct_at(tokens, at, 2, '=') && brace_group_at(tokens, at, 3) {
            return match parse_for(&tokens[at + 3]) {
                Err(error) => Err(error),
                Ok(for_expr) => Ok((Attribute::For(for_expr), at + 4)),
            };
        }
        return Err(ParseError::MalformedForPattern);
    }
    if punct_at(tokens, at, 0, ':') && word_at(tokens, at, 1, "if") {
        if punct_at(tokens, at, 2, '=') && brace_group_at(tokens, at, 3) {
            let condition = expression_of(&tokens[at + 3]);
            if condition.as_str().unicode_len() > 0 {
                return Ok((Attribute::If(condition), at + 4));
            }
        }
        return Err(ParseError::MalformedIf);
    }
    let (name, after_name) = match parse_attr_name(tokens, at) {
        Err(error) => {
            return Err(error);
        },
        Ok(parsed) => parsed,
    };
    if punct_at(tokens, after_name, 0, '=') {
        match parse_attr_value(tokens, after_name + 1) {
            Err(error) => Err(error),
            Ok((value, after_value)) => Ok(
                (
                    Attribute::RegularAttribute(RegularAttribute { name, value: Some(value) }),
                    after_value,
                ),
            ),
        }
    } else {
        Ok((Attribute::RegularAttribute(RegularAttribute { name, value: None }), after_name))
    }
}

/// Whether the tag ends at `at`.
fn tag_ends(tokens: &Vec<Token>, at: usize) -> (yes: bool)
    requires
        at <= tokens.len(),
    ensures
        yes == is_tag_end(crate::tokens::tokens_view(tokens@), at as int),
{
    punct_at(tokens, at, 0, '>') || (punct_at(tokens, at, 0, '/') && punct_at(tokens, at, 1, '>'))
}

/// The attributes from `at` up to the end of the tag, and the place of
/// that end.
fn parse_attributes(tokens: &Vec<Token>, at: usize) -> (parsed: Result<
    (Vec<Attribute>, usize),
    ParseError,
>)
    requires
        at <= tokens.len(),
    ensures
        match parsed {
            Ok((attributes, end)) => {
                &&& parsed_attributes(crate::tokens::tokens_view(tokens@), at as int) == Ok::<
                    (Seq<AttributeView>, int),
                    ParseErrorView,
                >((crate::attributes::attributes_view(attributes@), end as int))
                &&& at <= end < tokens.len()
                &&& is_tag_end(crate::tokens::tokens_view(tokens@), end as int)
            },
            Err(error) => parsed_attributes(crate::tokens::tokens_view(tokens@), at as int)
                == Err::<(Seq<AttributeView>, int), ParseErrorView>(error@),
        },
{
    let ghost view = crate::tokens::tokens_view(tokens@);
    let mut attributes: Vec<Attribute> = Vec::new();
    let mut next: usize = at;
    proof {
        assert(crate::attributes::attributes_view(attributes@) =~= Seq::empty());
        match parsed_attributes(view, at as int) {
            Ok((back, _)) => {
                assert(Seq::<AttributeView>::empty() + back =~= back);
            },
            Err(_) => {},
        }
    }
    while !tag_ends(tokens, next)
        invariant
            at <= next <= tokens.len(),
            view == crate::tokens::tokens_view(tokens@),
            parsed_attributes(view, at as int) == and_then(
                crate::attributes::attributes_view(attributes@),
                parsed_attributes(view, next as int),
            ),
        decreases tokens.len() - next,
    {
        let ghost before = crate::attributes::attributes_view(attributes@);
        match parse_attribute(tokens, next) {
            Err(error) => {
                return Err(error);
            },
            Ok((attribute, after)) => {
                let ghost added = attribute@;
                attributes.push(attribute);
                proof {
                    assert(crate::attributes::attributes_view(attributes@) =~= before
                        + seq![added]);
                    match parsed_attributes(view, after as int) {
                        Ok((back, _)) => {
                            assert(before + (seq![added] + back) =~= (before + seq![added]) + back);
                        },
                        Err(_) => {},
                    }
                }
                next = after;
            },
        }
    }
    assert(crate::attributes::attributes_view(attributes@) + Seq::<AttributeView>::empty()
        =~= crate::attributes::attributes_view(attributes@));
    Ok((attributes, next))
}

/// Whether no space is written before the token.
fn takes_no_space_before(token: &Token) -> (yes: bool)
    ensures
        yes == no_space_before(token@),
{
    match &token.kind {
        TokenKind::Punct(p) => {
            let c = *p;
            c == ',' || c == '.' || c == '!' || c == '?' || c == ';' || c == ':' || c == ')' || c
                == ']' || c == '}' || c == '"'
        },
        _ => false,
    }
}

/// Whether a child starts at `at`.
fn child_starts_at(tokens: &Vec<Token>, at: usize) -> (yes: bool)
    requires
        at <= tokens.len(),
    ensures
        yes == child_starts(crate::tokens::tokens_view(tokens@), at as int),
{
    (punct_at(tokens, at, 0, '<') && ident_at(tokens, at, 1)) || str_at(tokens, at, 0)
        || brace_group_at(tokens, at, 0)
}

/// Whether text stops at `at`.
fn text_stops_at(tokens: &Vec<Token>, at: usize, path: &Vec<String>) -> (yes: bool)
    requires
        at <= tokens.len(),
    ensures
        yes == text_stops(
            crate::tokens::tokens_view(tokens@),
            at as int,
            crate::utils::path_view(path@),
        ),
{
    if at >= tokens.len() {
        return true;
    }
    if child_starts_at(tokens, at) {
        return true;
    }
    if punct_at(tokens, at, 0, '<') && punct_at(tokens, at, 1, '/') && at + 2 <= tokens.len() {
        match parse_path(tokens, at + 2) {
            Some((closing, _)) => same_path(&closing, path),
            None => false,
        }
    } else {
        false
    }
}

/// Text written without quotes inside the tag `path`, from `at` on, and
/// the place where it stops.
pub fn parse_bare_text(tokens: &Vec<Token>, at: usize, path: &Vec<String>) -> (parsed: (
    String,
    usize,
))
    ensures
        bare_text(
            crate::tokens::tokens_view(tokens@),
            at as int,
            crate::utils::path_view(path@),
            None,
        ) == (parsed.0@, parsed.1 as int),
        at <= parsed.1,
        at <= tokens.len() ==> parsed.1 <= tokens.len(),
{
    let ghost view = crate::tokens::tokens_view(tokens@);
    let ghost closing = crate::utils::path_view(path@);
    let mut text = String::new();
    if at > tokens.len() {
        return (text, at);
    }
    let mut next: usize = at;
    let mut previous: Option<usize> = None;
    let ghost mut before_place: Option<int> = None;
    proof {
        assert(Seq::<char>::empty() + bare_text(view, at as int, closing, None).0 =~= bare_text(
            view,
            at as int,
            closing,
            None,
        ).0);
    }
    while !text_stops_at(tokens, next, path)
        invariant
            at <= next <= tokens.len(),
            view == crate::tokens::tokens_view(tokens@),
            closing == crate::utils::path_view(path@),
            match previous {
                Some(place) => place < tokens.len() && before_place == Some(place as int),
                None => before_place is None,
            },
            bare_text(view, at as int, closing, None) == (
                text@ + bare_text(view, next as int, closing, before_place).0,
                bare_text(view, next as int, closing, before_place).1,
            ),
        decreases tokens.len() - next,
    {
        let ghost written = text@;
        let token = &tokens[next];
        let spaced = match previous {
            Some(place) => tokens[place].last_line == token.first_line && !takes_no_space_before(
                token,
            ),
            None => false,
        };
        if spaced {
            push_char(&mut text, ' ');
        }
        text.append(token.text.as_str());
        proof {
            let tail = bare_text(view, next + 1, closing, Some(next as int));
            let between = gap(view, before_place, next as int);
            assert(view[next as int] == token@);
            assert(written + (between + view[next as int].text + tail.0) =~= (written + between
                + view[next as int].text) + tail.0);
            assert(text@ =~= written + between + view[next as int].text);
            before_place = Some(next as int);
        }
        previous = Some(next);
        next += 1;
    }
    assert(text@ + Seq::<char>::empty() =~= text@);
    (text, next)
}

/// Whether the braces of a text literal pair up.
fn check_text(literal: &str) -> (sound: bool)
    ensures
        sound == braces_pair_up(literal@),
{
    let chars = chars_of(literal);
    let mut i: usize = 0;
    assert(chars@.skip(0) =~= chars@);
    while i < chars.len()
        invariant
            i <= chars.len(),
            chars@ == literal@,
            braces_pair_up(chars@) == braces_pair_up(chars@.skip(i as int)),
        decreases chars.len() - i,
    {
        let ghost rest = chars@.skip(i as int);
        let c = chars[i];
        let doubled = i + 1 < chars.len() && chars[i + 1] == c;
        proof {
            assert(rest[0] == c);
            if i + 1 < chars.len() {
                assert(rest[1] == chars[i + 1]);
                assert(rest.skip(2) =~= chars@.skip(i + 2));
            }
            assert(rest.skip(1) =~= chars@.skip(i + 1));
        }
        if c == '{' && !doubled {
            match find_char(&chars, i + 1, '}') {
                None => {
                    return false;
                },
                Some(close) => {
                    assert(rest.skip((close - (i + 1)) + 2) =~= chars@.skip(close + 1));
                    i = close + 1;
                },
            }
        } else if c == '}' && !doubled {
            return false;
        } else if (c == '{' || c == '}') && doubled {
            i += 2;
        } else {
            i += 1;
        }
    }
    true
}

/// The view of a parsed node, or the error.
pub open spec fn node_result_view(result: Result<Node, ParseError>) -> Result<
    NodeView,
    ParseErrorView,
> {
    match result {
        Ok(node) => Ok(node@),
        Err(error) => Err(error@),
    }
}

/// The node that a brace group is.
fn parse_expression_node(token: &Token) -> (parsed: Result<Node, ParseError>)
    requires
        token.kind is Group,
    ensures
        node_result_view(parsed) == expression_node(token@),
{
    let inner = match &token.kind {
        TokenKind::Group(_, inner) => inner,
        _ => {
            return Err(ParseError::UnexpectedToken);
        },
    };
    if brace_group_at(inner, 0, 0) {
        if inner.len() != 1 {
            return Err(ParseError::UnexpectedToken);
        }
        let source = expression_of(&inner[0]);
        if source.as_str().unicode_len() == 0 {
            Err(ParseError::EmptyExpression)
        } else {
            Ok(Node::UnescapedExpression(source))
        }
    } else {
        let source = expression_of(token);
        if source.as_str().unicode_len() == 0 {
            Err(ParseError::EmptyExpression)
        } else {
            Ok(Node::Expression(source))
        }
    }
}

/// Whether `text` is a word written in any mix of upper and lower case.
fn is_in_any_case(text: &str, lower: &str, upper: &str) -> (yes: bool)
    ensures
        yes == is_word_in_any_case(text@, lower@, upper@),
{
    let chars = chars_of(text);
    let low = chars_of(lower);
    let high = chars_of(upper);
    if chars.len() != low.len() || chars.len() != high.len() {
        return false;
    }
    let mut i: usize = 0;
    while i < chars.len()
        invariant
            i <= chars.len(),
            chars.len() == low.len(),
            chars.len() == high.len(),
            chars@ == text@,
            low@ == lower@,
            high@ == upper@,
            forall|j: int| 0 <= j < i ==> chars[j] == low[j] || chars[j] == high[j],
        decreases chars.len() - i,
    {
        if chars[i] != low[i] && chars[i] != high[i] {
            assert(!(text@[i as int] == lower@[i as int] || text@[i as int] == upper@[i as int]));
            return false;
        }
        i += 1;
    }
    true
}

/// Whether `<!doctype html>` stands at `at`.
fn doctype_at(tokens: &Vec<Token>, at: usize) -> (yes: bool)
    requires
        at <= tokens.len(),
    ensures
        yes == is_doctype(crate::tokens::tokens_view(tokens@), at as int),
{
    punct_at(tokens, at, 0, '<') && punct_at(tokens, at, 1, '!') && ident_at(tokens, at, 2)
        && is_in_any_case(tokens[at + 2].text.as_str(), "doctype", "DOCTYPE") && ident_at(
        tokens,
        at,
        3,
    ) && is_in_any_case(tokens[at + 3].text.as_str(), "html", "HTML") && punct_at(
        tokens,
        at,
        4,
        '>',
    )
}

/// The node that a tag with the given path, attributes and children is.
fn make_tag_node(
    path: &Vec<String>,
    attributes: Vec<Attribute>,
    children: Vec<Node>,
    self_closing: bool,
) -> (node: Node)
    requires
        path.len() > 0,
    ensures
        node@ == tag_node(
            crate::utils::path_view(path@),
            crate::attributes::attributes_view(attributes@),
            crate::nodes::nodes_view(children@),
            self_closing,
        ),
{
    let last = crate::utils::extract_ident_from_path(path);
    if is_pascal_case(last.as_str()) {
        Node::Component(Component { name: path_to_string(path), props: attributes, children })
    } else {
        Node::Element(Tag { tag_name: last.clone(), attributes, children, self_closing })
    }
}

/// The view of a parsed node with the place after it, or the error.
pub open spec fn placed_node_view(result: Result<(Node, usize), ParseError>) -> Result<
    (NodeView, int),
    ParseErrorView,
> {
    match result {
        Ok((node, next)) => Ok((node@, next as int)),
        Err(error) => Err(error@),
    }
}

/// The views of parsed nodes with the place after them, or the error.
pub open spec fn placed_nodes_view(result: Result<(Vec<Node>, usize), ParseError>) -> Result<
    (Seq<NodeView>, int),
    ParseErrorView,
> {
    match result {
        Ok((nodes, next)) => Ok((crate::nodes::nodes_view(nodes@), next as int)),
        Err(error) => Err(error@),
    }
}

/// What follows the children of an open tag: its closing tag.
fn parse_closing_tag(
    tokens: &Vec<Token>,
    at: usize,
    path: &Vec<String>,
    attributes: Vec<Attribute>,
    children: Vec<Node>,
) -> (parsed: Result<(Node, usize), ParseError>)
    requires
        at <= tokens.len(),
        path.len() > 0,
    ensures
        placed_node_view(parsed) == closed_tag(
            crate::tokens::tokens_view(tokens@),
            at as int,
            crate::utils::path_view(path@),
            crate::attributes::attributes_view(attributes@),
            crate::nodes::nodes_view(children@),
        ),
        parsed matches Ok((_, next)) ==> at < next <= tokens.len(),
{
    if punct_at(tokens, at, 0, '<') && punct_at(tokens, at, 1, '/') && ident_at(tokens, at, 2) {
        match parse_path(tokens, at + 2) {
            None => Err(ParseError::UnexpectedToken),
            Some((closing, after)) => {
                if !same_path(&closing, path) {
                    Err(
                        ParseError::MismatchedClosingTag {
                            expected: path_to_string(path),
                            found: path_to_string(&closing),
                        },
                    )
                } else if punct_at(tokens, after, 0, '>') {
                    Ok((make_tag_node(path, attributes, children, false), after + 1))
                } else {
                    Err(ParseError::UnexpectedToken)
                }
            },
        }
    } else {
        Err(ParseError::UnclosedTag { tag: path_to_string(path) })
    }
}

/// The node at `at` and the place after it.
pub fn parse_node(tokens: &Vec<Token>, at: usize) -> (parsed: Result<(Node, usize), ParseError>)
    ensures
        placed_node_view(parsed) == parsed_node(crate::tokens::tokens_view(tokens@), at as int),
        parsed matches Ok((_, next)) ==> at < next <= tokens.len(),
    decreases tokens.len() - at, 0nat,
{
    let ghost view = crate::tokens::tokens_view(tokens@);
    if at >= tokens.len() {
        return Err(ParseError::UnexpectedToken);
    }
    if punct_at(tokens, at, 0, '<') && punct_at(tokens, at, 1, '!') {
        return if doctype_at(tokens, at) {
            Ok((Node::DocType, at + 5))
        } else {
            Err(ParseError::InvalidDoctype)
        };
    }
    if punct_at(tokens, at, 0, '<') {
        let (path, after_path) = match parse_path(tokens, at + 1) {
            None => {
                return Err(ParseError::UnexpectedToken);
            },
            Some(found) => found,
        };
        let (attributes, end) = match parse_attributes(tokens, after_path) {
            Err(error) => {
                return Err(error);
            },
            Ok(found) => found,
        };
        if punct_at(tokens, end, 0, '/') {
            let none: Vec<Node> = Vec::new();
            assert(crate::nodes::nodes_view(none@) =~= Seq::empty());
            return Ok((make_tag_node(&path, attributes, none, true), end + 2));
        }
        let (children, after) = match parse_children(tokens, end + 1, &path) {
            Err(error) => {
                return Err(error);
            },
            Ok(found) => found,
        };
        return parse_closing_tag(tokens, after, &path, attributes, children);
    }
    match token_at(tokens, at, 0) {
        None => Err(ParseError::UnexpectedToken),
        Some(token) => match &token.kind {
            TokenKind::Str(value) => {
                if check_text(value.as_str()) {
                    Ok((Node::Text(value.clone()), at + 1))
                } else {
                    Err(ParseError::UnterminatedInterpolation)
                }
            },
            TokenKind::Group(Delimiter::Brace, _) => match parse_expression_node(token) {
                Err(error) => Err(error),
                Ok(node) => Ok((node, at + 1)),
            },
            _ => Err(ParseError::UnexpectedToken),
        },
    }
}

/// The children of the tag `path` from `at` on, and the place where they
/// end.
pub fn parse_children(tokens: &Vec<Token>, at: usize, path: &Vec<String>) -> (parsed: Result<
    (Vec<Node>, usize),
    ParseError,
>)
    ensures
        placed_nodes_view(parsed) == parsed_children(
            crate::tokens::tokens_view(tokens@),
            at as int,
            crate::utils::path_view(path@),
        ),
        parsed matches Ok((_, next)) ==> at <= next && (at <= tokens.len() ==> next
            <= tokens.len()),
    decreases tokens.len() - at, 1nat,
{
    let ghost view = crate::tokens::tokens_view(tokens@);
    let ghost closing = crate::utils::path_view(path@);
    let mut children: Vec<Node> = Vec::new();
    if at > tokens.len() {
        assert(crate::nodes::nodes_view(children@) =~= Seq::empty());
        return Ok((children, at));
    }
    let mut next: usize = at;
    proof {
        assert(crate::nodes::nodes_view(children@) =~= Seq::empty());
        match parsed_children(view, at as int, closing) {
            Ok((back, _)) => {
                assert(Seq::<NodeView>::empty() + back =~= back);
            },
            Err(_) => {},
        }
    }
    loop
        invariant_except_break
            parsed_children(view, at as int, closing) == and_then(
                crate::nodes::nodes_view(children@),
                parsed_children(view, next as int, closing),
            ),
        invariant
            at <= next <= tokens.len(),
            view == crate::tokens::tokens_view(tokens@),
            closing == crate::utils::path_view(path@),
        ensures
            parsed_children(view, at as int, closing) == Ok::<
                (Seq<NodeView>, int),
                ParseErrorView,
            >((crate::nodes::nodes_view(children@), next as int)),
        decreases tokens.len() - next,
    {
        let ghost before = crate::nodes::nodes_view(children@);
        proof {
            assert(before + Seq::<NodeView>::empty() =~= before);
        }
        if next >= tokens.len() {
            break;
        }
        if punct_at(tokens, next, 0, '<') && punct_at(tokens, next, 1, '/') {
            break;
        }
        if child_starts_at(tokens, next) {
            match parse_node(tokens, next) {
                Err(error) => {
                    return Err(error);
                },
                Ok((child, after)) => {
                    let ghost added = child@;
                    children.push(child);
                    proof {
                        assert(crate::nodes::nodes_view(children@) =~= before + seq![added]);
                        match parsed_children(view, after as int, closing) {
                            Ok((back, _)) => {
                                assert(before + (seq![added] + back) =~= (before + seq![added])
                                    + back);
                            },
                            Err(_) => {},
                        }
                    }
                    next = after;
                },
            }
        } else {
            let (text, after) = parse_bare_text(tokens, next, path);
            if text.as_str().unicode_len() > 0 && after > next {
                let ghost added = NodeView::BareText(text@);
                children.push(Node::BareText(text));
                proof {
                    assert(crate::nodes::nodes_view(children@) =~= before + seq![added]);
                    match parsed_children(view, after as int, closing) {
                        Ok((back, _)) => {
                            assert(before + (seq![added] + back) =~= (before + seq![added]) + back);
                        },
                        Err(_) => {},
                    }
                }
                next = after;
            } else {
                next = after;
                break;
            }
        }
    }
    Ok((children, next))
}

/// The views of parsed nodes, or the error.
pub open spec fn collection_result_view(result: Result<NodeCollection, ParseError>) -> Result<
    Seq<NodeView>,
    ParseErrorView,
> {
    match result {
        Ok(nodes) => Ok(nodes@),
        Err(error) => Err(error@),
    }
}

/// Parses the tokens of a template into its nodes. One error ends the
/// parse: nothing is parsed of a template with an error in it.
pub fn parse(tokens: &Vec<Token>) -> (parsed: Result<NodeCollection, ParseError>)
    ensures
        collection_result_view(parsed) == parsed_nodes(crate::tokens::tokens_view(tokens@), 0),
{
    let ghost view = crate::tokens::tokens_view(tokens@);
    let mut nodes: Vec<Node> = Vec::new();
    let mut next: usize = 0;
    proof {
        assert(crate::nodes::nodes_view(nodes@) =~= Seq::empty());
        match parsed_nodes(view, 0) {
            Ok(back) => {
                assert(Seq::<NodeView>::empty() + back =~= back);
            },
            Err(_) => {},
        }
    }
    while next < tokens.len()
        invariant
            next <= tokens.len(),
            view == crate::tokens::tokens_view(tokens@),
            parsed_nodes(view, 0) == followed_by(
                crate::nodes::nodes_view(nodes@),
                parsed_nodes(view, next as int),
            ),
        decreases tokens.len() - next,
    {
        let ghost before = crate::nodes::nodes_view(nodes@);
        match parse_node(tokens, next) {
            Err(error) => {
                return Err(error);
            },
            Ok((node, after)) => {
                let ghost added = node@;
                nodes.push(node);
                proof {
                    assert(crate::nodes::nodes_view(nodes@) =~= before + seq![added]);
                    match parsed_nodes(view, after as int) {
                        Ok(back) => {
                            assert(before + (seq![added] + back) =~= (before + seq![added]) + back);
                        },
                        Err(_) => {},
                    }
                }
                next = after;
            },
        }
    }
    assert(crate::nodes::nodes_view(nodes@) + Seq::<NodeView>::empty() =~= crate::nodes::nodes_view(
        nodes@,
    ));
    Ok(NodeCollection::Nodes(nodes))
}

} // verus!
