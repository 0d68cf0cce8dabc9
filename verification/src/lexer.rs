//! From the text of a template to its tokens.
//!
//! The text is cut into tokens by the tokenizer of `proc_macro2`, which
//! only says of each token what kind it is and where it stands. What the
//! token is made of is read from the text here.

use vstd::prelude::*;
use crate::error::{ParseError, ParseErrorView};
use crate::text::{chars_of, substring};
use crate::tokens::{Delimiter, Token, TokenKind, TokenKindView, TokenView};

verus! {

/// The kind of a token as the tokenizer tells it.
#[derive(Debug, Clone, Copy, PartialEq, Eq)]
pub enum LexemeKind {
    Ident,
    Punct,
    Literal,
    Group,
}

/// A token as the tokenizer tells it: its kind, and the line and column
/// where it starts and where it ends. Lines count from 1, columns count
/// characters from 0, and a new line starts after each line feed.
#[derive(Debug, Clone, Copy)]
pub struct Lexeme {
    pub kind: LexemeKind,
    pub start_line: usize,
    pub start_column: usize,
    pub end_line: usize,
    pub end_column: usize,
}

/// The tokens at the top level of `source` as `proc_macro2` cuts them, or
/// nothing where `source` is no sequence of tokens: what
/// `proc_macro2::TokenStream::from_str` returns, each token tree reduced to
/// its kind and to the start and end of its span.
pub uninterp spec fn lexemes(source: Seq<char>) -> Option<Seq<Lexeme>>;

/// The string that the source text of a string literal stands for, or
/// nothing where the text is no string literal: what `syn::LitStr::value`
/// returns for the literal that `syn::parse_str` reads from the text.
pub uninterp spec fn string_literal_value(text: Seq<char>) -> Option<Seq<char>>;

/// Cuts `source` into the tokens at its top level. Calls
/// `proc_macro2::TokenStream::from_str` and keeps of each token tree its
/// kind and the start and end of its span; then it gives up the spans of
/// this thread, which `proc_macro2` would keep for as long as the thread
/// lives. The contract gives the result a name and says nothing more of
/// it. It leaves out the texts that are too long for `proc_macro2` to
/// count their characters. Not for use inside a procedural macro, where
/// `proc_macro2` hands the text to the compiler instead.
#[verifier::external_body]
fn lex(source: &str) -> (found: Option<Vec<Lexeme>>)
    requires
        source@.len() <= crate::text::TEXT_LIMIT,
    ensures
        match found {
            Some(list) => lexemes(source@) == Some(list@),
            None => lexemes(source@) is None,
        },
{
    let stream = <proc_macro2::TokenStream as std::str::FromStr>::from_str(source).ok();
    let found = stream.map(|trees| trees.into_iter().map(|tree| Lexeme {
        kind: match &tree {
            proc_macro2::TokenTree::Group(_) => LexemeKind::Group,
            proc_macro2::TokenTree::Ident(_) => LexemeKind::Ident,
            proc_macro2::TokenTree::Punct(_) => LexemeKind::Punct,
            proc_macro2::TokenTree::Literal(_) => LexemeKind::Literal,
        },
        start_line: tree.span().start().line,
        start_column: tree.span().start().column,
        end_line: tree.span().end().line,
        end_column: tree.span().end().column,
    }).collect());
    proc_macro2::extra::invalidate_current_thread_spans();
    found
}

/// The string that the source text of a string literal stands for. Calls
/// `syn::parse_str` for a `syn::LitStr` and `syn::LitStr::value` on it;
/// then it gives up the spans of this thread. The contract gives the
/// result a name and says nothing more of it. It leaves out the texts that
/// are too long for `proc_macro2`, which `syn` calls, to count their
/// characters.
#[verifier::external_body]
pub(crate) fn string_literal(text: &str) -> (value: Option<String>)
    requires
        text@.len() <= crate::text::TEXT_LIMIT,
    ensures
        match value {
            Some(string) => string_literal_value(text@) == Some(string@),
            None => string_literal_value(text@) is None,
        },
{
    let value = syn::parse_str::<syn::LitStr>(text).ok().map(|literal| literal.value());
    proc_macro2::extra::invalidate_current_thread_spans();
    value
}

/// The place in `source` where the line `line` starts, if `source` has so
/// many lines.
pub open spec fn line_start(source: Seq<char>, line: int) -> Option<int>
    decreases line,
{
    if line < 1 {
        None
    } else if line == 1 {
        Some(0)
    } else {
        match line_start(source, line - 1) {
            None => None,
            Some(start) => if 0 <= start <= source.len() {
                match crate::text::first_index_of(source.skip(start), '\n') {
                    None => None,
                    Some(feed) => Some(start + feed + 1),
                }
            } else {
                None
            },
        }
    }
}

/// The place in `source` of the column `column` of the line `line`, if it
/// lies in `source` or at its end.
pub open spec fn place(source: Seq<char>, line: usize, column: usize) -> Option<int> {
    match line_start(source, line as int) {
        None => None,
        Some(start) => if start + column <= source.len() {
            Some(start + column)
        } else {
            None
        },
    }
}

/// The brackets that `open` and `close` are, if they are a pair.
pub open spec fn delimiter_of(open: char, close: char) -> Option<Delimiter> {
    if open == '(' && close == ')' {
        Some(Delimiter::Parenthesis)
    } else if open == '{' && close == '}' {
        Some(Delimiter::Brace)
    } else if open == '[' && close == ']' {
        Some(Delimiter::Bracket)
    } else {
        None
    }
}

/// The tokens of `source`: those at its top level, and in each group those
/// of the text between its brackets. A text of more than `TEXT_LIMIT`
/// characters has none.
pub open spec fn tokenized(source: Seq<char>) -> Result<Seq<TokenView>, ParseErrorView>
    decreases source.len(), 3nat, 0nat,
{
    if source.len() > crate::text::TEXT_LIMIT {
        Err(ParseErrorView::Lexical)
    } else {
        match lexemes(source) {
            None => Err(ParseErrorView::Lexical),
            Some(list) => tokens_from(source, list),
        }
    }
}

/// The tokens of `source` that the tokenizer tells as `list`.
pub open spec fn tokens_from(source: Seq<char>, list: Seq<Lexeme>) -> Result<
    Seq<TokenView>,
    ParseErrorView,
>
    decreases source.len(), 2nat, list.len(),
{
    if list.len() == 0 {
        Ok(Seq::empty())
    } else {
        match token_from(source, list.first()) {
            Err(error) => Err(error),
            Ok(token) => crate::parser::followed_by(
                seq![token],
                tokens_from(source, list.skip(1)),
            ),
        }
    }
}

/// What a token with the source text `text` is, given the kind that the
/// tokenizer tells. A punctuation token is the first character of its
/// text. A literal is a string where its text stands for one. The text of
/// a group starts and ends with its brackets, and its tokens are those of
/// the text between them.
pub open spec fn kind_from(text: Seq<char>, kind: LexemeKind) -> Result<
    TokenKindView,
    ParseErrorView,
>
    decreases text.len(), 0nat, 0nat,
{
    match kind {
        LexemeKind::Ident => Ok(TokenKindView::Ident),
        LexemeKind::Punct => Ok(TokenKindView::Punct(text[0])),
        LexemeKind::Literal => match string_literal_value(text) {
            Some(value) => Ok(TokenKindView::Str(value)),
            None => Ok(TokenKindView::Literal),
        },
        LexemeKind::Group => if text.len() < 2 {
            Err(ParseErrorView::Lexical)
        } else {
            match delimiter_of(text.first(), text.last()) {
                None => Err(ParseErrorView::Lexical),
                Some(delimiter) => match tokenized(crate::parser::inner_text(text)) {
                    Err(error) => Err(error),
                    Ok(inner) => Ok(TokenKindView::Group(delimiter, inner)),
                },
            }
        },
    }
}

/// The token of `source` that the tokenizer tells as `lexeme`: its text is
/// the text between its start and its end, which must not be empty.
pub open spec fn token_from(source: Seq<char>, lexeme: Lexeme) -> Result<TokenView, ParseErrorView>
    decreases source.len(), 1nat, 0nat,
{
    match place(source, lexeme.start_line, lexeme.start_column) {
        None => Err(ParseErrorView::Lexical),
        Some(start) => match place(source, lexeme.end_line, lexeme.end_column) {
            None => Err(ParseErrorView::Lexical),
            Some(end) => if 0 <= start < end <= source.len() <= usize::MAX {
                let text = source.subrange(start, end);
                match kind_from(text, lexeme.kind) {
                    Err(error) => Err(error),
                    Ok(kind) => Ok(
                        TokenView {
                            kind,
                            text,
                            start: start as usize,
                            end: end as usize,
                            first_line: lexeme.start_line,
                            last_line: lexeme.end_line,
                        },
                    ),
                }
            } else {
                Err(ParseErrorView::Lexical)
            },
        },
    }
}

/// Once a line does not start in `source`, no later line does.
pub proof fn lemma_no_later_line(source: Seq<char>, missing: int, line: int)
    requires
        1 <= missing <= line,
        line_start(source, missing) is None,
    ensures
        line_start(source, line) is None,
    decreases line - missing,
{
    if missing < line {
        lemma_no_later_line(source, missing, line - 1);
    }
}

/// Where each line of the text starts: the entry at `i` is the start of
/// line `i + 1`.
fn line_starts(chars: &Vec<char>) -> (starts: Vec<usize>)
    ensures
        starts.len() >= 1,
        forall|i: int|
            0 <= i < starts.len() ==> starts[i] <= chars.len() && line_start(chars@, i + 1)
                == Some(starts[i] as int),
        line_start(chars@, starts.len() + 1) is None,
{
    let mut starts: Vec<usize> = Vec::new();
    starts.push(0);
    let mut i: usize = 0;
    while i < chars.len()
        invariant
            i <= chars.len(),
            starts.len() >= 1,
            starts[starts.len() - 1] <= i,
            forall|j: int|
                0 <= j < starts.len() ==> starts[j] <= chars.len() && line_start(chars@, j + 1)
                    == Some(starts[j] as int),
            forall|j: int| starts[starts.len() - 1] <= j < i ==> chars[j] != '\n',
        decreases chars.len() - i,
    {
        if chars[i] == '\n' {
            let ghost last = starts[starts.len() - 1] as int;
            proof {
                let rest = chars@.skip(last);
                crate::text::lemma_first_index_of(rest, '\n');
                assert(rest[i - last] == '\n');
                assert forall|j: int| 0 <= j < i - last implies rest[j] != '\n' by {
                    assert(rest[j] == chars[last + j]);
                }
                assert(crate::text::first_index_of(rest, '\n') == Some(i - last));
                assert(line_start(chars@, starts.len() + 1) == Some(i + 1));
            }
            starts.push(i + 1);
        }
        i += 1;
    }
    proof {
        let last = starts[starts.len() - 1] as int;
        let rest = chars@.skip(last);
        crate::text::lemma_first_index_of(rest, '\n');
        assert forall|j: int| 0 <= j < rest.len() implies rest[j] != '\n' by {
            assert(rest[j] == chars[last + j]);
        }
    }
    starts
}

/// The place of the column `column` of the line `line`.
fn place_of(chars: &Vec<char>, starts: &Vec<usize>, line: usize, column: usize) -> (found: Option<
    usize,
>)
    requires
        starts.len() >= 1,
        forall|i: int|
            0 <= i < starts.len() ==> starts[i] <= chars.len() && line_start(chars@, i + 1)
                == Some(starts[i] as int),
        line_start(chars@, starts.len() + 1) is None,
    ensures
        match found {
            Some(at) => place(chars@, line, column) == Some(at as int) && at <= chars.len(),
            None => place(chars@, line, column) is None,
        },
{
    if line < 1 {
        return None;
    }
    if line > starts.len() {
        proof {
            lemma_no_later_line(chars@, starts.len() + 1, line as int);
        }
        return None;
    }
    let start = starts[line - 1];
    if column <= chars.len() - start {
        Some(start + column)
    } else {
        None
    }
}

/// The brackets that `open` and `close` are, if they are a pair.
fn delimiter_for(open: char, close: char) -> (found: Option<Delimiter>)
    ensures
        found == delimiter_of(open, close),
{
    if open == '(' && close == ')' {
        Some(Delimiter::Parenthesis)
    } else if open == '{' && close == '}' {
        Some(Delimiter::Brace)
    } else if open == '[' && close == ']' {
        Some(Delimiter::Bracket)
    } else {
        None
    }
}

/// The views of tokens, or the error.
pub open spec fn tokens_result_view(result: Result<Vec<Token>, ParseError>) -> Result<
    Seq<TokenView>,
    ParseErrorView,
> {
    match result {
        Ok(tokens) => Ok(crate::tokens::tokens_view(tokens@)),
        Err(error) => Err(error@),
    }
}

/// The view of a token, or the error.
pub open spec fn token_result_view(result: Result<Token, ParseError>) -> Result<
    TokenView,
    ParseErrorView,
> {
    match result {
        Ok(token) => Ok(token@),
        Err(error) => Err(error@),
    }
}

/// Cuts the text of a template into its tokens.
pub fn tokenize(source: &str) -> (tokens: Result<Vec<Token>, ParseError>)
    ensures
        tokens_result_view(tokens) == tokenized(source@),
    decreases source@.len(), 2nat,
{
    if !crate::text::fits(source) {
        return Err(ParseError::Lexical);
    }
    let list = match lex(source) {
        None => {
            return Err(ParseError::Lexical);
        },
        Some(list) => list,
    };
    let chars = chars_of(source);
    let starts = line_starts(&chars);
    let ghost told = list@;
    let mut tokens: Vec<Token> = Vec::new();
    let mut i: usize = 0;
    proof {
        assert(told.skip(0) =~= told);
        assert(crate::tokens::tokens_view(tokens@) =~= Seq::empty());
        match tokens_from(chars@, told) {
            Ok(back) => {
                assert(Seq::<TokenView>::empty() + back =~= back);
            },
            Err(_) => {},
        }
    }
    while i < list.len()
        invariant
            i <= list.len(),
            told == list@,
            lexemes(source@) == Some(told),
            chars@ == source@,
            chars.len() <= crate::text::TEXT_LIMIT,
            starts.len() >= 1,
            forall|j: int|
                0 <= j < starts.len() ==> starts[j] <= chars.len() && line_start(chars@, j + 1)
                    == Some(starts[j] as int),
            line_start(chars@, starts.len() + 1) is None,
            tokens_from(chars@, told) == crate::parser::followed_by(
                crate::tokens::tokens_view(tokens@),
                tokens_from(chars@, told.skip(i as int)),
            ),
        decreases list.len() - i,
    {
        let ghost before = crate::tokens::tokens_view(tokens@);
        proof {
            assert(told.skip(i as int).first() == list[i as int]);
            assert(told.skip(i as int).skip(1) =~= told.skip(i + 1));
        }
        match token_of(source, &chars, &starts, &list[i]) {
            Err(error) => {
                return Err(error);
            },
            Ok(token) => {
                let ghost added = token@;
                tokens.push(token);
                proof {
                    assert(crate::tokens::tokens_view(tokens@) =~= before + seq![added]);
                    match tokens_from(chars@, told.skip(i + 1)) {
                        Ok(back) => {
                            assert(before + (seq![added] + back) =~= (before + seq![added]) + back);
                        },
                        Err(_) => {},
                    }
                }
            },
        }
        i += 1;
    }
    assert(crate::tokens::tokens_view(tokens@) + Seq::<TokenView>::empty()
        =~= crate::tokens::tokens_view(tokens@));
    Ok(tokens)
}

/// The character at `at`.
fn char_at(chars: &Vec<char>, at: usize) -> (c: char)
    requires
        at < chars.len(),
    ensures
        c == chars[at as int],
{
    chars[at]
}

/// The view of the kind of a token, or the error.
pub open spec fn kind_result_view(result: Result<TokenKind, ParseError>) -> Result<
    TokenKindView,
    ParseErrorView,
> {
    match result {
        Ok(kind) => Ok(kind@),
        Err(error) => Err(error@),
    }
}

/// What a token with the source text `text` is, given the kind that the
/// tokenizer tells.
fn kind_of(text: &str, told: LexemeKind) -> (kind: Result<TokenKind, ParseError>)
    requires
        0 < text@.len() <= crate::text::TEXT_LIMIT,
    ensures
        kind_result_view(kind) == kind_from(text@, told),
    decreases text@.len(), 0nat,
{
    match told {
        LexemeKind::Ident => Ok(TokenKind::Ident),
        LexemeKind::Punct => {
            let chars = chars_of(text);
            let c = char_at(&chars, 0);
            Ok(TokenKind::Punct(c))
        },
        LexemeKind::Literal => match string_literal(text) {
            Some(value) => Ok(TokenKind::Str(value)),
            None => Ok(TokenKind::Literal),
        },
        LexemeKind::Group => {
            let chars = chars_of(text);
            if chars.len() < 2 {
                return Err(ParseError::Lexical);
            }
            let open = char_at(&chars, 0);
            let close = char_at(&chars, chars.len() - 1);
            let delimiter = match delimiter_for(open, close) {
                None => {
                    return Err(ParseError::Lexical);
                },
                Some(delimiter) => delimiter,
            };
            let inner = substring(&chars, 1, chars.len() - 1);
            match tokenize(inner.as_str()) {
                Err(error) => Err(error),
                Ok(tokens) => Ok(TokenKind::Group(delimiter, tokens)),
            }
        },
    }
}

/// The token of `source` that the tokenizer tells as `lexeme`.
fn token_of(source: &str, chars: &Vec<char>, starts: &Vec<usize>, lexeme: &Lexeme) -> (token: Result<
    Token,
    ParseError,
>)
    requires
        chars@ == source@,
        chars.len() <= crate::text::TEXT_LIMIT,
        starts.len() >= 1,
        forall|i: int|
            0 <= i < starts.len() ==> starts[i] <= chars.len() && line_start(chars@, i + 1)
                == Some(starts[i] as int),
        line_start(chars@, starts.len() + 1) is None,
    ensures
        token_result_view(token) == token_from(source@, *lexeme),
    decreases source@.len(), 1nat,
{
    let start = match place_of(chars, starts, lexeme.start_line, lexeme.start_column) {
        None => {
            return Err(ParseError::Lexical);
        },
        Some(at) => at,
    };
    let end = match place_of(chars, starts, lexeme.end_line, lexeme.end_column) {
        None => {
            return Err(ParseError::Lexical);
        },
        Some(at) => at,
    };
    if start >= end {
        return Err(ParseError::Lexical);
    }
    let text = substring(chars, start, end);
    match kind_of(text.as_str(), lexeme.kind) {
        Err(error) => Err(error),
        Ok(kind) => Ok(
            Token {
                kind,
                text,
                start,
                end,
                first_line: lexeme.start_line,
                last_line: lexeme.end_line,
            },
        ),
    }
}

} // verus!
