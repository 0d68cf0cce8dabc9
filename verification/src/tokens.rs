//! The tokens that a template is made of. A group between braces, brackets
//! or parentheses is one token that holds the tokens inside it.

use vstd::prelude::*;

verus! {

/// The brackets of a group.
#[derive(Debug, Clone, Copy, PartialEq, Eq)]
pub enum Delimiter {
    Parenthesis,
    Brace,
    Bracket,
}

/// What kind of token a token is, with what only that kind has.
#[derive(Debug)]
pub enum TokenKind {
    /// An identifier or a keyword.
    Ident,
    /// One character of punctuation.
    Punct(char),
    /// A literal that is no string: a number, a character, a byte string.
    Literal,
    /// A string literal, with the string that it stands for.
    Str(String),
    /// A group, with the tokens between its brackets. Their places count
    /// from the first character after the opening bracket.
    Group(Delimiter, Vec<Token>),
}

/// One token, with its source text and its place in the text that was
/// tokenized: the characters from `start` up to, not including, `end`, on
/// the lines from `first_line` to `last_line`.
#[derive(Debug)]
pub struct Token {
    pub kind: TokenKind,
    pub text: String,
    pub start: usize,
    pub end: usize,
    pub first_line: usize,
    pub last_line: usize,
}

/// The mathematical value of a [`TokenKind`].
pub enum TokenKindView {
    Ident,
    Punct(char),
    Literal,
    Str(Seq<char>),
    Group(Delimiter, Seq<TokenView>),
}

/// The mathematical value of a [`Token`].
pub struct TokenView {
    pub kind: TokenKindView,
    pub text: Seq<char>,
    pub start: usize,
    pub end: usize,
    pub first_line: usize,
    pub last_line: usize,
}

/// The values of a sequence of tokens, in order.
pub open spec fn tokens_view(tokens: Seq<Token>) -> Seq<TokenView>
    decreases tokens,
{
    Seq::new(
        tokens.len(),
        |i: int|
            if 0 <= i < tokens.len() {
                token_view(tokens[i])
            } else {
                TokenView {
                    kind: TokenKindView::Literal,
                    text: Seq::empty(),
                    start: 0,
                    end: 0,
                    first_line: 0,
                    last_line: 0,
                }
            },
    )
}

/// The value of the kind of a token.
pub open spec fn kind_view(kind: TokenKind) -> TokenKindView
    decreases kind,
{
    match kind {
        TokenKind::Ident => TokenKindView::Ident,
        TokenKind::Punct(c) => TokenKindView::Punct(c),
        TokenKind::Literal => TokenKindView::Literal,
        TokenKind::Str(value) => TokenKindView::Str(value@),
        TokenKind::Group(delimiter, inner) => TokenKindView::Group(delimiter, tokens_view(inner@)),
    }
}

/// The value of a token.
pub open spec fn token_view(token: Token) -> TokenView
    decreases token,
{
    TokenView {
        kind: kind_view(token.kind),
        text: token.text@,
        start: token.start,
        end: token.end,
        first_line: token.first_line,
        last_line: token.last_line,
    }
}

impl View for TokenKind {
    type V = TokenKindView;

    open spec fn view(&self) -> TokenKindView {
        kind_view(*self)
    }
}

impl View for Token {
    type V = TokenView;

    open spec fn view(&self) -> TokenView {
        token_view(*self)
    }
}

/// Whether the token at `at` is the punctuation character `c`.
pub open spec fn is_punct(tokens: Seq<TokenView>, at: int, c: char) -> bool {
    0 <= at < tokens.len() && tokens[at].kind == TokenKindView::Punct(c)
}

/// Whether the token at `at` is an identifier or a keyword.
pub open spec fn is_ident(tokens: Seq<TokenView>, at: int) -> bool {
    0 <= at < tokens.len() && tokens[at].kind is Ident
}

/// Whether the token at `at` is the identifier or keyword `word`.
pub open spec fn is_word(tokens: Seq<TokenView>, at: int, word: Seq<char>) -> bool {
    is_ident(tokens, at) && tokens[at].text == word
}

/// Whether the token at `at` is a string literal.
pub open spec fn is_str(tokens: Seq<TokenView>, at: int) -> bool {
    0 <= at < tokens.len() && tokens[at].kind is Str
}

/// Whether the token at `at` is a group between braces.
pub open spec fn is_brace_group(tokens: Seq<TokenView>, at: int) -> bool {
    0 <= at < tokens.len() && tokens[at].kind is Group && tokens[at].kind->Group_0
        == Delimiter::Brace
}

} // verus!
