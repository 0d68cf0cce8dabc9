//! What can go wrong while a template is parsed or rendered.

use vstd::prelude::*;
use vstd::string::StringExecFns;

verus! {

/// Why a template could not be parsed. Nothing is parsed of a template
/// with an error in it.
#[derive(Debug)]
pub enum ParseError {
    /// The source is not a sequence of tokens: a brace, bracket or
    /// parenthesis without its partner, a string without its end, or a
    /// character that starts no token.
    Lexical,
    /// A closing tag that does not name the tag that is open.
    MismatchedClosingTag { expected: String, found: String },
    /// The template ended, or went on with something else, where the
    /// closing tag of `tag` had to come.
    UnclosedTag { tag: String },
    /// `<!` that is not followed by `doctype html>`.
    InvalidDoctype,
    /// No tag, string, brace group or text where a node had to come, or a
    /// tag that is not ended by `>` or `/>`.
    UnexpectedToken,
    /// An attribute without a name.
    InvalidAttributeName,
    /// `=` that is not followed by a string or a brace group.
    InvalidAttributeValue,
    /// A string with a `{` that no `}` follows, or with a single `}`.
    UnterminatedInterpolation,
    /// A `:for` that is not followed by `=` and a brace group of the form
    /// `pattern in collection`.
    MalformedForPattern,
    /// An `:if` that is not followed by `=` and a brace group.
    MalformedIf,
    /// A brace group with nothing in it where an expression had to come.
    EmptyExpression,
    /// What stands where an expression had to come is no expression of
    /// the host language.
    InvalidExpression { source: String },
}

/// The mathematical value of a [`ParseError`].
pub enum ParseErrorView {
    Lexical,
    MismatchedClosingTag { expected: Seq<char>, found: Seq<char> },
    UnclosedTag { tag: Seq<char> },
    InvalidDoctype,
    UnexpectedToken,
    InvalidAttributeName,
    InvalidAttributeValue,
    UnterminatedInterpolation,
    MalformedForPattern,
    MalformedIf,
    EmptyExpression,
    InvalidExpression { source: Seq<char> },
}

impl View for ParseError {
    type V = ParseErrorView;

    open spec fn view(&self) -> ParseErrorView {
        match *self {
            ParseError::Lexical => ParseErrorView::Lexical,
            ParseError::MismatchedClosingTag { expected, found } => {
                ParseErrorView::MismatchedClosingTag { expected: expected@, found: found@ }
            },
            ParseError::UnclosedTag { tag } => ParseErrorView::UnclosedTag { tag: tag@ },
            ParseError::InvalidDoctype => ParseErrorView::InvalidDoctype,
            ParseError::UnexpectedToken => ParseErrorView::UnexpectedToken,
            ParseError::InvalidAttributeName => ParseErrorView::InvalidAttributeName,
            ParseError::InvalidAttributeValue => ParseErrorView::InvalidAttributeValue,
            ParseError::UnterminatedInterpolation => ParseErrorView::UnterminatedInterpolation,
            ParseError::MalformedForPattern => ParseErrorView::MalformedForPattern,
            ParseError::MalformedIf => ParseErrorView::MalformedIf,
            ParseError::EmptyExpression => ParseErrorView::EmptyExpression,
            ParseError::InvalidExpression { source } => {
                ParseErrorView::InvalidExpression { source: source@ }
            },
        }
    }
}

/// What a parse error says to the user: it names what was expected, and
/// the tags or the expression at fault.
pub open spec fn parse_message(error: ParseErrorView) -> Seq<char> {
    match error {
        ParseErrorView::Lexical => "Cannot cut the template into tokens"@,
        ParseErrorView::MismatchedClosingTag { expected, found } => "Expected closing tag "@
            + expected + ", found "@ + found,
        ParseErrorView::UnclosedTag { tag } => "Expected closing tag "@ + tag,
        ParseErrorView::InvalidDoctype => "Expected <!doctype html>"@,
        ParseErrorView::UnexpectedToken => "Expected a node"@,
        ParseErrorView::InvalidAttributeName => "Expected a valid attribute name"@,
        ParseErrorView::InvalidAttributeValue => "Expected a string or a brace group as attribute value"@,
        ParseErrorView::UnterminatedInterpolation => "Unmatched brace in interpolated string"@,
        ParseErrorView::MalformedForPattern => "Expected a pattern, `in` and a collection in braces after :for"@,
        ParseErrorView::MalformedIf => "Expected a condition in braces after :if"@,
        ParseErrorView::EmptyExpression => "Expected an expression in braces"@,
        ParseErrorView::InvalidExpression { source } => "Expected an expression, found "@ + source,
    }
}

impl ParseError {
    /// What the error says to the user.
    pub fn to_string(&self) -> (message: String)
        ensures
            message@ == parse_message(self@),
    {
        match self {
            ParseError::Lexical => String::from_str("Cannot cut the template into tokens"),
            ParseError::MismatchedClosingTag { expected, found } => {
                let mut message = String::from_str("Expected closing tag ");
                message.append(expected.as_str());
                message.append(", found ");
                message.append(found.as_str());
                message
            },
            ParseError::UnclosedTag { tag } => {
                let mut message = String::from_str("Expected closing tag ");
                message.append(tag.as_str());
                message
            },
            ParseError::InvalidDoctype => String::from_str("Expected <!doctype html>"),
            ParseError::UnexpectedToken => String::from_str("Expected a node"),
            ParseError::InvalidAttributeName => String::from_str("Expected a valid attribute name"),
            ParseError::InvalidAttributeValue => String::from_str(
                "Expected a string or a brace group as attribute value",
            ),
            ParseError::UnterminatedInterpolation => String::from_str(
                "Unmatched brace in interpolated string",
            ),
            ParseError::MalformedForPattern => String::from_str(
                "Expected a pattern, `in` and a collection in braces after :for",
            ),
            ParseError::MalformedIf => String::from_str("Expected a condition in braces after :if"),
            ParseError::EmptyExpression => String::from_str("Expected an expression in braces"),
            ParseError::InvalidExpression { source } => {
                let mut message = String::from_str("Expected an expression, found ");
                message.append(source.as_str());
                message
            },
        }
    }
}

/// The kind of a [`RenderError`].
#[derive(Debug, Clone, Copy, PartialEq, Eq)]
pub enum RenderErrorKind {
    /// An embedded expression could not be evaluated. The subject is what
    /// the evaluator says of it.
    Expression,
    /// A component could not be resolved or failed. The subject is what
    /// the evaluator says of it.
    Component,
    /// A prop of a component call whose name is an expression, or is no
    /// identifier. The subject is the component's name.
    PropName,
    /// A text literal with a `{` that no `}` follows, or with a single
    /// `}`. The subject is the literal.
    Interpolation,
}

/// Why a template could not be rendered. Nothing is rendered of a template
/// with an error in it.
#[derive(Debug)]
pub struct RenderError {
    pub kind: RenderErrorKind,
    pub subject: String,
}

/// The mathematical value of a [`RenderError`].
pub struct RenderErrorView {
    pub kind: RenderErrorKind,
    pub subject: Seq<char>,
}

impl View for RenderError {
    type V = RenderErrorView;

    open spec fn view(&self) -> RenderErrorView {
        RenderErrorView { kind: self.kind, subject: self.subject@ }
    }
}

/// What a render error says to the user: it names the expression, the
/// component or the text at fault.
pub open spec fn render_message(error: RenderErrorView) -> Seq<char> {
    match error.kind {
        RenderErrorKind::Expression => "Cannot evaluate "@ + error.subject,
        RenderErrorKind::Component => "Cannot call the component "@ + error.subject,
        RenderErrorKind::PropName => "Expected identifiers as names of the props of "@
            + error.subject,
        RenderErrorKind::Interpolation => "Unmatched brace in the text "@ + error.subject,
    }
}

impl RenderError {
    /// What the error says to the user.
    pub fn to_string(&self) -> (message: String)
        ensures
            message@ == render_message(self@),
    {
        let mut message = match self.kind {
            RenderErrorKind::Expression => String::from_str("Cannot evaluate "),
            RenderErrorKind::Component => String::from_str("Cannot call the component "),
            RenderErrorKind::PropName => String::from_str(
                "Expected identifiers as names of the props of ",
            ),
            RenderErrorKind::Interpolation => String::from_str("Unmatched brace in the text "),
        };
        message.append(self.subject.as_str());
        message
    }
}

/// Why `html` could not turn a template into a fragment.
#[derive(Debug)]
pub enum Error {
    Parse(ParseError),
    Render(RenderError),
}

/// The mathematical value of an [`Error`].
pub enum ErrorView {
    Parse(ParseErrorView),
    Render(RenderErrorView),
}

impl View for Error {
    type V = ErrorView;

    open spec fn view(&self) -> ErrorView {
        match *self {
            Error::Parse(error) => ErrorView::Parse(error@),
            Error::Render(error) => ErrorView::Render(error@),
        }
    }
}

impl Error {
    /// What the error says to the user: what the parse error or the render
    /// error in it says.
    pub fn to_string(&self) -> (message: String)
        ensures
            message@ == match self@ {
                ErrorView::Parse(error) => parse_message(error),
                ErrorView::Render(error) => render_message(error),
            },
    {
        match self {
            Error::Parse(error) => error.to_string(),
            Error::Render(error) => error.to_string(),
        }
    }
}

} // verus!
