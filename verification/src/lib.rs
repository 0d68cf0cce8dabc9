//! HTML templating: markup with embedded expressions is parsed into a tree of
//! typed nodes, evaluated against a context into a fragment, and the fragment
//! is serialized to escaped HTML text.
//!
//! ```text
//! source text -> tokens -> nodes -> fragment -> HTML text
//! ```
//!
//! [`html`] does the first three steps at once; [`HtmlFragment::to_html`]
//! does the last.
//!
//! The expressions in a template are host code. The library keeps each as
//! its source text and hands it to an [`Evaluator`], which also resolves the
//! components that the template calls. [`Literals`] is the evaluator of
//! templates that hold nothing to evaluate but string literals:
//!
//! ```text
//! let page = html(r#"<p class="note">"Tom & Jerry"</p>"#, &Literals)?;
//! assert_eq!(page.to_html(), r#"<p class="note">Tom &amp; Jerry</p>"#);
//! ```
//!
//! What each step gives is stated as a function of what it is given:
//! `tokenized`, `parsed_nodes`, `rendered_nodes` and `nodes_html`. The
//! modules `generator` and `literal` hold what follows from that: a node
//! whose `:if` fails renders to nothing, a `:for` renders the single renders
//! of its items in order, the order of the props of a component call does
//! not matter, and a template without host code comes back as written.

use vstd::prelude::*;

pub mod attributes;
pub mod component;
pub mod context;
pub mod error;
pub mod escape;
pub mod fragment;
pub mod generator;
pub mod lexer;
pub mod literal;
pub mod nodes;
pub mod parser;
pub mod prelude;
pub mod signature;
pub mod text;
pub mod tokens;
pub mod utils;
pub mod validate;

pub use crate::context::{Binding, Evaluator, Literals, Prop, PropValue, PropValues};
pub use crate::error::{Error, ParseError, RenderError, RenderErrorKind};
pub use crate::escape::{escape_attribute, escape_text};
pub use crate::fragment::{
    Attribute, ElementData, ElementDataIter, ElementDataIterMut, HtmlFragment, Node,
};

verus! {

/// The nodes of the template `source`, or the error that ends its parse:
/// the source is cut into tokens, the tokens are parsed into nodes, and the
/// host code in the nodes is checked.
pub open spec fn parsed_template(source: Seq<char>) -> Result<
    Seq<crate::nodes::NodeView>,
    crate::error::ParseErrorView,
> {
    match crate::lexer::tokenized(source) {
        Err(error) => Err(error),
        Ok(tokens) => match crate::parser::parsed_nodes(tokens, 0) {
            Err(error) => Err(error),
            Ok(nodes) => match crate::validate::nodes_fault(nodes) {
                Some(fault) => Err(fault),
                None => Ok(nodes),
            },
        },
    }
}

/// The nodes that the template `source` renders to against `evaluator`, or
/// the error that ends its parse or its rendering.
pub open spec fn html_of<E: Evaluator>(evaluator: &E, source: Seq<char>) -> Result<
    Seq<crate::fragment::NodeView>,
    crate::error::ErrorView,
> {
    match parsed_template(source) {
        Err(error) => Err(crate::error::ErrorView::Parse(error)),
        Ok(nodes) => match crate::generator::rendered_nodes(evaluator, nodes, Seq::empty()) {
            Err(error) => Err(crate::error::ErrorView::Render(error)),
            Ok(rendered) => Ok(rendered),
        },
    }
}

/// The nodes of a rendered template, or the error.
pub open spec fn html_result_view(result: Result<HtmlFragment, Error>) -> Result<
    Seq<crate::fragment::NodeView>,
    crate::error::ErrorView,
> {
    match result {
        Ok(fragment) => Ok(fragment@),
        Err(error) => Err(error@),
    }
}

/// Parses the text of a template into its nodes.
pub fn parse_template(source: &str) -> (parsed: Result<crate::nodes::NodeCollection, ParseError>)
    ensures
        crate::parser::collection_result_view(parsed) == parsed_template(source@),
{
    match crate::lexer::tokenize(source) {
        Err(error) => Err(error),
        Ok(tokens) => match crate::parser::parse(&tokens) {
            Err(error) => Err(error),
            Ok(nodes) => match crate::validate::validate(&nodes) {
                Err(error) => Err(error),
                Ok(_) => Ok(nodes),
            },
        },
    }
}

/// Parses the text of a template and renders it against `evaluator`.
pub fn html<E: Evaluator>(source: &str, evaluator: &E) -> (rendered: Result<HtmlFragment, Error>)
    ensures
        html_result_view(rendered) == html_of(evaluator, source@),
{
    match parse_template(source) {
        Err(error) => Err(Error::Parse(error)),
        Ok(nodes) => match crate::generator::generate_nodes(&nodes, evaluator) {
            Err(error) => Err(Error::Render(error)),
            Ok(fragment) => Ok(fragment),
        },
    }
}

} // verus!
