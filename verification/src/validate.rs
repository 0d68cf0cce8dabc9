//! The host code in a template: whether each expression and each loop
//! pattern is one of the host language, Rust.

use vstd::prelude::*;
use vstd::string::StringExecFns;
use crate::attributes::{
    AttrName, AttrNameView, AttrValue, AttrValueView, Attribute, AttributeView,
    InterpolatedSegment, InterpolatedSegmentView,
};
use crate::error::{ParseError, ParseErrorView};
use crate::nodes::{Node, NodeCollection, NodeView};
use crate::text::{chars_of, find_char, substring};

verus! {

/// Whether `source` is an expression of the host language: whether
/// `syn::parse_str` reads a `syn::Expr` from it.
pub uninterp spec fn is_host_expression(source: Seq<char>) -> bool;

/// Whether `source` is a pattern of the host language without `|` at its
/// top: whether `syn::Pat::parse_single` reads a pattern from all of it.
pub uninterp spec fn is_host_pattern(source: Seq<char>) -> bool;

/// Whether `source` is an expression of the host language. Calls
/// `syn::parse_str` for a `syn::Expr`; then it gives up the spans of this
/// thread. The contract gives the result a name and says nothing more. It
/// leaves out the texts that are too long for `proc_macro2`, which `syn`
/// calls, to count their characters.
#[verifier::external_body]
fn host_expression(source: &str) -> (yes: bool)
    requires
        source@.len() <= crate::text::TEXT_LIMIT,
    ensures
        yes == is_host_expression(source@),
{
    let yes = syn::parse_str::<syn::Expr>(source).is_ok();
    proc_macro2::extra::invalidate_current_thread_spans();
    yes
}

/// Whether `source` is a pattern of the host language. Calls
/// `syn::Pat::parse_single` through `syn::parse::Parser::parse_str`; then
/// it gives up the spans of this thread. The contract gives the result a
/// name and says nothing more. It leaves out the texts that are too long
/// for `proc_macro2`, which `syn` calls, to count their characters.
#[verifier::external_body]
fn host_pattern(source: &str) -> (yes: bool)
    requires
        source@.len() <= crate::text::TEXT_LIMIT,
    ensures
        yes == is_host_pattern(source@),
{
    let yes = syn::parse::Parser::parse_str(syn::Pat::parse_single, source).is_ok();
    proc_macro2::extra::invalidate_current_thread_spans();
    yes
}

/// The error of what is no expression.
pub open spec fn invalid(source: Seq<char>) -> ParseErrorView {
    ParseErrorView::InvalidExpression { source }
}

/// Whether `source` is an expression of the host language that is not too
/// long to be read.
pub open spec fn is_expression(source: Seq<char>) -> bool {
    source.len() <= crate::text::TEXT_LIMIT && is_host_expression(source)
}

/// Whether `source` is a pattern of the host language that is not too long
/// to be read.
pub open spec fn is_pattern(source: Seq<char>) -> bool {
    source.len() <= crate::text::TEXT_LIMIT && is_host_pattern(source)
}

/// The first fault of `source` as an expression.
pub open spec fn expression_fault(source: Seq<char>) -> Option<ParseErrorView> {
    if is_expression(source) {
        None
    } else {
        Some(invalid(source))
    }
}

/// `first`, or `then` where `first` is no fault.
pub open spec fn or_else(first: Option<ParseErrorView>, then: Option<ParseErrorView>) -> Option<
    ParseErrorView,
> {
    match first {
        Some(fault) => Some(fault),
        None => then,
    }
}

/// The first fault among the expressions of a text literal, from `rest`
/// on: the text between a `{` and the next `}` is an expression, a doubled
/// brace holds none.
pub open spec fn text_fault(rest: Seq<char>) -> Option<ParseErrorView>
    decreases rest.len(),
{
    if rest.len() == 0 {
        None
    } else if rest[0] == '{' && !(rest.len() > 1 && rest[1] == '{') {
        proof {
            crate::text::lemma_first_index_of(rest.skip(1), '}');
        }
        match crate::text::first_index_of(rest.skip(1), '}') {
            None => None,
            Some(close) => or_else(
                expression_fault(rest.subrange(1, 1 + close)),
                text_fault(rest.skip(close + 2)),
            ),
        }
    } else if (rest[0] == '{' || rest[0] == '}') && rest.len() > 1 && rest[1] == rest[0] {
        text_fault(rest.skip(2))
    } else {
        text_fault(rest.skip(1))
    }
}

/// The first fault among the expressions of an interpolated string.
pub open spec fn segments_fault(segments: Seq<InterpolatedSegmentView>) -> Option<ParseErrorView>
    decreases segments.len(),
{
    if segments.len() == 0 {
        None
    } else {
        or_else(
            match segments.first() {
                InterpolatedSegmentView::Str(_) => None,
                InterpolatedSegmentView::Expr(source) => expression_fault(source),
            },
            segments_fault(segments.skip(1)),
        )
    }
}

/// The first fault of an attribute: in a regular attribute that of its
/// name, then that of its value; in a `:for` that of its pattern, then that
/// of its collection; in an `:if` that of its condition.
pub open spec fn attribute_fault(attribute: AttributeView) -> Option<ParseErrorView> {
    match attribute {
        AttributeView::RegularAttribute(regular) => or_else(
            match regular.name {
                AttrNameView::Literal(_) => None,
                AttrNameView::Expression(source) => expression_fault(source),
            },
            match regular.value {
                None => None,
                Some(AttrValueView::Literal(_)) => None,
                Some(AttrValueView::Expression(source)) => expression_fault(source),
                Some(AttrValueView::Interpolated(segments)) => segments_fault(segments),
            },
        ),
        AttributeView::For(for_expr) => if !is_pattern(for_expr.pat) {
            Some(ParseErrorView::MalformedForPattern)
        } else {
            expression_fault(for_expr.collection)
        },
        AttributeView::If(condition) => expression_fault(condition),
    }
}

/// The first fault among attributes, in the order written.
pub open spec fn attributes_fault(attributes: Seq<AttributeView>) -> Option<ParseErrorView>
    decreases attributes.len(),
{
    if attributes.len() == 0 {
        None
    } else {
        or_else(attribute_fault(attributes.first()), attributes_fault(attributes.skip(1)))
    }
}

/// The first fault among nodes, in the order written.
pub open spec fn nodes_fault(nodes: Seq<NodeView>) -> Option<ParseErrorView>
    decreases nodes,
{
    if nodes.len() == 0 {
        None
    } else {
        or_else(node_fault(nodes.first()), nodes_fault(nodes.skip(1)))
    }
}

/// The first fault of a node: that of its expression, or in a tag or a
/// component call the first among its attributes and then among its
/// children.
pub open spec fn node_fault(node: NodeView) -> Option<ParseErrorView>
    decreases node,
{
    match node {
        NodeView::DocType => None,
        NodeView::BareText(_) => None,
        NodeView::Text(literal) => text_fault(literal),
        NodeView::Expression(source) => expression_fault(source),
        NodeView::UnescapedExpression(source) => expression_fault(source),
        NodeView::Element(tag) => or_else(
            attributes_fault(tag.attributes),
            nodes_fault(tag.children),
        ),
        NodeView::Component(component) => or_else(
            attributes_fault(component.props),
            nodes_fault(component.children),
        ),
    }
}

/// The view of a fault that was found, if one was.
pub open spec fn fault_view(result: Result<(), ParseError>) -> Option<ParseErrorView> {
    match result {
        Ok(_) => None,
        Err(error) => Some(error@),
    }
}

fn check_expression(source: &str) -> (checked: Result<(), ParseError>)
    ensures
        fault_view(checked) == expression_fault(source@),
{
    if crate::text::fits(source) && host_expression(source) {
        Ok(())
    } else {
        Err(ParseError::InvalidExpression { source: String::from_str(source) })
    }
}

fn check_text(literal: &str) -> (checked: Result<(), ParseError>)
    ensures
        fault_view(checked) == text_fault(literal@),
{
    let chars = chars_of(literal);
    let mut i: usize = 0;
    assert(chars@.skip(0) =~= chars@);
    while i < chars.len()
        invariant
            i <= chars.len(),
            chars@ == literal@,
            text_fault(chars@) == text_fault(chars@.skip(i as int)),
        decreases chars.len() - i,
    {
        let ghost rest = chars@.skip(i as int);
        let c = chars[i];
        let doubled = i + 1 < chars.len() && chars[i + 1] == c;
        proof {
            assert(rest[0] == c);
            if i + 1 < chars.len() {
                assert(rest[1] == chars[i + 1]);
                assert(rest.skip(2) =~= chars@.skip(i + 2));
            }
            assert(rest.skip(1) =~= chars@.skip(i + 1));
        }
        if c == '{' && !doubled {
            match find_char(&chars, i + 1, '}') {
                None => {
                    return Ok(());
                },
                Some(close) => {
                    let source = substring(&chars, i + 1, close);
                    proof {
                        assert(rest.subrange(1, 1 + (close - (i + 1))) =~= chars@.subrange(
                            i + 1,
                            close as int,
                        ));
                        assert(rest.skip((close - (i + 1)) + 2) =~= chars@.skip(close + 1));
                    }
                    match check_expression(source.as_str()) {
                        Err(error) => {
                            return Err(error);
                        },
                        Ok(_) => {},
                    }
                    i = close + 1;
                },
            }
        } else if (c == '{' || c == '}') && doubled {
            i += 2;
        } else {
            i += 1;
        }
    }
    Ok(())
}

fn check_segments(segments: &Vec<InterpolatedSegment>) -> (checked: Result<(), ParseError>)
    ensures
        fault_view(checked) == segments_fault(crate::attributes::segments_view(segments@)),
{
    let ghost view = crate::attributes::segments_view(segments@);
    let mut i: usize = 0;
    assert(view.skip(0) =~= view);
    while i < segments.len()
        invariant
            i <= segments.len(),
            view == crate::attributes::segments_view(segments@),
            segments_fault(view) == segments_fault(view.skip(i as int)),
        decreases segments.len() - i,
    {
        proof {
            assert(view.skip(i as int).first() == segments[i as int]@);
            assert(view.skip(i as int).skip(1) =~= view.skip(i + 1));
        }
        match &segments[i] {
            InterpolatedSegment::Str(_) => {},
            InterpolatedSegment::Expr(source) => match check_expression(source.as_str()) {
                Err(error) => {
                    return Err(error);
                },
                Ok(_) => {},
            },
        }
        i += 1;
    }
    Ok(())
}

fn check_attribute(attribute: &Attribute) -> (checked: Result<(), ParseError>)
    ensures
        fault_view(checked) == attribute_fault(attribute@),
{
    match attribute {
        Attribute::RegularAttribute(regular) => {
            match &regular.name {
                AttrName::Literal(_) => {},
                AttrName::Expression(source) => match check_expression(source.as_str()) {
                    Err(error) => {
                        return Err(error);
                    },
                    Ok(_) => {},
                },
            }
            match &regular.value {
                None => Ok(()),
                Some(AttrValue::Literal(_)) => Ok(()),
                Some(AttrValue::Expression(source)) => check_expression(source.as_str()),
                Some(AttrValue::Interpolated(segments)) => check_segments(segments),
            }
        },
        Attribute::For(for_expr) => {
            if !(crate::text::fits(for_expr.pat.as_str()) && host_pattern(for_expr.pat.as_str())) {
                Err(ParseError::MalformedForPattern)
            } else {
                check_expression(for_expr.collection.as_str())
            }
        },
        Attribute::If(condition) => check_expression(condition.as_str()),
    }
}

fn check_attributes(attributes: &Vec<Attribute>) -> (checked: Result<(), ParseError>)
    ensures
        fault_view(checked) == attributes_fault(crate::attributes::attributes_view(attributes@)),
{
    let ghost view = crate::attributes::attributes_view(attributes@);
    let mut i: usize = 0;
    assert(view.skip(0) =~= view);
    while i < attributes.len()
        invariant
            i <= attributes.len(),
            view == crate::attributes::attributes_view(attributes@),
            attributes_fault(view) == attributes_fault(view.skip(i as int)),
        decreases attributes.len() - i,
    {
        proof {
            assert(view.skip(i as int).first() == attributes[i as int]@);
            assert(view.skip(i as int).skip(1) =~= view.skip(i + 1));
        }
        match check_attribute(&attributes[i]) {
            Err(error) => {
                return Err(error);
            },
            Ok(_) => {},
        }
        i += 1;
    }
    Ok(())
}

fn check_nodes(nodes: &Vec<Node>) -> (checked: Result<(), ParseError>)
    ensures
        fault_view(checked) == nodes_fault(crate::nodes::nodes_view(nodes@)),
    decreases nodes,
{
    let ghost view = crate::nodes::nodes_view(nodes@);
    let mut i: usize = 0;
    assert(view.skip(0) =~= view);
    while i < nodes.len()
        invariant
            i <= nodes.len(),
            view == crate::nodes::nodes_view(nodes@),
            nodes_fault(view) == nodes_fault(view.skip(i as int)),
        decreases nodes.len() - i,
    {
        proof {
            assert(view.skip(i as int).first() == nodes[i as int]@);
            assert(view.skip(i as int).skip(1) =~= view.skip(i + 1));
        }
        match check_node(&nodes[i]) {
            Err(error) => {
                return Err(error);
            },
            Ok(_) => {},
        }
        i += 1;
    }
    Ok(())
}

fn check_node(node: &Node) -> (checked: Result<(), ParseError>)
    ensures
        fault_view(checked) == node_fault(node@),
    decreases node,
{
    match node {
        Node::DocType => Ok(()),
        Node::BareText(_) => Ok(()),
        Node::Text(literal) => check_text(literal.as_str()),
        Node::Expression(source) => check_expression(source.as_str()),
        Node::UnescapedExpression(source) => check_expression(source.as_str()),
        Node::Element(tag) => match check_attributes(&tag.attributes) {
            Err(error) => Err(error),
            Ok(_) => check_nodes(&tag.children),
        },
        Node::Component(component) => match check_attributes(&component.props) {
            Err(error) => Err(error),
            Ok(_) => check_nodes(&component.children),
        },
    }
}

/// Checks the host code of a template: every expression must be one of
/// the host language, and so must the pattern of every `:for`. The first
/// that is not, in the order written, is the error.
pub fn validate(nodes: &NodeCollection) -> (checked: Result<(), ParseError>)
    ensures
        fault_view(checked) == nodes_fault(nodes@),
{
    match nodes {
        NodeCollection::Nodes(list) => check_nodes(list),
    }
}

} // verus!
