//! The nodes of a template as they are written: tags, component calls, text
//! and embedded expressions. An embedded expression is kept as its source
//! text.

use vstd::prelude::*;
use crate::attributes::{
    first_for_of, first_if_of, regular_attributes_of, Attribute, AttributeView, ForExpr,
    RegularAttribute,
};

verus! {

/// The nodes of a template, in order.
#[derive(Debug)]
pub enum NodeCollection {
    Nodes(Vec<Node>),
}

/// One node of a template.
#[derive(Debug)]
pub enum Node {
    /// A call of a component: a tag whose name starts with an upper-case
    /// letter.
    Component(Component),
    /// `<!doctype html>`.
    DocType,
    /// An HTML element.
    Element(Tag),
    /// An expression between braces, whose result is escaped.
    Expression(String),
    /// A string literal. Braces in it hold expressions; a doubled brace
    /// stands for the brace itself.
    Text(String),
    /// An expression between doubled braces, whose result is not escaped.
    UnescapedExpression(String),
    /// Text written without quotes.
    BareText(String),
}

/// An HTML element as written.
#[derive(Debug)]
pub struct Tag {
    pub tag_name: String,
    pub attributes: Vec<Attribute>,
    pub children: Vec<Node>,
    pub self_closing: bool,
}

/// A call of a component as written. Its children are the content of its
/// slot; without children it has no slot.
#[derive(Debug)]
pub struct Component {
    pub name: String,
    pub props: Vec<Attribute>,
    pub children: Vec<Node>,
}

/// The mathematical value of a [`Tag`].
pub struct TagView {
    pub tag_name: Seq<char>,
    pub attributes: Seq<AttributeView>,
    pub children: Seq<NodeView>,
    pub self_closing: bool,
}

/// The mathematical value of a [`Component`].
pub struct ComponentView {
    pub name: Seq<char>,
    pub props: Seq<AttributeView>,
    pub children: Seq<NodeView>,
}

/// The mathematical value of a [`Node`].
pub enum NodeView {
    Component(ComponentView),
    DocType,
    Element(TagView),
    Expression(Seq<char>),
    Text(Seq<char>),
    UnescapedExpression(Seq<char>),
    BareText(Seq<char>),
}

/// The values of a sequence of nodes, in order.
pub open spec fn nodes_view(nodes: Seq<Node>) -> Seq<NodeView>
    decreases nodes,
{
    Seq::new(
        nodes.len(),
        |i: int|
            if 0 <= i < nodes.len() {
                node_view(nodes[i])
            } else {
                NodeView::DocType
            },
    )
}

/// The value of a node.
pub open spec fn node_view(node: Node) -> NodeView
    decreases node,
{
    match node {
        Node::Component(component) => NodeView::Component(
            ComponentView {
                name: component.name@,
                props: crate::attributes::attributes_view(component.props@),
                children: nodes_view(component.children@),
            },
        ),
        Node::DocType => NodeView::DocType,
        Node::Element(tag) => NodeView::Element(
            TagView {
                tag_name: tag.tag_name@,
                attributes: crate::attributes::attributes_view(tag.attributes@),
                children: nodes_view(tag.children@),
                self_closing: tag.self_closing,
            },
        ),
        Node::Expression(source) => NodeView::Expression(source@),
        Node::Text(literal) => NodeView::Text(literal@),
        Node::UnescapedExpression(source) => NodeView::UnescapedExpression(source@),
        Node::BareText(text) => NodeView::BareText(text@),
    }
}

impl View for Node {
    type V = NodeView;

    open spec fn view(&self) -> NodeView {
        node_view(*self)
    }
}

impl View for Tag {
    type V = TagView;

    open spec fn view(&self) -> TagView {
        TagView {
            tag_name: self.tag_name@,
            attributes: crate::attributes::attributes_view(self.attributes@),
            children: nodes_view(self.children@),
            self_closing: self.self_closing,
        }
    }
}

impl View for Component {
    type V = ComponentView;

    open spec fn view(&self) -> ComponentView {
        ComponentView {
            name: self.name@,
            props: crate::attributes::attributes_view(self.props@),
            children: nodes_view(self.children@),
        }
    }
}

impl View for NodeCollection {
    type V = Seq<NodeView>;

    open spec fn view(&self) -> Seq<NodeView> {
        match *self {
            NodeCollection::Nodes(nodes) => nodes_view(nodes@),
        }
    }
}

impl Tag {
    /// Whether the tag has a `:for`.
    pub fn has_for_attribute(&self) -> (found: bool)
        ensures
            found == (crate::attributes::first_for(self@.attributes) is Some),
    {
        first_for_of(&self.attributes).is_some()
    }

    /// Whether the tag has an `:if`.
    pub fn has_if_attribute(&self) -> (found: bool)
        ensures
            found == (crate::attributes::first_if(self@.attributes) is Some),
    {
        first_if_of(&self.attributes).is_some()
    }

    /// The regular attributes of the tag, in order.
    pub fn get_regular_attributes(&self) -> (regular: Vec<&RegularAttribute>)
        ensures
            crate::attributes::regular_views(regular@) == crate::attributes::regular_attributes(
                self@.attributes,
            ),
    {
        regular_attributes_of(&self.attributes)
    }

    /// The first `:for` of the tag.
    pub fn get_for_attribute(&self) -> (for_expr: &ForExpr)
        requires
            crate::attributes::first_for(self@.attributes) is Some,
        ensures
            crate::attributes::first_for(self@.attributes) == Some(for_expr@),
    {
        first_for_of(&self.attributes).unwrap()
    }

    /// The condition of the first `:if` of the tag.
    pub fn get_if_attribute(&self) -> (condition: &String)
        requires
            crate::attributes::first_if(self@.attributes) is Some,
        ensures
            crate::attributes::first_if(self@.attributes) == Some(condition@),
    {
        first_if_of(&self.attributes).unwrap()
    }
}

impl Component {
    /// Whether the call has a `:for`.
    pub fn has_for_attribute(&self) -> (found: bool)
        ensures
            found == (crate::attributes::first_for(self@.props) is Some),
    {
        first_for_of(&self.props).is_some()
    }

    /// Whether the call has an `:if`.
    pub fn has_if_attribute(&self) -> (found: bool)
        ensures
            found == (crate::attributes::first_if(self@.props) is Some),
    {
        first_if_of(&self.props).is_some()
    }

    /// The regular attributes of the call, in order: its props.
    pub fn get_regular_attributes(&self) -> (regular: Vec<&RegularAttribute>)
        ensures
            crate::attributes::regular_views(regular@) == crate::attributes::regular_attributes(
                self@.props,
            ),
    {
        regular_attributes_of(&self.props)
    }

    /// The first `:for` of the call.
    pub fn get_for_attribute(&self) -> (for_expr: &ForExpr)
        requires
            crate::attributes::first_for(self@.props) is Some,
        ensures
            crate::attributes::first_for(self@.props) == Some(for_expr@),
    {
        first_for_of(&self.props).unwrap()
    }

    /// The condition of the first `:if` of the call.
    pub fn get_if_attribute(&self) -> (condition: &String)
        requires
            crate::attributes::first_if(self@.props) is Some,
        ensures
            crate::attributes::first_if(self@.props) == Some(condition@),
    {
        first_if_of(&self.props).unwrap()
    }
}

} // verus!
