//! Templates without host code: what they render to does not depend on the
//! evaluator, and serializing it gives back what was written, escaped.

use vstd::prelude::*;
use crate::attributes::{AttrValueView, AttributeView, RegularAttributeView};
use crate::context::Evaluator;
use crate::error::RenderErrorView;
use crate::nodes::NodeView;

verus! {

/// Whether a regular attribute holds no host code: its name is written
/// out, and so is its value if it has one.
pub open spec fn is_literal_attribute(attribute: RegularAttributeView) -> bool {
    &&& attribute.name is Literal
    &&& match attribute.value {
        None => true,
        Some(AttrValueView::Literal(_)) => true,
        _ => false,
    }
}

/// Whether a node holds no host code: it is a doctype, text without
/// braces, or an element whose attributes are regular and literal and whose
/// children hold no host code.
pub open spec fn is_literal_node(node: NodeView) -> bool
    decreases node,
{
    match node {
        NodeView::DocType => true,
        NodeView::BareText(_) => true,
        NodeView::Text(literal) => forall|i: int|
            0 <= i < literal.len() ==> literal[i] != '{' && literal[i] != '}',
        NodeView::Element(tag) => {
            &&& forall|i: int|
                0 <= i < tag.attributes.len() ==> (#[trigger] tag.attributes[i])
                    is RegularAttribute && is_literal_attribute(
                    tag.attributes[i]->RegularAttribute_0,
                )
            &&& forall|i: int|
                0 <= i < tag.children.len() ==> is_literal_node(#[trigger] tag.children[i])
        },
        _ => false,
    }
}

/// An attribute as written, with its value escaped.
pub open spec fn written_attribute(attribute: RegularAttributeView) -> Seq<char> {
    match attribute.value {
        Some(AttrValueView::Literal(value)) => " "@ + attribute.name->Literal_0 + "=\""@
            + crate::escape::escaped_attribute(value) + "\""@,
        _ => " "@ + attribute.name->Literal_0,
    }
}

/// Attributes as written, in order.
pub open spec fn written_attributes(attributes: Seq<RegularAttributeView>) -> Seq<char>
    decreases attributes.len(),
{
    if attributes.len() == 0 {
        Seq::empty()
    } else {
        written_attribute(attributes.first()) + written_attributes(attributes.skip(1))
    }
}

/// Nodes as written, in order.
pub open spec fn written_nodes(nodes: Seq<NodeView>) -> Seq<char>
    decreases nodes,
{
    if nodes.len() == 0 {
        Seq::empty()
    } else {
        written_node(nodes.first()) + written_nodes(nodes.skip(1))
    }
}

/// A node without host code as written, with its text escaped: text
/// without its quotes, an element with its tags around its children.
pub open spec fn written_node(node: NodeView) -> Seq<char>
    decreases node,
{
    match node {
        NodeView::DocType => "<!DOCTYPE html>"@,
        NodeView::BareText(text) => crate::escape::escaped_text(text),
        NodeView::Text(literal) => crate::escape::escaped_text(literal),
        NodeView::Element(tag) => if tag.self_closing {
            "<"@ + tag.tag_name + written_attributes(
                crate::attributes::regular_attributes(tag.attributes),
            ) + " />"@
        } else {
            "<"@ + tag.tag_name + written_attributes(
                crate::attributes::regular_attributes(tag.attributes),
            ) + ">"@ + written_nodes(tag.children) + "</"@ + tag.tag_name + ">"@
        },
        _ => Seq::empty(),
    }
}

/// Text without braces stands for itself.
pub proof fn lemma_text_without_braces<E: Evaluator>(
    evaluator: &E,
    literal: Seq<char>,
    rest: Seq<char>,
    scope: Seq<(Seq<char>, E::Value)>,
)
    requires
        forall|i: int| 0 <= i < rest.len() ==> rest[i] != '{' && rest[i] != '}',
    ensures
        crate::generator::text_from(evaluator, literal, rest, scope) == Ok::<
            Seq<char>,
            RenderErrorView,
        >(rest),
    decreases rest.len(),
{
    if rest.len() > 0 {
        assert forall|i: int| 0 <= i < rest.skip(1).len() implies rest.skip(1)[i] != '{'
            && rest.skip(1)[i] != '}' by {
            assert(rest.skip(1)[i] == rest[i + 1]);
        }
        lemma_text_without_braces(evaluator, literal, rest.skip(1), scope);
        assert(rest[0] != '{' && rest[0] != '}');
        assert(seq![rest[0]] + rest.skip(1) =~= rest);
    } else {
        assert(rest =~= Seq::<char>::empty());
    }
}

/// The text of attributes is the text of the first and then that of the
/// others.
pub proof fn lemma_attributes_html_front(
    first: crate::fragment::AttributeView,
    rest: Seq<crate::fragment::AttributeView>,
)
    ensures
        crate::fragment::attributes_html(seq![first] + rest) == crate::fragment::attribute_html(
            first,
        ) + crate::fragment::attributes_html(rest),
    decreases rest.len(),
{
    let whole = seq![first] + rest;
    if rest.len() == 0 {
        assert(whole.drop_last() =~= Seq::<crate::fragment::AttributeView>::empty());
        assert(crate::fragment::attributes_html(whole.drop_last()) =~= Seq::<char>::empty());
        assert(crate::fragment::attributes_html(whole) =~= crate::fragment::attribute_html(first));
        assert(crate::fragment::attribute_html(first) + crate::fragment::attributes_html(rest)
            =~= crate::fragment::attribute_html(first));
    } else {
        lemma_attributes_html_front(first, rest.drop_last());
        assert(whole.drop_last() =~= seq![first] + rest.drop_last());
        assert(whole.last() == rest.last());
        assert((crate::fragment::attribute_html(first) + crate::fragment::attributes_html(
            rest.drop_last(),
        )) + crate::fragment::attribute_html(rest.last()) =~= crate::fragment::attribute_html(
            first,
        ) + (crate::fragment::attributes_html(rest.drop_last())
            + crate::fragment::attribute_html(rest.last())));
    }
}

/// The text of nodes is the text of the first and then that of the
/// others.
pub proof fn lemma_nodes_html_front(
    first: crate::fragment::NodeView,
    rest: Seq<crate::fragment::NodeView>,
)
    ensures
        crate::fragment::nodes_html(seq![first] + rest) == crate::fragment::node_html(first)
            + crate::fragment::nodes_html(rest),
    decreases rest.len(),
{
    let whole = seq![first] + rest;
    if rest.len() == 0 {
        assert(whole.drop_last() =~= Seq::<crate::fragment::NodeView>::empty());
        assert(crate::fragment::nodes_html(whole.drop_last()) =~= Seq::<char>::empty());
        assert(crate::fragment::nodes_html(whole) =~= crate::fragment::node_html(first));
        assert(crate::fragment::node_html(first) + crate::fragment::nodes_html(rest)
            =~= crate::fragment::node_html(first));
    } else {
        lemma_nodes_html_front(first, rest.drop_last());
        assert(whole.drop_last() =~= seq![first] + rest.drop_last());
        assert(whole.last() == rest.last());
        assert((crate::fragment::node_html(first) + crate::fragment::nodes_html(rest.drop_last()))
            + crate::fragment::node_html(rest.last()) =~= crate::fragment::node_html(first) + (
        crate::fragment::nodes_html(rest.drop_last()) + crate::fragment::node_html(rest.last())));
    }
}

/// Literal attributes render without the evaluator, and their text is
/// what was written, with the values escaped.
pub proof fn lemma_literal_attributes<E: Evaluator>(
    evaluator: &E,
    attributes: Seq<RegularAttributeView>,
    scope: Seq<(Seq<char>, E::Value)>,
)
    requires
        forall|i: int| 0 <= i < attributes.len() ==> is_literal_attribute(#[trigger] attributes[i]),
    ensures
        crate::generator::rendered_attributes(evaluator, attributes, scope) is Ok,
        crate::fragment::attributes_html(
            crate::generator::rendered_attributes(evaluator, attributes, scope)->Ok_0,
        ) == written_attributes(attributes),
    decreases attributes.len(),
{
    if attributes.len() > 0 {
        let first = attributes.first();
        let rest = attributes.skip(1);
        assert(is_literal_attribute(attributes[0]));
        assert forall|i: int| 0 <= i < rest.len() implies is_literal_attribute(
            #[trigger] rest[i],
        ) by {
            assert(rest[i] == attributes[i + 1]);
        }
        lemma_literal_attributes(evaluator, rest, scope);
        let rendered = crate::generator::rendered_attribute(evaluator, first, scope)->Ok_0;
        lemma_attributes_html_front(
            rendered,
            crate::generator::rendered_attributes(evaluator, rest, scope)->Ok_0,
        );
    }
}

/// Where every attribute is regular, there is no `:if` and no `:for`, and
/// the regular attributes are the attributes themselves.
pub proof fn lemma_all_regular(attributes: Seq<AttributeView>)
    requires
        forall|i: int| 0 <= i < attributes.len() ==> (#[trigger] attributes[i]) is RegularAttribute,
    ensures
        crate::attributes::first_if(attributes) is None,
        crate::attributes::first_for(attributes) is None,
        crate::attributes::regular_attributes(attributes).len() == attributes.len(),
        forall|i: int|
            0 <= i < attributes.len() ==> (#[trigger] crate::attributes::regular_attributes(
                attributes,
            )[i]) == attributes[i]->RegularAttribute_0,
    decreases attributes.len(),
{
    if attributes.len() > 0 {
        let front = attributes.drop_last();
        let back = attributes.skip(1);
        assert(attributes[0] is RegularAttribute);
        assert(attributes[attributes.len() - 1] is RegularAttribute);
        assert forall|i: int| 0 <= i < front.len() implies (#[trigger] front[i])
            is RegularAttribute by {
            assert(front[i] == attributes[i]);
        }
        assert forall|i: int| 0 <= i < back.len() implies (#[trigger] back[i])
            is RegularAttribute by {
            assert(back[i] == attributes[i + 1]);
        }
        lemma_all_regular(front);
        lemma_all_regular(back);
        assert forall|i: int| 0 <= i < attributes.len() implies (
        #[trigger] crate::attributes::regular_attributes(attributes)[i])
            == attributes[i]->RegularAttribute_0 by {
            if i < attributes.len() - 1 {
                assert(crate::attributes::regular_attributes(front)[i]
                    == front[i]->RegularAttribute_0);
                assert(front[i] == attributes[i]);
            }
        }
    }
}

/// A node without host code renders to the same whatever the evaluator
/// and the scope are, and serializing what it renders to gives what was
/// written, with text and attribute values escaped.
pub proof fn lemma_literal_node_round_trip<E: Evaluator>(
    evaluator: &E,
    node: NodeView,
    scope: Seq<(Seq<char>, E::Value)>,
)
    requires
        is_literal_node(node),
    ensures
        crate::generator::rendered_node(evaluator, node, scope) is Ok,
        crate::fragment::nodes_html(crate::generator::rendered_node(evaluator, node, scope)->Ok_0)
            == written_node(node),
    decreases node, 1nat,
{
    match node {
        NodeView::Element(tag) => {
            lemma_all_regular(tag.attributes);
            let regular = crate::attributes::regular_attributes(tag.attributes);
            assert forall|i: int| 0 <= i < regular.len() implies is_literal_attribute(
                #[trigger] regular[i],
            ) by {
                assert(tag.attributes[i] is RegularAttribute);
            }
            lemma_literal_attributes(evaluator, regular, scope);
            lemma_literal_nodes_round_trip(evaluator, tag.children, scope);
            let one = crate::generator::rendered_once(evaluator, node, scope)->Ok_0;
            lemma_nodes_html_front(one[0], Seq::empty());
            assert(one =~= seq![one[0]] + Seq::<crate::fragment::NodeView>::empty());
            assert(crate::fragment::nodes_html(Seq::<crate::fragment::NodeView>::empty())
                =~= Seq::<char>::empty());
            assert(crate::fragment::node_html(one[0]) + Seq::<char>::empty()
                =~= crate::fragment::node_html(one[0]));
        },
        NodeView::Text(literal) => {
            lemma_text_without_braces(evaluator, literal, literal, scope);
            let one = crate::generator::rendered_once(evaluator, node, scope)->Ok_0;
            lemma_nodes_html_front(one[0], Seq::empty());
            assert(one =~= seq![one[0]] + Seq::<crate::fragment::NodeView>::empty());
            assert(crate::fragment::nodes_html(Seq::<crate::fragment::NodeView>::empty())
                =~= Seq::<char>::empty());
            assert(crate::fragment::node_html(one[0]) + Seq::<char>::empty()
                =~= crate::fragment::node_html(one[0]));
        },
        _ => {
            let one = crate::generator::rendered_once(evaluator, node, scope)->Ok_0;
            lemma_nodes_html_front(one[0], Seq::empty());
            assert(one =~= seq![one[0]] + Seq::<crate::fragment::NodeView>::empty());
            assert(crate::fragment::nodes_html(Seq::<crate::fragment::NodeView>::empty())
                =~= Seq::<char>::empty());
            assert(crate::fragment::node_html(one[0]) + Seq::<char>::empty()
                =~= crate::fragment::node_html(one[0]));
        },
    }
}

/// The text of two runs of nodes one after the other is the text of the
/// first and then that of the second.
pub proof fn lemma_nodes_html_joined(
    front: Seq<crate::fragment::NodeView>,
    back: Seq<crate::fragment::NodeView>,
)
    ensures
        crate::fragment::nodes_html(front + back) == crate::fragment::nodes_html(front)
            + crate::fragment::nodes_html(back),
    decreases back.len(),
{
    if back.len() == 0 {
        assert(front + back =~= front);
        assert(crate::fragment::nodes_html(front) + Seq::<char>::empty()
            =~= crate::fragment::nodes_html(front));
    } else {
        lemma_nodes_html_joined(front, back.drop_last());
        assert((front + back).drop_last() =~= front + back.drop_last());
        assert((front + back).last() == back.last());
        assert((crate::fragment::nodes_html(front) + crate::fragment::nodes_html(back.drop_last()))
            + crate::fragment::node_html(back.last()) =~= crate::fragment::nodes_html(front) + (
        crate::fragment::nodes_html(back.drop_last()) + crate::fragment::node_html(back.last())));
    }
}

/// A template without host code renders to the same whatever the
/// evaluator and the scope are, and serializing what it renders to gives
/// what was written, with text and attribute values escaped.
pub proof fn lemma_literal_nodes_round_trip<E: Evaluator>(
    evaluator: &E,
    nodes: Seq<NodeView>,
    scope: Seq<(Seq<char>, E::Value)>,
)
    requires
        forall|i: int| 0 <= i < nodes.len() ==> is_literal_node(#[trigger] nodes[i]),
    ensures
        crate::generator::rendered_nodes(evaluator, nodes, scope) is Ok,
        crate::fragment::nodes_html(crate::generator::rendered_nodes(evaluator, nodes, scope)->Ok_0)
            == written_nodes(nodes),
    decreases nodes, 0nat,
{
    if nodes.len() > 0 {
        let rest = nodes.skip(1);
        assert(is_literal_node(nodes[0]));
        assert forall|i: int| 0 <= i < rest.len() implies is_literal_node(#[trigger] rest[i]) by {
            assert(rest[i] == nodes[i + 1]);
        }
        lemma_literal_node_round_trip(evaluator, nodes.first(), scope);
        lemma_literal_nodes_round_trip(evaluator, rest, scope);
        lemma_nodes_html_joined(
            crate::generator::rendered_node(evaluator, nodes.first(), scope)->Ok_0,
            crate::generator::rendered_nodes(evaluator, rest, scope)->Ok_0,
        );
    } else {
        assert(crate::fragment::nodes_html(Seq::<crate::fragment::NodeView>::empty())
            =~= Seq::<char>::empty());
    }
}

} // verus!
