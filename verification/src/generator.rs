//! Rendering: a template's nodes, evaluated against an evaluator and the
//! loop bindings in scope, become the nodes of a fragment.

use vstd::prelude::*;
use vstd::string::StringExecFns;
use crate::attributes::{
    first_for_of, first_if_of, AttrName, AttrNameView, AttrValue, AttrValueView, Attribute,
    InterpolatedSegment, InterpolatedSegmentView, RegularAttribute, RegularAttributeView,
};
use crate::context::{Binding, Evaluator, Prop, PropValue, PropValueView, PropValues};
use crate::error::{RenderError, RenderErrorKind, RenderErrorView};
use crate::escape::{escape_attribute, escape_text};
use crate::fragment::{ElementData, HtmlFragment};
use crate::nodes::{Node, NodeCollection, NodeView};
use crate::text::{chars_of, find_char, push_char, substring};

verus! {

/// `front` followed by what `rest` holds, or the error of `rest`.
pub open spec fn prepend<T>(front: Seq<T>, rest: Result<Seq<T>, RenderErrorView>) -> Result<
    Seq<T>,
    RenderErrorView,
> {
    match rest {
        Ok(back) => Ok(front + back),
        Err(error) => Err(error),
    }
}

/// The error of a text literal whose braces do not pair up.
pub open spec fn interpolation_error(literal: Seq<char>) -> RenderErrorView {
    RenderErrorView { kind: RenderErrorKind::Interpolation, subject: literal }
}

/// The text that the rest of a text literal stands for, from `rest` on: a
/// doubled brace is the brace itself, the text between `{` and the next `}`
/// is an expression that is replaced by its display string, and every other
/// character stands for itself. A `{` that no `}` follows and a single `}`
/// are errors, which name the whole `literal`.
pub open spec fn text_from<E: Evaluator>(
    evaluator: &E,
    literal: Seq<char>,
    rest: Seq<char>,
    scope: Seq<(Seq<char>, E::Value)>,
) -> Result<Seq<char>, RenderErrorView>
    decreases rest.len(),
{
    if rest.len() == 0 {
        Ok(Seq::empty())
    } else if rest[0] == '{' {
        if rest.len() > 1 && rest[1] == '{' {
            prepend(seq!['{'], text_from(evaluator, literal, rest.skip(2), scope))
        } else {
            proof {
                crate::text::lemma_first_index_of(rest.skip(1), '}');
            }
            match crate::text::first_index_of(rest.skip(1), '}') {
                None => Err(interpolation_error(literal)),
                Some(close) => match evaluator.display_of(rest.subrange(1, 1 + close), scope) {
                    Err(error) => Err(error),
                    Ok(shown) => prepend(
                        shown,
                        text_from(evaluator, literal, rest.skip(close + 2), scope),
                    ),
                },
            }
        }
    } else if rest[0] == '}' {
        if rest.len() > 1 && rest[1] == '}' {
            prepend(seq!['}'], text_from(evaluator, literal, rest.skip(2), scope))
        } else {
            Err(interpolation_error(literal))
        }
    } else {
        prepend(seq![rest[0]], text_from(evaluator, literal, rest.skip(1), scope))
    }
}

/// The text that a text literal stands for.
pub open spec fn text_of<E: Evaluator>(
    evaluator: &E,
    literal: Seq<char>,
    scope: Seq<(Seq<char>, E::Value)>,
) -> Result<Seq<char>, RenderErrorView> {
    text_from(evaluator, literal, literal, scope)
}

/// The string that the segments of an interpolated string make: each
/// literal piece as it is and each expression as its display string, in
/// order.
pub open spec fn interpolated<E: Evaluator>(
    evaluator: &E,
    segments: Seq<InterpolatedSegmentView>,
    scope: Seq<(Seq<char>, E::Value)>,
) -> Result<Seq<char>, RenderErrorView>
    decreases segments.len(),
{
    if segments.len() == 0 {
        Ok(Seq::empty())
    } else {
        match segments.first() {
            InterpolatedSegmentView::Str(text) => prepend(
                text,
                interpolated(evaluator, segments.skip(1), scope),
            ),
            InterpolatedSegmentView::Expr(source) => match evaluator.display_of(source, scope) {
                Err(error) => Err(error),
                Ok(shown) => prepend(shown, interpolated(evaluator, segments.skip(1), scope)),
            },
        }
    }
}

/// The name of a rendered attribute: a written name as it is, the display
/// string of an expression escaped.
pub open spec fn rendered_name<E: Evaluator>(
    evaluator: &E,
    name: AttrNameView,
    scope: Seq<(Seq<char>, E::Value)>,
) -> Result<Seq<char>, RenderErrorView> {
    match name {
        AttrNameView::Literal(text) => Ok(text),
        AttrNameView::Expression(source) => match evaluator.display_of(source, scope) {
            Err(error) => Err(error),
            Ok(shown) => Ok(crate::escape::escaped_attribute(shown)),
        },
    }
}

/// The string that an attribute value stands for, before escaping.
pub open spec fn value_text<E: Evaluator>(
    evaluator: &E,
    value: AttrValueView,
    scope: Seq<(Seq<char>, E::Value)>,
) -> Result<Seq<char>, RenderErrorView> {
    match value {
        AttrValueView::Literal(text) => Ok(text),
        AttrValueView::Expression(source) => evaluator.display_of(source, scope),
        AttrValueView::Interpolated(segments) => interpolated(evaluator, segments, scope),
    }
}

/// A rendered attribute: its name, then its value, escaped as a whole.
pub open spec fn rendered_attribute<E: Evaluator>(
    evaluator: &E,
    attribute: RegularAttributeView,
    scope: Seq<(Seq<char>, E::Value)>,
) -> Result<crate::fragment::AttributeView, RenderErrorView> {
    match rendered_name(evaluator, attribute.name, scope) {
        Err(error) => Err(error),
        Ok(name) => match attribute.value {
            None => Ok(crate::fragment::AttributeView { name, value: None }),
            Some(value) => match value_text(evaluator, value, scope) {
                Err(error) => Err(error),
                Ok(text) => Ok(
                    crate::fragment::AttributeView {
                        name,
                        value: Some(crate::escape::escaped_attribute(text)),
                    },
                ),
            },
        },
    }
}

/// The rendered attributes of an element, in the order written.
pub open spec fn rendered_attributes<E: Evaluator>(
    evaluator: &E,
    attributes: Seq<RegularAttributeView>,
    scope: Seq<(Seq<char>, E::Value)>,
) -> Result<Seq<crate::fragment::AttributeView>, RenderErrorView>
    decreases attributes.len(),
{
    if attributes.len() == 0 {
        Ok(Seq::empty())
    } else {
        match rendered_attribute(evaluator, attributes.first(), scope) {
            Err(error) => Err(error),
            Ok(attribute) => prepend(
                seq![attribute],
                rendered_attributes(evaluator, attributes.skip(1), scope),
            ),
        }
    }
}

/// The error of a component call with a prop whose name cannot be one.
pub open spec fn prop_name_error(component: Seq<char>) -> RenderErrorView {
    RenderErrorView { kind: RenderErrorKind::PropName, subject: component }
}

/// What a prop is given: a written value and an interpolated string as a
/// string that is not escaped, an expression as its value.
pub open spec fn rendered_prop_value<E: Evaluator>(
    evaluator: &E,
    value: Option<AttrValueView>,
    scope: Seq<(Seq<char>, E::Value)>,
) -> Result<PropValueView<E::Value>, RenderErrorView> {
    match value {
        None => Ok(PropValueView::Bare),
        Some(AttrValueView::Literal(text)) => Ok(PropValueView::Text(text)),
        Some(AttrValueView::Expression(source)) => match evaluator.value_of(source, scope) {
            Err(error) => Err(error),
            Ok(v) => Ok(PropValueView::Value(v)),
        },
        Some(AttrValueView::Interpolated(segments)) => match interpolated(
            evaluator,
            segments,
            scope,
        ) {
            Err(error) => Err(error),
            Ok(text) => Ok(PropValueView::Text(text)),
        },
    }
}

/// One prop of a call of `component`: its name and what it is given.
pub open spec fn rendered_prop<E: Evaluator>(
    evaluator: &E,
    component: Seq<char>,
    attribute: RegularAttributeView,
    scope: Seq<(Seq<char>, E::Value)>,
) -> Result<(Seq<char>, PropValueView<E::Value>), RenderErrorView> {
    match crate::attributes::identifier_of(attribute.name) {
        None => Err(prop_name_error(component)),
        Some(name) => match rendered_prop_value(evaluator, attribute.value, scope) {
            Err(error) => Err(error),
            Ok(value) => Ok((name, value)),
        },
    }
}

/// The props of a call of `component`, in the order written.
pub open spec fn rendered_props<E: Evaluator>(
    evaluator: &E,
    component: Seq<char>,
    attributes: Seq<RegularAttributeView>,
    scope: Seq<(Seq<char>, E::Value)>,
) -> Result<Seq<(Seq<char>, PropValueView<E::Value>)>, RenderErrorView>
    decreases attributes.len(),
{
    if attributes.len() == 0 {
        Ok(Seq::empty())
    } else {
        match rendered_prop(evaluator, component, attributes.first(), scope) {
            Err(error) => Err(error),
            Ok(prop) => prepend(
                seq![prop],
                rendered_props(evaluator, component, attributes.skip(1), scope),
            ),
        }
    }
}

/// The attributes of a node: those of a tag, the props of a component
/// call, none of any other node.
pub open spec fn attributes_of(node: NodeView) -> Seq<crate::attributes::AttributeView> {
    match node {
        NodeView::Element(tag) => tag.attributes,
        NodeView::Component(component) => component.props,
        _ => Seq::empty(),
    }
}

/// The nodes that a sequence of template nodes renders to: those of each,
/// in order.
pub open spec fn rendered_nodes<E: Evaluator>(
    evaluator: &E,
    nodes: Seq<NodeView>,
    scope: Seq<(Seq<char>, E::Value)>,
) -> Result<Seq<crate::fragment::NodeView>, RenderErrorView>
    decreases nodes, 0nat, 0nat,
{
    if nodes.len() == 0 {
        Ok(Seq::empty())
    } else {
        match rendered_node(evaluator, nodes.first(), scope) {
            Err(error) => Err(error),
            Ok(front) => prepend(front, rendered_nodes(evaluator, nodes.skip(1), scope)),
        }
    }
}

/// The nodes that one template node renders to. The condition of its
/// `:if` is evaluated first: where it does not hold, the node renders to
/// nothing, and neither its `:for` nor anything else of it is evaluated.
pub open spec fn rendered_node<E: Evaluator>(
    evaluator: &E,
    node: NodeView,
    scope: Seq<(Seq<char>, E::Value)>,
) -> Result<Seq<crate::fragment::NodeView>, RenderErrorView>
    decreases node, 3nat, 0nat,
{
    match crate::attributes::first_if(attributes_of(node)) {
        None => rendered_looped(evaluator, node, scope),
        Some(condition) => match evaluator.truth_of(condition, scope) {
            Err(error) => Err(error),
            Ok(false) => Ok(Seq::empty()),
            Ok(true) => rendered_looped(evaluator, node, scope),
        },
    }
}

/// The nodes that one template node renders to once its `:if` holds: with
/// a `:for`, one copy per item of the collection; without, one copy.
pub open spec fn rendered_looped<E: Evaluator>(
    evaluator: &E,
    node: NodeView,
    scope: Seq<(Seq<char>, E::Value)>,
) -> Result<Seq<crate::fragment::NodeView>, RenderErrorView>
    decreases node, 2nat, 0nat,
{
    match crate::attributes::first_for(attributes_of(node)) {
        None => rendered_once(evaluator, node, scope),
        Some(for_expr) => match evaluator.items_of(for_expr.collection, scope) {
            Err(error) => Err(error),
            Ok(items) => rendered_each(evaluator, node, for_expr.pat, items, scope),
        },
    }
}

/// One copy of a template node per item, in the order of the items, each
/// rendered with the pattern bound to its item.
pub open spec fn rendered_each<E: Evaluator>(
    evaluator: &E,
    node: NodeView,
    pattern: Seq<char>,
    items: Seq<E::Value>,
    scope: Seq<(Seq<char>, E::Value)>,
) -> Result<Seq<crate::fragment::NodeView>, RenderErrorView>
    decreases node, 1nat, items.len(),
{
    if items.len() == 0 {
        Ok(Seq::empty())
    } else {
        match rendered_once(evaluator, node, scope.push((pattern, items.first()))) {
            Err(error) => Err(error),
            Ok(front) => prepend(
                front,
                rendered_each(evaluator, node, pattern, items.skip(1), scope),
            ),
        }
    }
}

/// One copy of a template node, without regard to its `:if` and `:for`.
pub open spec fn rendered_once<E: Evaluator>(
    evaluator: &E,
    node: NodeView,
    scope: Seq<(Seq<char>, E::Value)>,
) -> Result<Seq<crate::fragment::NodeView>, RenderErrorView>
    decreases node, 0nat, 0nat,
{
    match node {
        NodeView::DocType => Ok(seq![crate::fragment::NodeView::DocType]),
        NodeView::BareText(text) => Ok(
            seq![crate::fragment::NodeView::Text(crate::escape::escaped_text(text))],
        ),
        NodeView::Text(literal) => match text_of(evaluator, literal, scope) {
            Err(error) => Err(error),
            Ok(text) => Ok(seq![crate::fragment::NodeView::Text(crate::escape::escaped_text(text))]),
        },
        NodeView::Expression(source) => match evaluator.display_of(source, scope) {
            Err(error) => Err(error),
            Ok(shown) => Ok(
                seq![crate::fragment::NodeView::Text(crate::escape::escaped_text(shown))],
            ),
        },
        NodeView::UnescapedExpression(source) => match evaluator.display_of(source, scope) {
            Err(error) => Err(error),
            Ok(shown) => Ok(seq![crate::fragment::NodeView::Text(shown)]),
        },
        NodeView::Element(tag) => match rendered_attributes(
            evaluator,
            crate::attributes::regular_attributes(tag.attributes),
            scope,
        ) {
            Err(error) => Err(error),
            Ok(attributes) => match rendered_nodes(evaluator, tag.children, scope) {
                Err(error) => Err(error),
                Ok(children) => Ok(
                    seq![
                        crate::fragment::NodeView::Element(
                            crate::fragment::ElementView {
                                tag_name: tag.tag_name,
                                attributes,
                                children,
                                self_closing: tag.self_closing,
                            },
                        ),
                    ],
                ),
            },
        },
        NodeView::Component(component) => match rendered_slot(
            evaluator,
            component.children,
            scope,
        ) {
            Err(error) => Err(error),
            Ok(slot) => match rendered_props(
                evaluator,
                component.name,
                crate::attributes::regular_attributes(component.props),
                scope,
            ) {
                Err(error) => Err(error),
                Ok(props) => evaluator.component_of(
                    component.name,
                    crate::context::props_map(props),
                    slot,
                ),
            },
        },
    }
}

/// The slot of a component call: its children rendered, or nothing where
/// it has no children.
pub open spec fn rendered_slot<E: Evaluator>(
    evaluator: &E,
    children: Seq<NodeView>,
    scope: Seq<(Seq<char>, E::Value)>,
) -> Result<Option<Seq<crate::fragment::NodeView>>, RenderErrorView>
    decreases children, 1nat, 0nat,
{
    if children.len() == 0 {
        Ok(None)
    } else {
        match rendered_nodes(evaluator, children, scope) {
            Err(error) => Err(error),
            Ok(nodes) => Ok(Some(nodes)),
        }
    }
}

/// A node whose `:if` does not hold renders to no node at all, whatever
/// its `:for`, its attributes and its children are.
pub proof fn lemma_false_if_renders_nothing<E: Evaluator>(
    evaluator: &E,
    node: NodeView,
    scope: Seq<(Seq<char>, E::Value)>,
)
    requires
        crate::attributes::first_if(attributes_of(node)) is Some,
        evaluator.truth_of(crate::attributes::first_if(attributes_of(node))->Some_0, scope) == Ok::<
            bool,
            RenderErrorView,
        >(false),
    ensures
        rendered_node(evaluator, node, scope) == Ok::<
            Seq<crate::fragment::NodeView>,
            RenderErrorView,
        >(Seq::empty()),
{
}

/// The copy of `node` for each item on its own, in the order of the items:
/// each is rendered with `pattern` bound to its item and to nothing else
/// of the loop.
pub open spec fn single_renders<E: Evaluator>(
    evaluator: &E,
    node: NodeView,
    pattern: Seq<char>,
    items: Seq<E::Value>,
    scope: Seq<(Seq<char>, E::Value)>,
) -> Seq<Result<Seq<crate::fragment::NodeView>, RenderErrorView>> {
    Seq::new(
        items.len(),
        |i: int| rendered_once(evaluator, node, scope.push((pattern, items[i]))),
    )
}

/// The nodes of a sequence of renders that all succeeded, joined in order.
pub open spec fn joined(renders: Seq<Result<Seq<crate::fragment::NodeView>, RenderErrorView>>) -> Seq<
    crate::fragment::NodeView,
>
    decreases renders.len(),
{
    if renders.len() == 0 {
        Seq::empty()
    } else {
        renders.first()->Ok_0 + joined(renders.skip(1))
    }
}

/// A loop over N items renders to the N single renders joined in order,
/// where they all succeed; where one fails, the loop fails with the error
/// of the first that does.
pub proof fn lemma_each_is_joined_single_renders<E: Evaluator>(
    evaluator: &E,
    node: NodeView,
    pattern: Seq<char>,
    items: Seq<E::Value>,
    scope: Seq<(Seq<char>, E::Value)>,
)
    ensures
        (forall|i: int|
            0 <= i < items.len() ==> (#[trigger] single_renders(
                evaluator,
                node,
                pattern,
                items,
                scope,
            )[i]) is Ok) ==> rendered_each(evaluator, node, pattern, items, scope) == Ok::<
            Seq<crate::fragment::NodeView>,
            RenderErrorView,
        >(joined(single_renders(evaluator, node, pattern, items, scope))),
        forall|i: int|
            0 <= i < items.len() && (#[trigger] single_renders(
                evaluator,
                node,
                pattern,
                items,
                scope,
            )[i]) is Err && (forall|j: int|
                0 <= j < i ==> (#[trigger] single_renders(evaluator, node, pattern, items, scope)[j])
                    is Ok) ==> rendered_each(evaluator, node, pattern, items, scope) == Err::<
                Seq<crate::fragment::NodeView>,
                RenderErrorView,
            >(single_renders(evaluator, node, pattern, items, scope)[i]->Err_0),
    decreases items.len(),
{
    let all = single_renders(evaluator, node, pattern, items, scope);
    if items.len() > 0 {
        let rest = single_renders(evaluator, node, pattern, items.skip(1), scope);
        lemma_each_is_joined_single_renders(evaluator, node, pattern, items.skip(1), scope);
        assert(all.skip(1) =~= rest);
        assert(all[0] == rendered_once(evaluator, node, scope.push((pattern, items.first()))));
        assert forall|i: int|
            0 <= i < items.len() && (#[trigger] all[i]) is Err && (forall|j: int|
                0 <= j < i ==> (#[trigger] all[j]) is Ok) implies rendered_each(
            evaluator,
            node,
            pattern,
            items,
            scope,
        ) == Err::<Seq<crate::fragment::NodeView>, RenderErrorView>(all[i]->Err_0) by {
            if i > 0 {
                assert(all[0] is Ok);
                assert(rest[i - 1] == all[i]);
                assert forall|j: int| 0 <= j < i - 1 implies (#[trigger] rest[j]) is Ok by {
                    assert(rest[j] == all[j + 1]);
                }
            }
        }
        if forall|i: int| 0 <= i < items.len() ==> (#[trigger] all[i]) is Ok {
            assert(all[0] is Ok);
            assert forall|i: int| 0 <= i < items.len() - 1 implies (#[trigger] rest[i]) is Ok by {
                assert(rest[i] == all[i + 1]);
            }
        }
    }
}

/// A node with a `:for` whose `:if`, if it has one, holds renders to the
/// single renders of its items joined in the order of the collection.
pub proof fn lemma_for_renders_each_item<E: Evaluator>(
    evaluator: &E,
    node: NodeView,
    scope: Seq<(Seq<char>, E::Value)>,
)
    requires
        crate::attributes::first_for(attributes_of(node)) is Some,
        evaluator.items_of(
            crate::attributes::first_for(attributes_of(node))->Some_0.collection,
            scope,
        ) is Ok,
        crate::attributes::first_if(attributes_of(node)) is Some ==> evaluator.truth_of(
            crate::attributes::first_if(attributes_of(node))->Some_0,
            scope,
        ) == Ok::<bool, RenderErrorView>(true),
        forall|i: int|
            0 <= i < evaluator.items_of(
                crate::attributes::first_for(attributes_of(node))->Some_0.collection,
                scope,
            )->Ok_0.len() ==> (#[trigger] single_renders(
                evaluator,
                node,
                crate::attributes::first_for(attributes_of(node))->Some_0.pat,
                evaluator.items_of(
                    crate::attributes::first_for(attributes_of(node))->Some_0.collection,
                    scope,
                )->Ok_0,
                scope,
            )[i]) is Ok,
    ensures
        rendered_node(evaluator, node, scope) == Ok::<
            Seq<crate::fragment::NodeView>,
            RenderErrorView,
        >(
            joined(
                single_renders(
                    evaluator,
                    node,
                    crate::attributes::first_for(attributes_of(node))->Some_0.pat,
                    evaluator.items_of(
                        crate::attributes::first_for(attributes_of(node))->Some_0.collection,
                        scope,
                    )->Ok_0,
                    scope,
                ),
            ),
        ),
{
    let for_expr = crate::attributes::first_for(attributes_of(node))->Some_0;
    let items = evaluator.items_of(for_expr.collection, scope)->Ok_0;
    lemma_each_is_joined_single_renders(evaluator, node, for_expr.pat, items, scope);
}

/// The props of a call render one by one: all of them succeed or the whole
/// fails, and where they succeed each rendered prop is that of the
/// attribute in its place.
pub proof fn lemma_rendered_props_pointwise<E: Evaluator>(
    evaluator: &E,
    component: Seq<char>,
    attributes: Seq<RegularAttributeView>,
    scope: Seq<(Seq<char>, E::Value)>,
)
    ensures
        rendered_props(evaluator, component, attributes, scope) is Ok <==> forall|i: int|
            0 <= i < attributes.len() ==> rendered_prop(
                evaluator,
                component,
                #[trigger] attributes[i],
                scope,
            ) is Ok,
        rendered_props(evaluator, component, attributes, scope) is Ok ==> {
            &&& rendered_props(evaluator, component, attributes, scope)->Ok_0.len()
                == attributes.len()
            &&& forall|i: int|
                0 <= i < attributes.len() ==> (#[trigger] rendered_props(
                    evaluator,
                    component,
                    attributes,
                    scope,
                )->Ok_0[i]) == rendered_prop(evaluator, component, attributes[i], scope)->Ok_0
        },
    decreases attributes.len(),
{
    if attributes.len() > 0 {
        let rest = attributes.skip(1);
        lemma_rendered_props_pointwise(evaluator, component, rest, scope);
        let first = rendered_prop(evaluator, component, attributes.first(), scope);
        if first is Ok && rendered_props(evaluator, component, rest, scope) is Ok {
            let back = rendered_props(evaluator, component, rest, scope)->Ok_0;
            let whole = rendered_props(evaluator, component, attributes, scope)->Ok_0;
            assert(whole =~= seq![first->Ok_0] + back);
            assert forall|i: int| 0 <= i < attributes.len() implies rendered_prop(
                evaluator,
                component,
                #[trigger] attributes[i],
                scope,
            ) is Ok by {
                if i > 0 {
                    assert(attributes[i] == rest[i - 1]);
                }
            }
            assert forall|i: int| 0 <= i < attributes.len() implies (#[trigger] whole[i])
                == rendered_prop(evaluator, component, attributes[i], scope)->Ok_0 by {
                if i > 0 {
                    assert(attributes[i] == rest[i - 1]);
                    assert(whole[i] == back[i - 1]);
                }
            }
        } else if first is Ok {
            let j = choose|j: int|
                0 <= j < rest.len() && !(rendered_prop(
                    evaluator,
                    component,
                    #[trigger] rest[j],
                    scope,
                ) is Ok);
            assert(attributes[j + 1] == rest[j]);
        } else {
            assert(attributes[0] == attributes.first());
        }
    }
}

/// In the mapping of props whose names all differ, every prop is found
/// under its name, and nothing else is found.
pub proof fn lemma_props_map_lookup<V>(props: Seq<(Seq<char>, PropValueView<V>)>)
    requires
        forall|i: int, j: int|
            0 <= i < props.len() && 0 <= j < props.len() && i != j ==> props[i].0 != props[j].0,
    ensures
        forall|i: int|
            0 <= i < props.len() ==> crate::context::props_map(props).contains_key(
                (#[trigger] props[i]).0,
            ) && crate::context::props_map(props)[props[i].0] == props[i].1,
        forall|name: Seq<char>| #[trigger]
            crate::context::props_map(props).contains_key(name) ==> exists|i: int|
                0 <= i < props.len() && (#[trigger] props[i]).0 == name,
    decreases props.len(),
{
    if props.len() > 0 {
        let front = props.drop_last();
        lemma_props_map_lookup(front);
        assert forall|i: int| 0 <= i < props.len() implies crate::context::props_map(
            props,
        ).contains_key((#[trigger] props[i]).0) && crate::context::props_map(props)[props[i].0]
            == props[i].1 by {
            if i < props.len() - 1 {
                assert(front[i] == props[i]);
                assert(props[i].0 != props.last().0);
            }
        }
        assert forall|name: Seq<char>| #[trigger]
            crate::context::props_map(props).contains_key(name) implies exists|i: int|
            0 <= i < props.len() && (#[trigger] props[i]).0 == name by {
            if name == props.last().0 {
                assert(props[props.len() - 1].0 == name);
            } else {
                assert(crate::context::props_map(front).contains_key(name));
                let i = choose|i: int| 0 <= i < front.len() && (#[trigger] front[i]).0 == name;
                assert(props[i] == front[i]);
            }
        }
    }
}

/// Whether two lists of attributes hold the same attributes, each under a
/// name of its own, in whatever order.
pub open spec fn same_named_props(a: Seq<RegularAttributeView>, b: Seq<RegularAttributeView>) -> bool {
    &&& forall|i: int, j: int|
        0 <= i < a.len() && 0 <= j < a.len() && i != j ==> (#[trigger] a[i]).name != (
        #[trigger] a[j]).name
    &&& forall|i: int, j: int|
        0 <= i < b.len() && 0 <= j < b.len() && i != j ==> (#[trigger] b[i]).name != (
        #[trigger] b[j]).name
    &&& forall|i: int| 0 <= i < a.len() ==> b.contains(#[trigger] a[i])
    &&& forall|j: int| 0 <= j < b.len() ==> a.contains(#[trigger] b[j])
}

/// Whether two results are both errors or hold the same value.
pub open spec fn same_unless_failed<T>(
    a: Result<T, RenderErrorView>,
    b: Result<T, RenderErrorView>,
) -> bool {
    match (a, b) {
        (Ok(x), Ok(y)) => x == y,
        (Err(_), Err(_)) => true,
        _ => false,
    }
}

/// The same named props in another order give the same mapping of props,
/// and fail where the first order fails.
pub proof fn lemma_props_in_any_order<E: Evaluator>(
    evaluator: &E,
    component: Seq<char>,
    a: Seq<RegularAttributeView>,
    b: Seq<RegularAttributeView>,
    scope: Seq<(Seq<char>, E::Value)>,
)
    requires
        same_named_props(a, b),
    ensures
        rendered_props(evaluator, component, a, scope) is Ok <==> rendered_props(
            evaluator,
            component,
            b,
            scope,
        ) is Ok,
        rendered_props(evaluator, component, a, scope) is Ok ==> crate::context::props_map(
            rendered_props(evaluator, component, a, scope)->Ok_0,
        ) == crate::context::props_map(rendered_props(evaluator, component, b, scope)->Ok_0),
{
    lemma_rendered_props_pointwise(evaluator, component, a, scope);
    lemma_rendered_props_pointwise(evaluator, component, b, scope);
    let ra = rendered_props(evaluator, component, a, scope);
    let rb = rendered_props(evaluator, component, b, scope);
    if ra is Ok {
        assert forall|j: int| 0 <= j < b.len() implies rendered_prop(
            evaluator,
            component,
            #[trigger] b[j],
            scope,
        ) is Ok by {
            assert(a.contains(b[j]));
            let i = choose|i: int| 0 <= i < a.len() && a[i] == b[j];
            assert(rendered_prop(evaluator, component, a[i], scope) is Ok);
        }
    }
    if rb is Ok {
        assert forall|i: int| 0 <= i < a.len() implies rendered_prop(
            evaluator,
            component,
            #[trigger] a[i],
            scope,
        ) is Ok by {
            assert(b.contains(a[i]));
            let j = choose|j: int| 0 <= j < b.len() && b[j] == a[i];
            assert(rendered_prop(evaluator, component, b[j], scope) is Ok);
        }
    }
    if ra is Ok && rb is Ok {
        let pa = ra->Ok_0;
        let pb = rb->Ok_0;
        assert forall|i: int, j: int|
            0 <= i < pa.len() && 0 <= j < pa.len() && i != j implies pa[i].0 != pa[j].0 by {
            assert(rendered_prop(evaluator, component, a[i], scope) is Ok);
            assert(rendered_prop(evaluator, component, a[j], scope) is Ok);
            assert(a[i].name != a[j].name);
        }
        assert forall|i: int, j: int|
            0 <= i < pb.len() && 0 <= j < pb.len() && i != j implies pb[i].0 != pb[j].0 by {
            assert(rendered_prop(evaluator, component, b[i], scope) is Ok);
            assert(rendered_prop(evaluator, component, b[j], scope) is Ok);
            assert(b[i].name != b[j].name);
        }
        lemma_props_map_lookup(pa);
        lemma_props_map_lookup(pb);
        let ma = crate::context::props_map(pa);
        let mb = crate::context::props_map(pb);
        assert forall|name: Seq<char>| ma.contains_key(name) implies mb.contains_key(name)
            && mb[name] == ma[name] by {
            let i = choose|i: int| 0 <= i < pa.len() && (#[trigger] pa[i]).0 == name;
            assert(b.contains(a[i]));
            let j = choose|j: int| 0 <= j < b.len() && b[j] == a[i];
            assert(pb[j] == pa[i]);
        }
        assert forall|name: Seq<char>| mb.contains_key(name) implies ma.contains_key(name) by {
            let j = choose|j: int| 0 <= j < pb.len() && (#[trigger] pb[j]).0 == name;
            assert(a.contains(b[j]));
            let i = choose|i: int| 0 <= i < a.len() && a[i] == b[j];
            assert(pa[i] == pb[j]);
        }
        assert(ma =~= mb);
    }
}

/// Whether two component calls differ at most in the order of their props:
/// the same component, the same children, the same `:if` and `:for`, and
/// the same named props.
pub open spec fn same_call_in_any_order(
    a: crate::nodes::ComponentView,
    b: crate::nodes::ComponentView,
) -> bool {
    &&& a.name == b.name
    &&& a.children == b.children
    &&& crate::attributes::first_if(a.props) == crate::attributes::first_if(b.props)
    &&& crate::attributes::first_for(a.props) == crate::attributes::first_for(b.props)
    &&& same_named_props(
        crate::attributes::regular_attributes(a.props),
        crate::attributes::regular_attributes(b.props),
    )
}

/// One copy of a component call does not depend on the order of its props.
pub proof fn lemma_prop_order_once<E: Evaluator>(
    evaluator: &E,
    a: crate::nodes::ComponentView,
    b: crate::nodes::ComponentView,
    scope: Seq<(Seq<char>, E::Value)>,
)
    requires
        same_call_in_any_order(a, b),
    ensures
        same_unless_failed(
            rendered_once(evaluator, NodeView::Component(a), scope),
            rendered_once(evaluator, NodeView::Component(b), scope),
        ),
{
    lemma_props_in_any_order(
        evaluator,
        a.name,
        crate::attributes::regular_attributes(a.props),
        crate::attributes::regular_attributes(b.props),
        scope,
    );
}

/// The copies of a component call for the items of a loop do not depend on
/// the order of its props.
pub proof fn lemma_prop_order_each<E: Evaluator>(
    evaluator: &E,
    a: crate::nodes::ComponentView,
    b: crate::nodes::ComponentView,
    pattern: Seq<char>,
    items: Seq<E::Value>,
    scope: Seq<(Seq<char>, E::Value)>,
)
    requires
        same_call_in_any_order(a, b),
    ensures
        same_unless_failed(
            rendered_each(evaluator, NodeView::Component(a), pattern, items, scope),
            rendered_each(evaluator, NodeView::Component(b), pattern, items, scope),
        ),
    decreases items.len(),
{
    if items.len() > 0 {
        lemma_prop_order_once(evaluator, a, b, scope.push((pattern, items.first())));
        lemma_prop_order_each(evaluator, a, b, pattern, items.skip(1), scope);
    }
}

/// Passing the same named props to a component in another order gives the
/// same nodes: the two calls both fail, or render to the same.
pub proof fn lemma_prop_order_is_immaterial<E: Evaluator>(
    evaluator: &E,
    a: crate::nodes::ComponentView,
    b: crate::nodes::ComponentView,
    scope: Seq<(Seq<char>, E::Value)>,
)
    requires
        same_call_in_any_order(a, b),
    ensures
        same_unless_failed(
            rendered_node(evaluator, NodeView::Component(a), scope),
            rendered_node(evaluator, NodeView::Component(b), scope),
        ),
{
    lemma_prop_order_once(evaluator, a, b, scope);
    match crate::attributes::first_for(a.props) {
        Some(for_expr) => match evaluator.items_of(for_expr.collection, scope) {
            Ok(items) => {
                lemma_prop_order_each(evaluator, a, b, for_expr.pat, items, scope);
            },
            Err(_) => {},
        },
        None => {},
    }
}

/// `prepend` twice is `prepend` of the two fronts joined.
pub proof fn lemma_prepend_twice<T>(first: Seq<T>, second: Seq<T>, rest: Result<Seq<T>, RenderErrorView>)
    ensures
        prepend(first, prepend(second, rest)) == prepend(first + second, rest),
{
    match rest {
        Ok(back) => {
            assert(first + (second + back) =~= (first + second) + back);
        },
        Err(_) => {},
    }
}

/// The text that a text literal stands for.
pub fn render_text<E: Evaluator>(
    evaluator: &E,
    literal: &str,
    scope: &Vec<Binding<E::Value>>,
) -> (text: Result<String, RenderError>)
    ensures
        crate::context::text_result_view(text) == text_of(
            evaluator,
            literal@,
            crate::context::scope_view(scope@),
        ),
{
    let ghost bound = crate::context::scope_view(scope@);
    let chars = chars_of(literal);
    let mut out = String::new();
    let mut i: usize = 0;
    assert(chars@.skip(0) =~= chars@);
    assert(Seq::<char>::empty() + chars@ =~= chars@);
    proof {
        match text_from(evaluator, literal@, chars@, bound) {
            Ok(back) => {
                assert(Seq::<char>::empty() + back =~= back);
            },
            Err(_) => {},
        }
    }
    while i < chars.len()
        invariant
            chars@ == literal@,
            i <= chars.len(),
            bound == crate::context::scope_view(scope@),
            text_of(evaluator, literal@, bound) == prepend(
                out@,
                text_from(evaluator, literal@, chars@.skip(i as int), bound),
            ),
        decreases chars.len() - i,
    {
        let ghost rest = chars@.skip(i as int);
        let ghost before = out@;
        let c = chars[i];
        let doubled = i + 1 < chars.len() && chars[i + 1] == c;
        proof {
            assert(rest[0] == c);
            if i + 1 < chars.len() {
                assert(rest[1] == chars[i + 1]);
                assert(rest.skip(2) =~= chars@.skip(i + 2));
            }
            assert(rest.skip(1) =~= chars@.skip(i + 1));
        }
        if c == '{' && !doubled {
            match find_char(&chars, i + 1, '}') {
                None => {
                    return Err(
                        RenderError {
                            kind: RenderErrorKind::Interpolation,
                            subject: String::from_str(literal),
                        },
                    );
                },
                Some(close) => {
                    let source = substring(&chars, i + 1, close);
                    proof {
                        assert(rest.subrange(1, 1 + (close - (i + 1))) =~= chars@.subrange(
                            i + 1,
                            close as int,
                        ));
                        assert(rest.skip((close - (i + 1)) + 2) =~= chars@.skip(close + 1));
                    }
                    match evaluator.display(source.as_str(), scope) {
                        Err(error) => {
                            return Err(error);
                        },
                        Ok(shown) => {
                            out.append(shown.as_str());
                            proof {
                                lemma_prepend_twice(
                                    before,
                                    shown@,
                                    text_from(evaluator, literal@, chars@.skip(close + 1), bound),
                                );
                            }
                            i = close + 1;
                        },
                    }
                },
            }
        } else if c == '}' && !doubled {
            return Err(
                RenderError {
                    kind: RenderErrorKind::Interpolation,
                    subject: String::from_str(literal),
                },
            );
        } else if (c == '{' || c == '}') && doubled {
            push_char(&mut out, c);
            proof {
                assert(before.push(c) =~= before + seq![c]);
                lemma_prepend_twice(
                    before,
                    seq![c],
                    text_from(evaluator, literal@, chars@.skip(i + 2), bound),
                );
            }
            i += 2;
        } else {
            push_char(&mut out, c);
            proof {
                assert(before.push(c) =~= before + seq![c]);
                lemma_prepend_twice(
                    before,
                    seq![c],
                    text_from(evaluator, literal@, chars@.skip(i + 1), bound),
                );
            }
            i += 1;
        }
    }
    assert(out@ + Seq::<char>::empty() =~= out@);
    Ok(out)
}

/// The string that the segments of an interpolated string make.
pub fn interpolate_attr_value<E: Evaluator>(
    evaluator: &E,
    segments: &Vec<InterpolatedSegment>,
    scope: &Vec<Binding<E::Value>>,
) -> (text: Result<String, RenderError>)
    ensures
        crate::context::text_result_view(text) == interpolated(
            evaluator,
            crate::attributes::segments_view(segments@),
            crate::context::scope_view(scope@),
        ),
{
    let ghost bound = crate::context::scope_view(scope@);
    let ghost view = crate::attributes::segments_view(segments@);
    let mut out = String::new();
    let mut i: usize = 0;
    assert(view.skip(0) =~= view);
    proof {
        match interpolated(evaluator, view, bound) {
            Ok(back) => {
                assert(Seq::<char>::empty() + back =~= back);
            },
            Err(_) => {},
        }
    }
    while i < segments.len()
        invariant
            i <= segments.len(),
            bound == crate::context::scope_view(scope@),
            view == crate::attributes::segments_view(segments@),
            interpolated(evaluator, view, bound) == prepend(
                out@,
                interpolated(evaluator, view.skip(i as int), bound),
            ),
        decreases segments.len() - i,
    {
        let ghost before = out@;
        proof {
            assert(view.skip(i as int).first() == segments[i as int]@);
            assert(view.skip(i as int).skip(1) =~= view.skip(i + 1));
        }
        match &segments[i] {
            InterpolatedSegment::Str(text) => {
                out.append(text.as_str());
                proof {
                    lemma_prepend_twice(
                        before,
                        text@,
                        interpolated(evaluator, view.skip(i + 1), bound),
                    );
                }
            },
            InterpolatedSegment::Expr(source) => {
                match evaluator.display(source.as_str(), scope) {
                    Err(error) => {
                        return Err(error);
                    },
                    Ok(shown) => {
                        out.append(shown.as_str());
                        proof {
                            lemma_prepend_twice(
                                before,
                                shown@,
                                interpolated(evaluator, view.skip(i + 1), bound),
                            );
                        }
                    },
                }
            },
        }
        i += 1;
    }
    assert(out@ + Seq::<char>::empty() =~= out@);
    Ok(out)
}

/// The string that an attribute value stands for, before escaping.
fn render_value_text<E: Evaluator>(
    evaluator: &E,
    value: &AttrValue,
    scope: &Vec<Binding<E::Value>>,
) -> (text: Result<String, RenderError>)
    ensures
        crate::context::text_result_view(text) == value_text(
            evaluator,
            value@,
            crate::context::scope_view(scope@),
        ),
{
    match value {
        AttrValue::Literal(text) => Ok(text.clone()),
        AttrValue::Expression(source) => evaluator.display(source.as_str(), scope),
        AttrValue::Interpolated(segments) => interpolate_attr_value(evaluator, segments, scope),
    }
}

/// The view of a rendered attribute, or its error.
pub open spec fn attribute_result_view(
    result: Result<crate::fragment::Attribute, RenderError>,
) -> Result<crate::fragment::AttributeView, RenderErrorView> {
    match result {
        Ok(attribute) => Ok(attribute@),
        Err(error) => Err(error@),
    }
}

/// Renders one attribute of an element: its name, then its value.
pub fn generate_attribute<E: Evaluator>(
    evaluator: &E,
    attribute: &RegularAttribute,
    scope: &Vec<Binding<E::Value>>,
) -> (rendered: Result<crate::fragment::Attribute, RenderError>)
    ensures
        attribute_result_view(rendered) == rendered_attribute(
            evaluator,
            attribute@,
            crate::context::scope_view(scope@),
        ),
{
    let name = match &attribute.name {
        AttrName::Literal(text) => text.clone(),
        AttrName::Expression(source) => match evaluator.display(source.as_str(), scope) {
            Err(error) => {
                return Err(error);
            },
            Ok(shown) => escape_attribute(shown.as_str()),
        },
    };
    match &attribute.value {
        None => Ok(crate::fragment::Attribute { name, value: None }),
        Some(value) => match render_value_text(evaluator, value, scope) {
            Err(error) => Err(error),
            Ok(text) => Ok(
                crate::fragment::Attribute { name, value: Some(escape_attribute(text.as_str())) },
            ),
        },
    }
}

/// The views of rendered attributes, or the error.
pub open spec fn attributes_result_view(
    result: Result<Vec<crate::fragment::Attribute>, RenderError>,
) -> Result<Seq<crate::fragment::AttributeView>, RenderErrorView> {
    match result {
        Ok(attributes) => Ok(crate::fragment::attributes_view(attributes@)),
        Err(error) => Err(error@),
    }
}

/// Renders the attributes of an element, in the order written.
fn generate_attributes<E: Evaluator>(
    evaluator: &E,
    attributes: &Vec<&RegularAttribute>,
    scope: &Vec<Binding<E::Value>>,
) -> (rendered: Result<Vec<crate::fragment::Attribute>, RenderError>)
    ensures
        attributes_result_view(rendered) == rendered_attributes(
            evaluator,
            crate::attributes::regular_views(attributes@),
            crate::context::scope_view(scope@),
        ),
{
    let ghost bound = crate::context::scope_view(scope@);
    let ghost view = crate::attributes::regular_views(attributes@);
    let mut out: Vec<crate::fragment::Attribute> = Vec::new();
    let mut i: usize = 0;
    assert(view.skip(0) =~= view);
    proof {
        assert(crate::fragment::attributes_view(out@) =~= Seq::empty());
        match rendered_attributes(evaluator, view, bound) {
            Ok(back) => {
                assert(Seq::<crate::fragment::AttributeView>::empty() + back =~= back);
            },
            Err(_) => {},
        }
    }
    while i < attributes.len()
        invariant
            i <= attributes.len(),
            bound == crate::context::scope_view(scope@),
            view == crate::attributes::regular_views(attributes@),
            rendered_attributes(evaluator, view, bound) == prepend(
                crate::fragment::attributes_view(out@),
                rendered_attributes(evaluator, view.skip(i as int), bound),
            ),
        decreases attributes.len() - i,
    {
        let ghost before = crate::fragment::attributes_view(out@);
        proof {
            assert(view.skip(i as int).first() == attributes[i as int]@);
            assert(view.skip(i as int).skip(1) =~= view.skip(i + 1));
        }
        match generate_attribute(evaluator, attributes[i], scope) {
            Err(error) => {
                return Err(error);
            },
            Ok(attribute) => {
                let ghost added = attribute@;
                out.push(attribute);
                proof {
                    assert(crate::fragment::attributes_view(out@) =~= before + seq![added]);
                    lemma_prepend_twice(
                        before,
                        seq![added],
                        rendered_attributes(evaluator, view.skip(i + 1), bound),
                    );
                }
            },
        }
        i += 1;
    }
    assert(crate::fragment::attributes_view(out@) + Seq::<crate::fragment::AttributeView>::empty()
        =~= crate::fragment::attributes_view(out@));
    Ok(out)
}

/// The name of a rendered prop and what it is given, or the error.
pub open spec fn prop_result_view<V>(result: Result<Prop<V>, RenderError>) -> Result<
    (Seq<char>, PropValueView<V>),
    RenderErrorView,
> {
    match result {
        Ok(prop) => Ok((prop.name@, prop.value@)),
        Err(error) => Err(error@),
    }
}

/// Renders one prop of a call of `component`.
fn render_prop<E: Evaluator>(
    evaluator: &E,
    component: &str,
    attribute: &RegularAttribute,
    scope: &Vec<Binding<E::Value>>,
) -> (rendered: Result<Prop<E::Value>, RenderError>)
    ensures
        prop_result_view(rendered) == rendered_prop(
            evaluator,
            component@,
            attribute@,
            crate::context::scope_view(scope@),
        ),
{
    let name = match attribute.name.identifier() {
        None => {
            return Err(
                RenderError {
                    kind: RenderErrorKind::PropName,
                    subject: String::from_str(component),
                },
            );
        },
        Some(text) => text,
    };
    let value = match &attribute.value {
        None => PropValue::Bare,
        Some(AttrValue::Literal(text)) => PropValue::Text(text.clone()),
        Some(AttrValue::Expression(source)) => match evaluator.value(source.as_str(), scope) {
            Err(error) => {
                return Err(error);
            },
            Ok(v) => PropValue::Value(v),
        },
        Some(AttrValue::Interpolated(segments)) => match interpolate_attr_value(
            evaluator,
            segments,
            scope,
        ) {
            Err(error) => {
                return Err(error);
            },
            Ok(text) => PropValue::Text(text),
        },
    };
    Ok(Prop { name: name.clone(), value })
}

/// Whether `result` holds the mapping of the props in `rendered`, or the
/// error in `rendered`.
pub open spec fn is_mapping_of<V>(
    result: Result<PropValues<V>, RenderError>,
    rendered: Result<Seq<(Seq<char>, PropValueView<V>)>, RenderErrorView>,
) -> bool {
    match result {
        Ok(props) => rendered is Ok && props@ == crate::context::props_map(rendered->Ok_0),
        Err(error) => rendered == Err::<Seq<(Seq<char>, PropValueView<V>)>, RenderErrorView>(
            error@,
        ),
    }
}

/// Renders the props of a call of `component`, in the order written.
fn render_props<E: Evaluator>(
    evaluator: &E,
    component: &str,
    attributes: &Vec<&RegularAttribute>,
    scope: &Vec<Binding<E::Value>>,
) -> (rendered: Result<PropValues<E::Value>, RenderError>)
    ensures
        is_mapping_of(
            rendered,
            rendered_props(
                evaluator,
                component@,
                crate::attributes::regular_views(attributes@),
                crate::context::scope_view(scope@),
            ),
        ),
{
    let ghost bound = crate::context::scope_view(scope@);
    let ghost view = crate::attributes::regular_views(attributes@);
    let mut out: Vec<Prop<E::Value>> = Vec::new();
    let mut i: usize = 0;
    assert(view.skip(0) =~= view);
    proof {
        assert(crate::context::props_view(out@) =~= Seq::empty());
        match rendered_props(evaluator, component@, view, bound) {
            Ok(back) => {
                assert(Seq::<(Seq<char>, PropValueView<E::Value>)>::empty() + back =~= back);
            },
            Err(_) => {},
        }
    }
    while i < attributes.len()
        invariant
            i <= attributes.len(),
            bound == crate::context::scope_view(scope@),
            view == crate::attributes::regular_views(attributes@),
            rendered_props(evaluator, component@, view, bound) == prepend(
                crate::context::props_view(out@),
                rendered_props(evaluator, component@, view.skip(i as int), bound),
            ),
        decreases attributes.len() - i,
    {
        let ghost before = crate::context::props_view(out@);
        proof {
            assert(view.skip(i as int).first() == attributes[i as int]@);
            assert(view.skip(i as int).skip(1) =~= view.skip(i + 1));
        }
        match render_prop(evaluator, component, attributes[i], scope) {
            Err(error) => {
                return Err(error);
            },
            Ok(prop) => {
                let ghost added = (prop.name@, prop.value@);
                out.push(prop);
                proof {
                    assert(crate::context::props_view(out@) =~= before + seq![added]);
                    lemma_prepend_twice(
                        before,
                        seq![added],
                        rendered_props(evaluator, component@, view.skip(i + 1), bound),
                    );
                }
            },
        }
        i += 1;
    }
    assert(crate::context::props_view(out@) + Seq::<(Seq<char>, PropValueView<E::Value>)>::empty()
        =~= crate::context::props_view(out@));
    Ok(PropValues::from_props(out))
}

/// The items of a vector in the opposite order.
fn reversed<T>(items: Vec<T>) -> (back: Vec<T>)
    ensures
        back.len() == items.len(),
        forall|j: int| 0 <= j < back.len() ==> back[j] == items[items.len() - 1 - j],
{
    let ghost all = items@;
    let mut items = items;
    let mut back: Vec<T> = Vec::new();
    while items.len() > 0
        invariant
            items.len() + back.len() == all.len(),
            forall|j: int| 0 <= j < items.len() ==> items[j] == all[j],
            forall|j: int| 0 <= j < back.len() ==> back[j] == all[all.len() - 1 - j],
        decreases items.len(),
    {
        match items.pop() {
            Some(item) => {
                back.push(item);
            },
            None => {},
        }
    }
    back
}

/// The views of rendered nodes, or the error.
pub open spec fn nodes_result_view(result: Result<Vec<crate::fragment::Node>, RenderError>) -> Result<
    Seq<crate::fragment::NodeView>,
    RenderErrorView,
> {
    match result {
        Ok(nodes) => Ok(crate::fragment::nodes_view(nodes@)),
        Err(error) => Err(error@),
    }
}

/// Renders a sequence of template nodes with the bindings in `scope`,
/// which it leaves as they are.
pub fn render_nodes<E: Evaluator>(
    evaluator: &E,
    nodes: &Vec<Node>,
    scope: &mut Vec<Binding<E::Value>>,
) -> (rendered: Result<Vec<crate::fragment::Node>, RenderError>)
    ensures
        final(scope)@ == old(scope)@,
        nodes_result_view(rendered) == rendered_nodes(
            evaluator,
            crate::nodes::nodes_view(nodes@),
            crate::context::scope_view(old(scope)@),
        ),
    decreases nodes, 0nat, 0nat,
{
    let ghost bound = crate::context::scope_view(scope@);
    let ghost view = crate::nodes::nodes_view(nodes@);
    let mut out: Vec<crate::fragment::Node> = Vec::new();
    let mut i: usize = 0;
    assert(view.skip(0) =~= view);
    proof {
        assert(crate::fragment::nodes_view(out@) =~= Seq::empty());
        match rendered_nodes(evaluator, view, bound) {
            Ok(back) => {
                assert(Seq::<crate::fragment::NodeView>::empty() + back =~= back);
            },
            Err(_) => {},
        }
    }
    while i < nodes.len()
        invariant
            i <= nodes.len(),
            scope@ == old(scope)@,
            bound == crate::context::scope_view(scope@),
            view == crate::nodes::nodes_view(nodes@),
            rendered_nodes(evaluator, view, bound) == prepend(
                crate::fragment::nodes_view(out@),
                rendered_nodes(evaluator, view.skip(i as int), bound),
            ),
        decreases nodes.len() - i,
    {
        let ghost before = crate::fragment::nodes_view(out@);
        proof {
            assert(view.skip(i as int).first() == nodes[i as int]@);
            assert(view.skip(i as int).skip(1) =~= view.skip(i + 1));
        }
        match generate_node(evaluator, &nodes[i], scope) {
            Err(error) => {
                return Err(error);
            },
            Ok(mut part) => {
                let ghost added = crate::fragment::nodes_view(part@);
                out.append(&mut part);
                proof {
                    assert(crate::fragment::nodes_view(out@) =~= before + added);
                    lemma_prepend_twice(
                        before,
                        added,
                        rendered_nodes(evaluator, view.skip(i + 1), bound),
                    );
                }
            },
        }
        i += 1;
    }
    assert(crate::fragment::nodes_view(out@) + Seq::<crate::fragment::NodeView>::empty()
        =~= crate::fragment::nodes_view(out@));
    Ok(out)
}

/// The attributes of a node: those of a tag, the props of a component
/// call, none of any other node.
fn attributes_of_node(node: &Node) -> (attributes: Option<&Vec<Attribute>>)
    ensures
        match attributes {
            Some(list) => attributes_of(node@) == crate::attributes::attributes_view(list@),
            None => attributes_of(node@) == Seq::<crate::attributes::AttributeView>::empty(),
        },
{
    match node {
        Node::Element(tag) => Some(&tag.attributes),
        Node::Component(component) => Some(&component.props),
        _ => None,
    }
}

/// Renders one template node with the bindings in `scope`, which it leaves
/// as they are: nothing where its `:if` does not hold, one copy per item of
/// its `:for`, one copy where it has no `:for`.
pub fn generate_node<E: Evaluator>(
    evaluator: &E,
    node: &Node,
    scope: &mut Vec<Binding<E::Value>>,
) -> (rendered: Result<Vec<crate::fragment::Node>, RenderError>)
    ensures
        final(scope)@ == old(scope)@,
        nodes_result_view(rendered) == rendered_node(
            evaluator,
            node@,
            crate::context::scope_view(old(scope)@),
        ),
    decreases node, 3nat, 0nat,
{
    let condition = match attributes_of_node(node) {
        Some(attributes) => first_if_of(attributes),
        None => None,
    };
    match condition {
        None => render_looped(evaluator, node, scope),
        Some(source) => match evaluator.truth(source.as_str(), scope) {
            Err(error) => Err(error),
            Ok(false) => {
                let nothing: Vec<crate::fragment::Node> = Vec::new();
                assert(crate::fragment::nodes_view(nothing@) =~= Seq::empty());
                Ok(nothing)
            },
            Ok(true) => render_looped(evaluator, node, scope),
        },
    }
}

/// Renders one template node whose `:if` holds.
fn render_looped<E: Evaluator>(
    evaluator: &E,
    node: &Node,
    scope: &mut Vec<Binding<E::Value>>,
) -> (rendered: Result<Vec<crate::fragment::Node>, RenderError>)
    ensures
        final(scope)@ == old(scope)@,
        nodes_result_view(rendered) == rendered_looped(
            evaluator,
            node@,
            crate::context::scope_view(old(scope)@),
        ),
    decreases node, 2nat, 0nat,
{
    let for_expr = match attributes_of_node(node) {
        Some(attributes) => first_for_of(attributes),
        None => None,
    };
    match for_expr {
        None => render_once(evaluator, node, scope),
        Some(for_expr) => match evaluator.items(for_expr.collection.as_str(), scope) {
            Err(error) => Err(error),
            Ok(items) => render_each(evaluator, node, &for_expr.pat, items, scope),
        },
    }
}

/// Renders one copy of a template node per item, each with `pattern` bound
/// to its item.
fn render_each<E: Evaluator>(
    evaluator: &E,
    node: &Node,
    pattern: &String,
    items: Vec<E::Value>,
    scope: &mut Vec<Binding<E::Value>>,
) -> (rendered: Result<Vec<crate::fragment::Node>, RenderError>)
    ensures
        final(scope)@ == old(scope)@,
        nodes_result_view(rendered) == rendered_each(
            evaluator,
            node@,
            pattern@,
            items@,
            crate::context::scope_view(old(scope)@),
        ),
    decreases node, 1nat, 0nat,
{
    let ghost bound = crate::context::scope_view(scope@);
    let ghost all = items@;
    let mut pending = reversed(items);
    let mut out: Vec<crate::fragment::Node> = Vec::new();
    let ghost mut done: int = 0;
    assert(all.skip(0) =~= all);
    proof {
        assert(crate::fragment::nodes_view(out@) =~= Seq::empty());
        match rendered_each(evaluator, node@, pattern@, all, bound) {
            Ok(back) => {
                assert(Seq::<crate::fragment::NodeView>::empty() + back =~= back);
            },
            Err(_) => {},
        }
    }
    while pending.len() > 0
        invariant
            scope@ == old(scope)@,
            bound == crate::context::scope_view(scope@),
            all == items@,
            0 <= done <= all.len(),
            pending.len() == all.len() - done,
            forall|j: int| 0 <= j < pending.len() ==> pending[j] == all[all.len() - 1 - j],
            rendered_each(evaluator, node@, pattern@, all, bound) == prepend(
                crate::fragment::nodes_view(out@),
                rendered_each(evaluator, node@, pattern@, all.skip(done), bound),
            ),
        decreases pending.len(),
    {
        let ghost before = crate::fragment::nodes_view(out@);
        proof {
            assert(all.skip(done).first() == all[done]);
            assert(all.skip(done).skip(1) =~= all.skip(done + 1));
        }
        match pending.pop() {
            None => {},
            Some(item) => {
                assert(item == all[done]);
                scope.push(Binding { pattern: pattern.clone(), value: item });
                assert(crate::context::scope_view(scope@) =~= bound.push((pattern@, item)));
                let result = render_once(evaluator, node, scope);
                scope.pop();
                assert(scope@ =~= old(scope)@);
                match result {
                    Err(error) => {
                        return Err(error);
                    },
                    Ok(mut part) => {
                        let ghost added = crate::fragment::nodes_view(part@);
                        out.append(&mut part);
                        proof {
                            assert(crate::fragment::nodes_view(out@) =~= before + added);
                            lemma_prepend_twice(
                                before,
                                added,
                                rendered_each(evaluator, node@, pattern@, all.skip(done + 1), bound),
                            );
                            done = done + 1;
                        }
                    },
                }
            },
        }
    }
    assert(crate::fragment::nodes_view(out@) + Seq::<crate::fragment::NodeView>::empty()
        =~= crate::fragment::nodes_view(out@));
    Ok(out)
}

/// Renders one copy of a template node, without regard to its `:if` and
/// `:for`.
fn render_once<E: Evaluator>(
    evaluator: &E,
    node: &Node,
    scope: &mut Vec<Binding<E::Value>>,
) -> (rendered: Result<Vec<crate::fragment::Node>, RenderError>)
    ensures
        final(scope)@ == old(scope)@,
        nodes_result_view(rendered) == rendered_once(
            evaluator,
            node@,
            crate::context::scope_view(old(scope)@),
        ),
    decreases node, 0nat, 0nat,
{
    let one = match node {
        Node::DocType => crate::fragment::Node::DocType,
        Node::BareText(text) => crate::fragment::Node::Text(escape_text(text.as_str())),
        Node::Text(literal) => match render_text(evaluator, literal.as_str(), scope) {
            Err(error) => {
                return Err(error);
            },
            Ok(text) => crate::fragment::Node::Text(escape_text(text.as_str())),
        },
        Node::Expression(source) => match evaluator.display(source.as_str(), scope) {
            Err(error) => {
                return Err(error);
            },
            Ok(shown) => crate::fragment::Node::Text(escape_text(shown.as_str())),
        },
        Node::UnescapedExpression(source) => match evaluator.display(source.as_str(), scope) {
            Err(error) => {
                return Err(error);
            },
            Ok(shown) => crate::fragment::Node::Text(shown),
        },
        Node::Element(tag) => {
            let regular = crate::attributes::regular_attributes_of(&tag.attributes);
            let attributes = match generate_attributes(evaluator, &regular, scope) {
                Err(error) => {
                    return Err(error);
                },
                Ok(attributes) => attributes,
            };
            let children = match render_nodes(evaluator, &tag.children, scope) {
                Err(error) => {
                    return Err(error);
                },
                Ok(children) => children,
            };
            crate::fragment::Node::Element(
                ElementData {
                    tag_name: tag.tag_name.clone(),
                    attributes,
                    children: HtmlFragment::Nodes(children),
                    self_closing: tag.self_closing,
                },
            )
        },
        Node::Component(component) => {
            let slot = if component.children.len() > 0 {
                match render_nodes(evaluator, &component.children, scope) {
                    Err(error) => {
                        return Err(error);
                    },
                    Ok(nodes) => Some(HtmlFragment::Nodes(nodes)),
                }
            } else {
                None
            };
            let regular = crate::attributes::regular_attributes_of(&component.props);
            let props = match render_props(evaluator, component.name.as_str(), &regular, scope) {
                Err(error) => {
                    return Err(error);
                },
                Ok(props) => props,
            };
            return match evaluator.component(component.name.as_str(), props, slot) {
                Err(error) => Err(error),
                Ok(fragment) => match fragment {
                    HtmlFragment::Nodes(nodes) => Ok(nodes),
                },
            };
        },
    };
    let mut out: Vec<crate::fragment::Node> = Vec::new();
    out.push(one);
    assert(crate::fragment::nodes_view(out@) =~= seq![one@]);
    Ok(out)
}

/// Renders a template against an evaluator, with no loop binding in scope.
pub fn generate_nodes<E: Evaluator>(nodes: &NodeCollection, evaluator: &E) -> (rendered: Result<
    HtmlFragment,
    RenderError,
>)
    ensures
        crate::context::fragment_result_view(rendered) == rendered_nodes(
            evaluator,
            nodes@,
            Seq::empty(),
        ),
{
    let mut scope: Vec<Binding<E::Value>> = Vec::new();
    assert(crate::context::scope_view(scope@) =~= Seq::empty());
    match nodes {
        NodeCollection::Nodes(list) => match render_nodes(evaluator, list, &mut scope) {
            Err(error) => Err(error),
            Ok(rendered) => Ok(HtmlFragment::Nodes(rendered)),
        },
    }
}

} // verus!
