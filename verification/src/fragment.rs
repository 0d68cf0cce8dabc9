//! The rendered tree: fragments, nodes, elements and attributes, with their
//! serialization to HTML text and the operations that edit them.

use vstd::prelude::*;
use vstd::string::StringExecFns;
use crate::text::str_eq;

verus! {

/// An ordered sequence of rendered nodes.
#[derive(Debug)]
pub enum HtmlFragment {
    Nodes(Vec<Node>),
}

/// One rendered node.
#[derive(Debug)]
pub enum Node {
    Element(ElementData),
    Text(String),
    DocType,
}

/// A rendered element: its tag name, attributes in order, children, and
/// whether it is written as a self-closing tag.
#[derive(Debug)]
pub struct ElementData {
    pub tag_name: String,
    pub attributes: Vec<Attribute>,
    pub children: HtmlFragment,
    pub self_closing: bool,
}

/// A rendered attribute. Without a value it is written as a bare name.
#[derive(Debug)]
pub struct Attribute {
    pub name: String,
    pub value: Option<String>,
}

/// The mathematical value of an [`Attribute`].
pub struct AttributeView {
    pub name: Seq<char>,
    pub value: Option<Seq<char>>,
}

/// The mathematical value of an [`ElementData`].
pub struct ElementView {
    pub tag_name: Seq<char>,
    pub attributes: Seq<AttributeView>,
    pub children: Seq<NodeView>,
    pub self_closing: bool,
}

/// The mathematical value of a [`Node`].
pub enum NodeView {
    Element(ElementView),
    Text(Seq<char>),
    DocType,
}

impl View for Attribute {
    type V = AttributeView;

    open spec fn view(&self) -> AttributeView {
        AttributeView {
            name: self.name@,
            value: match self.value {
                Some(v) => Some(v@),
                None => None,
            },
        }
    }
}

/// The values of a sequence of attributes, in order.
pub open spec fn attributes_view(attributes: Seq<Attribute>) -> Seq<AttributeView> {
    Seq::new(attributes.len(), |i: int| attributes[i]@)
}

/// The values of a sequence of nodes, in order.
pub open spec fn nodes_view(nodes: Seq<Node>) -> Seq<NodeView>
    decreases nodes,
{
    Seq::new(
        nodes.len(),
        |i: int|
            if 0 <= i < nodes.len() {
                node_view(nodes[i])
            } else {
                NodeView::DocType
            },
    )
}

/// The value of a node.
pub open spec fn node_view(node: Node) -> NodeView
    decreases node,
{
    match node {
        Node::Element(element) => NodeView::Element(element_view(element)),
        Node::Text(text) => NodeView::Text(text@),
        Node::DocType => NodeView::DocType,
    }
}

/// The value of an element.
pub open spec fn element_view(element: ElementData) -> ElementView
    decreases element,
{
    ElementView {
        tag_name: element.tag_name@,
        attributes: attributes_view(element.attributes@),
        children: match element.children {
            HtmlFragment::Nodes(nodes) => nodes_view(nodes@),
        },
        self_closing: element.self_closing,
    }
}

impl View for Node {
    type V = NodeView;

    open spec fn view(&self) -> NodeView {
        node_view(*self)
    }
}

impl View for ElementData {
    type V = ElementView;

    open spec fn view(&self) -> ElementView {
        element_view(*self)
    }
}

impl View for HtmlFragment {
    type V = Seq<NodeView>;

    open spec fn view(&self) -> Seq<NodeView> {
        match *self {
            HtmlFragment::Nodes(nodes) => nodes_view(nodes@),
        }
    }
}

/// The text of one attribute: a space, the name and, where there is a value,
/// the value between double quotes after an equals sign.
pub open spec fn attribute_html(attribute: AttributeView) -> Seq<char> {
    match attribute.value {
        Some(value) => " "@ + attribute.name + "=\""@ + value + "\""@,
        None => " "@ + attribute.name,
    }
}

/// The text of a sequence of attributes: the text of each, in order.
pub open spec fn attributes_html(attributes: Seq<AttributeView>) -> Seq<char>
    decreases attributes.len(),
{
    if attributes.len() == 0 {
        Seq::empty()
    } else {
        attributes_html(attributes.drop_last()) + attribute_html(attributes.last())
    }
}

/// The text of a sequence of nodes: the text of each, in order.
pub open spec fn nodes_html(nodes: Seq<NodeView>) -> Seq<char>
    decreases nodes,
{
    if nodes.len() == 0 {
        Seq::empty()
    } else {
        nodes_html(nodes.drop_last()) + node_html(nodes.last())
    }
}

/// The text of a node.
pub open spec fn node_html(node: NodeView) -> Seq<char>
    decreases node,
{
    match node {
        NodeView::Element(element) => element_html(element),
        NodeView::Text(text) => text,
        NodeView::DocType => "<!DOCTYPE html>"@,
    }
}

/// The text of an element: a self-closing tag, or an opening tag, the
/// children and a closing tag.
pub open spec fn element_html(element: ElementView) -> Seq<char>
    decreases element,
{
    if element.self_closing {
        "<"@ + element.tag_name + attributes_html(element.attributes) + " />"@
    } else {
        "<"@ + element.tag_name + attributes_html(element.attributes) + ">"@ + nodes_html(
            element.children,
        ) + "</"@ + element.tag_name + ">"@
    }
}

/// Serializing is a function of the fragment: two serializations of one
/// fragment give the same text.
pub proof fn lemma_serializing_twice_gives_the_same(
    fragment: HtmlFragment,
    first: String,
    second: String,
)
    requires
        first@ == nodes_html(fragment@),
        second@ == nodes_html(fragment@),
    ensures
        first@ == second@,
{
}

/// The attributes that are left when every one called `name` is taken out.
pub open spec fn attributes_without(attributes: Seq<AttributeView>, name: Seq<char>) -> Seq<
    AttributeView,
>
    decreases attributes.len(),
{
    if attributes.len() == 0 {
        Seq::empty()
    } else if attributes.last().name == name {
        attributes_without(attributes.drop_last(), name)
    } else {
        attributes_without(attributes.drop_last(), name).push(attributes.last())
    }
}

/// Whether `index` is the place of the first attribute called `name`.
pub open spec fn is_first_named(attributes: Seq<AttributeView>, name: Seq<char>, index: int) -> bool {
    &&& 0 <= index < attributes.len()
    &&& attributes[index].name == name
    &&& forall|j: int| 0 <= j < index ==> (#[trigger] attributes[j]).name != name
}

/// The elements among a sequence of nodes, in order.
pub open spec fn elements_of(nodes: Seq<NodeView>) -> Seq<ElementView>
    decreases nodes.len(),
{
    if nodes.len() == 0 {
        Seq::empty()
    } else {
        match nodes.first() {
            NodeView::Element(element) => seq![element] + elements_of(nodes.skip(1)),
            _ => elements_of(nodes.skip(1)),
        }
    }
}

/// Walks over the elements among the nodes of a fragment, in order.
pub struct ElementDataIter<'a> {
    nodes: &'a Vec<Node>,
    position: usize,
}

/// Walks over the elements among the nodes of a fragment, in order, and
/// hands each out for editing.
pub struct ElementDataIterMut<'a> {
    /// The nodes that the iterator walks over.
    pub nodes: &'a mut Vec<Node>,
    /// How many of them it has passed.
    pub position: usize,
}

impl<'a> View for ElementDataIter<'a> {
    type V = Seq<ElementView>;

    /// The elements that are still to come.
    closed spec fn view(&self) -> Seq<ElementView> {
        if self.position <= self.nodes.len() {
            elements_of(nodes_view(self.nodes@).skip(self.position as int))
        } else {
            Seq::empty()
        }
    }
}

impl<'a> ElementDataIter<'a> {
    /// The next element, if one is left.
    pub fn next(&mut self) -> (element: Option<&'a ElementData>)
        ensures
            match element {
                Some(e) => old(self)@.len() > 0 && e@ == old(self)@[0] && final(self)@ == old(
                    self,
                )@.skip(1),
                None => old(self)@.len() == 0 && final(self)@.len() == 0,
            },
    {
        let ghost view = nodes_view(self.nodes@);
        if self.position > self.nodes.len() {
            return None;
        }
        assert(view.skip(self.nodes.len() as int) =~= Seq::empty());
        while self.position < self.nodes.len()
            invariant
                self.nodes == old(self).nodes,
                view == nodes_view(self.nodes@),
                self.position <= self.nodes.len(),
                self@ == old(self)@,
            decreases self.nodes.len() - self.position,
        {
            let ghost rest = view.skip(self.position as int);
            proof {
                assert(rest.skip(1) =~= view.skip(self.position + 1));
                assert(rest.first() == self.nodes[self.position as int]@);
            }
            let node = &self.nodes[self.position];
            self.position += 1;
            match node {
                Node::Element(element) => {
                    assert(old(self)@ =~= seq![element@] + self@);
                    assert(self@ =~= old(self)@.skip(1));
                    return Some(element);
                },
                _ => {},
            }
        }
        None
    }

    /// How many elements are left.
    pub fn count(self) -> (left: usize)
        ensures
            left == self@.len(),
    {
        let ghost view = nodes_view(self.nodes@);
        let mut left: usize = 0;
        let mut i: usize = self.position;
        if i > self.nodes.len() {
            return 0;
        }
        assert(view.skip(self.nodes.len() as int) =~= Seq::empty());
        while i < self.nodes.len()
            invariant
                view == nodes_view(self.nodes@),
                self.position <= i <= self.nodes.len(),
                left + elements_of(view.skip(i as int)).len() == self@.len(),
                left <= i,
            decreases self.nodes.len() - i,
        {
            let ghost rest = view.skip(i as int);
            proof {
                assert(rest.skip(1) =~= view.skip(i + 1));
                assert(rest.first() == self.nodes[i as int]@);
            }
            match &self.nodes[i] {
                Node::Element(_) => {
                    left += 1;
                },
                _ => {},
            }
            i += 1;
        }
        left
    }
}

fn clone_attribute(attribute: &Attribute) -> (copy: Attribute)
    ensures
        copy@ == attribute@,
{
    let value = match &attribute.value {
        Some(text) => Some(text.clone()),
        None => None,
    };
    Attribute { name: attribute.name.clone(), value }
}

fn clone_attributes(attributes: &Vec<Attribute>) -> (copy: Vec<Attribute>)
    ensures
        attributes_view(copy@) == attributes_view(attributes@),
{
    let mut copy: Vec<Attribute> = Vec::new();
    let mut i: usize = 0;
    while i < attributes.len()
        invariant
            i <= attributes.len(),
            copy.len() == i,
            forall|j: int| 0 <= j < i ==> (#[trigger] copy[j])@ == attributes[j]@,
        decreases attributes.len() - i,
    {
        copy.push(clone_attribute(&attributes[i]));
        i += 1;
    }
    assert(attributes_view(copy@) =~= attributes_view(attributes@));
    copy
}

fn clone_nodes(nodes: &Vec<Node>) -> (copy: Vec<Node>)
    ensures
        nodes_view(copy@) == nodes_view(nodes@),
    decreases nodes,
{
    let mut copy: Vec<Node> = Vec::new();
    let mut i: usize = 0;
    while i < nodes.len()
        invariant
            i <= nodes.len(),
            copy.len() == i,
            forall|j: int| 0 <= j < i ==> (#[trigger] copy[j])@ == nodes[j]@,
        decreases nodes.len() - i,
    {
        copy.push(clone_node(&nodes[i]));
        i += 1;
    }
    assert(nodes_view(copy@) =~= nodes_view(nodes@));
    copy
}

fn clone_node(node: &Node) -> (copy: Node)
    ensures
        copy@ == node@,
    decreases node,
{
    match node {
        Node::Element(element) => Node::Element(clone_element(element)),
        Node::Text(text) => Node::Text(text.clone()),
        Node::DocType => Node::DocType,
    }
}

fn clone_element(element: &ElementData) -> (copy: ElementData)
    ensures
        copy@ == element@,
    decreases element,
{
    let children = match &element.children {
        HtmlFragment::Nodes(nodes) => HtmlFragment::Nodes(clone_nodes(nodes)),
    };
    ElementData {
        tag_name: element.tag_name.clone(),
        attributes: clone_attributes(&element.attributes),
        children,
        self_closing: element.self_closing,
    }
}

impl Clone for Attribute {
    fn clone(&self) -> (copy: Self)
        ensures
            copy@ == self@,
    {
        clone_attribute(self)
    }
}

impl Clone for Node {
    fn clone(&self) -> (copy: Self)
        ensures
            copy@ == self@,
    {
        clone_node(self)
    }
}

impl Clone for ElementData {
    fn clone(&self) -> (copy: Self)
        ensures
            copy@ == self@,
    {
        clone_element(self)
    }
}

impl Clone for HtmlFragment {
    fn clone(&self) -> (copy: Self)
        ensures
            copy@ == self@,
    {
        match self {
            HtmlFragment::Nodes(nodes) => HtmlFragment::Nodes(clone_nodes(nodes)),
        }
    }
}

fn attributes_to_html(attributes: &Vec<Attribute>) -> (html: String)
    ensures
        html@ == attributes_html(attributes_view(attributes@)),
{
    let ghost view = attributes_view(attributes@);
    let mut html = String::new();
    let mut i: usize = 0;
    while i < attributes.len()
        invariant
            i <= attributes.len(),
            view == attributes_view(attributes@),
            html@ == attributes_html(view.take(i as int)),
        decreases attributes.len() - i,
    {
        let attribute = &attributes[i];
        proof {
            assert(view.take(i + 1).drop_last() =~= view.take(i as int));
            assert(view.take(i + 1).last() == attribute@);
        }
        html.append(" ");
        html.append(attribute.name.as_str());
        match &attribute.value {
            Some(value) => {
                html.append("=\"");
                html.append(value.as_str());
                html.append("\"");
            },
            None => {},
        }
        i += 1;
    }
    assert(view.take(attributes.len() as int) =~= view);
    html
}

fn nodes_to_html(nodes: &Vec<Node>) -> (html: String)
    ensures
        html@ == nodes_html(nodes_view(nodes@)),
    decreases nodes,
{
    let ghost view = nodes_view(nodes@);
    let mut html = String::new();
    let mut i: usize = 0;
    while i < nodes.len()
        invariant
            i <= nodes.len(),
            view == nodes_view(nodes@),
            html@ == nodes_html(view.take(i as int)),
        decreases nodes.len() - i,
    {
        proof {
            assert(view.take(i + 1).drop_last() =~= view.take(i as int));
            assert(view.take(i + 1).last() == nodes[i as int]@);
        }
        let part = node_to_html(&nodes[i]);
        html.append(part.as_str());
        i += 1;
    }
    assert(view.take(nodes.len() as int) =~= view);
    html
}

fn node_to_html(node: &Node) -> (html: String)
    ensures
        html@ == node_html(node@),
    decreases node,
{
    match node {
        Node::Text(text) => text.clone(),
        Node::Element(element) => element_to_html(element),
        Node::DocType => String::from_str("<!DOCTYPE html>"),
    }
}

fn element_to_html(element: &ElementData) -> (html: String)
    ensures
        html@ == element_html(element@),
    decreases element,
{
    let mut html = String::from_str("<");
    html.append(element.tag_name.as_str());
    let attributes = attributes_to_html(&element.attributes);
    html.append(attributes.as_str());
    if element.self_closing {
        html.append(" />");
    } else {
        html.append(">");
        let children = match &element.children {
            HtmlFragment::Nodes(nodes) => nodes_to_html(nodes),
        };
        html.append(children.as_str());
        html.append("</");
        html.append(element.tag_name.as_str());
        html.append(">");
    }
    html
}

impl HtmlFragment {
    /// A fragment of the given nodes, in their order.
    pub fn new(nodes: Vec<Node>) -> (fragment: Self)
        ensures
            fragment@ == nodes_view(nodes@),
    {
        HtmlFragment::Nodes(nodes)
    }

    /// Adds a node at the end.
    pub fn push(&mut self, node: Node)
        ensures
            final(self)@ == old(self)@.push(node@),
    {
        match self {
            HtmlFragment::Nodes(nodes) => {
                nodes.push(node);
                assert(nodes_view(nodes@) =~= nodes_view(old(self)->Nodes_0@).push(node@));
            },
        }
    }

    /// The HTML text of the fragment: the text of its nodes, in order.
    pub fn to_html(&self) -> (html: String)
        ensures
            html@ == nodes_html(self@),
    {
        match self {
            HtmlFragment::Nodes(nodes) => nodes_to_html(nodes),
        }
    }

    /// The HTML text of the fragment.
    pub fn to_string(&self) -> (html: String)
        ensures
            html@ == nodes_html(self@),
    {
        self.to_html()
    }

    /// An iterator over the elements among the nodes, in order.
    pub fn iter_elements(&self) -> (iter: ElementDataIter<'_>)
        ensures
            iter@ == elements_of(self@),
    {
        match self {
            HtmlFragment::Nodes(nodes) => {
                assert(nodes_view(nodes@).skip(0) =~= nodes_view(nodes@));
                ElementDataIter { nodes, position: 0 }
            },
        }
    }

    /// An iterator over the elements among the nodes, in order, that hands
    /// each out for editing.
    pub fn iter_elements_mut(&mut self) -> (iter: ElementDataIterMut<'_>)
        ensures
            iter.nodes() == old(self)@,
            iter.passed() == 0,
            final(self)@ == nodes_view(final(iter.nodes)@),
    {
        match self {
            HtmlFragment::Nodes(nodes) => ElementDataIterMut { nodes, position: 0 },
        }
    }

    /// The nodes, in order.
    pub fn iter(&self) -> (iter: std::slice::Iter<'_, Node>)
        ensures
            nodes_view(vstd::std_specs::slice::into_iter_elts(iter)) == self@,
    {
        broadcast use vstd::std_specs::slice::group_slice_axioms;

        match self {
            HtmlFragment::Nodes(nodes) => {
                let iter = nodes.as_slice().iter();
                assert(vstd::std_specs::slice::into_iter_elts(iter) =~= nodes@);
                iter
            },
        }
    }

    /// The nodes, in order, for editing.
    pub fn iter_mut(&mut self) -> (nodes: &mut [Node])
        ensures
            nodes_view(nodes@) == old(self)@,
            final(self)@ == nodes_view(final(nodes)@),
    {
        match self {
            HtmlFragment::Nodes(nodes) => nodes.as_mut_slice(),
        }
    }

    /// A copy of the nodes, in order.
    pub fn get_nodes(&self) -> (nodes: Vec<Node>)
        ensures
            nodes_view(nodes@) == self@,
    {
        match self {
            HtmlFragment::Nodes(nodes) => clone_nodes(nodes),
        }
    }
}

impl<'a> ElementDataIterMut<'a> {
    /// The nodes under the iterator as they are now.
    pub open spec fn nodes(&self) -> Seq<NodeView> {
        nodes_view(self.nodes@)
    }

    /// How many nodes the iterator has passed.
    pub open spec fn passed(&self) -> int {
        self.position as int
    }

    /// The next element, if one is left, for editing.
    pub fn next(&mut self) -> (element: Option<&mut ElementData>)
        ensures
            *final(final(self).nodes) == *final(old(self).nodes),
            match element {
                Some(e) => {
                    &&& old(self).passed() <= final(self).passed() - 1 < old(self).nodes().len()
                    &&& old(self).nodes()[final(self).passed() - 1] == NodeView::Element(e@)
                    &&& forall|j: int|
                        old(self).passed() <= j < final(self).passed() - 1 ==> !(
                        #[trigger] old(self).nodes()[j] is Element)
                    &&& final(self).nodes() == old(self).nodes().update(
                        final(self).passed() - 1,
                        NodeView::Element(final(e)@),
                    )
                },
                None => {
                    &&& final(self).nodes() == old(self).nodes()
                    &&& forall|j: int|
                        old(self).passed() <= j < old(self).nodes().len() ==> !(
                        #[trigger] old(self).nodes()[j] is Element)
                },
            },
    {
        let mut at: usize = self.position;
        let mut found = false;
        while at < self.nodes.len() && !found
            invariant
                self.position <= at,
                found ==> at < self.nodes.len() && self.nodes[at as int] is Element,
                forall|j: int|
                    self.position <= j < at && j < self.nodes.len() ==> !(
                    #[trigger] self.nodes()[j] is Element),
            decreases self.nodes.len() - at + (if found { 0int } else { 1int }),
        {
            if is_element(&self.nodes[at]) {
                found = true;
            } else {
                at += 1;
            }
        }
        if found {
            self.position = at + 1;
            match &mut self.nodes[at] {
                Node::Element(element) => Some(element),
                _ => None,
            }
        } else {
            self.position = at;
            None
        }
    }
}

fn is_element(node: &Node) -> (yes: bool)
    ensures
        yes == (node is Element),
{
    match node {
        Node::Element(_) => true,
        _ => false,
    }
}

impl Node {
    /// The HTML text of the node.
    pub fn to_html(&self) -> (html: String)
        ensures
            html@ == node_html(self@),
    {
        node_to_html(self)
    }

    /// The HTML text of the node.
    pub fn to_string(&self) -> (html: String)
        ensures
            html@ == node_html(self@),
    {
        node_to_html(self)
    }
}

impl ElementData {
    /// An element with the given tag name, no attributes and no children,
    /// written with an opening and a closing tag.
    pub fn new(tag_name: String) -> (element: Self)
        ensures
            element@ == (ElementView {
                tag_name: tag_name@,
                attributes: Seq::empty(),
                children: Seq::empty(),
                self_closing: false,
            }),
    {
        let element = ElementData {
            tag_name,
            attributes: Vec::new(),
            children: HtmlFragment::new(Vec::new()),
            self_closing: false,
        };
        assert(element@.attributes =~= Seq::empty());
        assert(element@.children =~= Seq::empty());
        element
    }

    /// Adds a child at the end of the children.
    pub fn add_child(&mut self, child: Node)
        ensures
            final(self)@ == (ElementView {
                children: old(self)@.children.push(child@),
                ..old(self)@
            }),
    {
        self.children.push(child);
    }

    /// Whether some attribute is called exactly `name`.
    pub fn has_attribute(&self, name: &str) -> (found: bool)
        ensures
            found == exists|i: int|
                0 <= i < self@.attributes.len() && (#[trigger] self@.attributes[i]).name == name@,
    {
        let mut i: usize = 0;
        while i < self.attributes.len()
            invariant
                i <= self.attributes.len(),
                forall|j: int| 0 <= j < i ==> (#[trigger] self@.attributes[j]).name != name@,
            decreases self.attributes.len() - i,
        {
            if str_eq(self.attributes[i].name.as_str(), name) {
                assert(self@.attributes[i as int].name == name@);
                return true;
            }
            i += 1;
        }
        false
    }

    /// Adds an attribute with a value at the end of the attributes. An
    /// attribute of the same name that is already there stays.
    pub fn set_attribute(&mut self, name: String, value: String)
        ensures
            final(self)@ == (ElementView {
                attributes: old(self)@.attributes.push(
                    AttributeView { name: name@, value: Some(value@) },
                ),
                ..old(self)@
            }),
    {
        self.attributes.push(Attribute { name, value: Some(value) });
        assert(final(self)@.attributes =~= old(self)@.attributes.push(
            AttributeView { name: name@, value: Some(value@) },
        ));
    }

    /// Takes out every attribute called exactly `name`; the others keep
    /// their order.
    pub fn remove_attribute(&mut self, name: &str)
        ensures
            final(self)@ == (ElementView {
                attributes: attributes_without(old(self)@.attributes, name@),
                ..old(self)@
            }),
    {
        let ghost view = self@.attributes;
        let mut kept: Vec<Attribute> = Vec::new();
        let mut i: usize = 0;
        while i < self.attributes.len()
            invariant
                i <= self.attributes.len(),
                view == attributes_view(self.attributes@),
                attributes_view(kept@) == attributes_without(view.take(i as int), name@),
            decreases self.attributes.len() - i,
        {
            proof {
                assert(view.take(i + 1).drop_last() =~= view.take(i as int));
                assert(view.take(i + 1).last() == self.attributes[i as int]@);
            }
            if !str_eq(self.attributes[i].name.as_str(), name) {
                let ghost before = attributes_view(kept@);
                kept.push(clone_attribute(&self.attributes[i]));
                assert(attributes_view(kept@) =~= before.push(self.attributes[i as int]@));
            }
            i += 1;
        }
        assert(view.take(self.attributes.len() as int) =~= view);
        self.attributes = kept;
    }

    /// The value of the first attribute called exactly `name`: the empty
    /// string where that attribute has no value, nothing where there is no
    /// such attribute.
    pub fn get_attribute(&self, name: &str) -> (found: Option<String>)
        ensures
            match found {
                Some(value) => exists|i: int|
                    is_first_named(self@.attributes, name@, i) && value@ == (
                    match self@.attributes[i].value {
                        Some(text) => text,
                        None => Seq::empty(),
                    }),
                None => forall|i: int|
                    0 <= i < self@.attributes.len() ==> (#[trigger] self@.attributes[i]).name
                        != name@,
            },
    {
        let mut i: usize = 0;
        while i < self.attributes.len()
            invariant
                i <= self.attributes.len(),
                forall|j: int| 0 <= j < i ==> (#[trigger] self@.attributes[j]).name != name@,
            decreases self.attributes.len() - i,
        {
            if str_eq(self.attributes[i].name.as_str(), name) {
                assert(is_first_named(self@.attributes, name@, i as int));
                return Some(
                    match &self.attributes[i].value {
                        Some(text) => text.clone(),
                        None => String::new(),
                    },
                );
            }
            i += 1;
        }
        None
    }

    /// The HTML text of the element.
    pub fn to_html(&self) -> (html: String)
        ensures
            html@ == element_html(self@),
    {
        element_to_html(self)
    }

    /// The HTML text of the element.
    pub fn to_string(&self) -> (html: String)
        ensures
            html@ == element_html(self@),
    {
        element_to_html(self)
    }
}

} // verus!
