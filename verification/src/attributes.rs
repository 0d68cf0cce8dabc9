//! The attributes of a tag or a component call as they are written in a
//! template. An embedded expression is kept as its source text.

use vstd::prelude::*;

verus! {

/// One attribute of a tag or a component call.
#[derive(Debug)]
pub enum Attribute {
    /// A name, with or without a value.
    RegularAttribute(RegularAttribute),
    /// `:for={pattern in collection}`: one copy of the node per item.
    For(ForExpr),
    /// `:if={condition}`: the node only where the condition holds.
    If(String),
}

/// A name, with or without a value.
#[derive(Debug)]
pub struct RegularAttribute {
    pub name: AttrName,
    pub value: Option<AttrValue>,
}

/// The name of an attribute: written out, or the result of an expression.
#[derive(Debug)]
pub enum AttrName {
    Literal(String),
    Expression(String),
}

/// The value of an attribute: written out, the result of an expression, or
/// a string with expressions in it.
#[derive(Debug)]
pub enum AttrValue {
    Literal(String),
    Expression(String),
    Interpolated(Vec<InterpolatedSegment>),
}

/// A piece of a string with expressions in it.
#[derive(Debug)]
pub enum InterpolatedSegment {
    Str(String),
    Expr(String),
}

/// The pattern and the collection of a `:for`.
#[derive(Debug)]
pub struct ForExpr {
    pub pat: String,
    pub collection: String,
}

/// The mathematical value of an [`InterpolatedSegment`].
pub enum InterpolatedSegmentView {
    Str(Seq<char>),
    Expr(Seq<char>),
}

/// The mathematical value of an [`AttrValue`].
pub enum AttrValueView {
    Literal(Seq<char>),
    Expression(Seq<char>),
    Interpolated(Seq<InterpolatedSegmentView>),
}

/// The mathematical value of an [`AttrName`].
pub enum AttrNameView {
    Literal(Seq<char>),
    Expression(Seq<char>),
}

/// The mathematical value of a [`RegularAttribute`].
pub struct RegularAttributeView {
    pub name: AttrNameView,
    pub value: Option<AttrValueView>,
}

/// The mathematical value of a [`ForExpr`].
pub struct ForExprView {
    pub pat: Seq<char>,
    pub collection: Seq<char>,
}

/// The mathematical value of an [`Attribute`].
pub enum AttributeView {
    RegularAttribute(RegularAttributeView),
    For(ForExprView),
    If(Seq<char>),
}

impl View for InterpolatedSegment {
    type V = InterpolatedSegmentView;

    open spec fn view(&self) -> InterpolatedSegmentView {
        match *self {
            InterpolatedSegment::Str(text) => InterpolatedSegmentView::Str(text@),
            InterpolatedSegment::Expr(source) => InterpolatedSegmentView::Expr(source@),
        }
    }
}

/// The values of a sequence of segments, in order.
pub open spec fn segments_view(segments: Seq<InterpolatedSegment>) -> Seq<InterpolatedSegmentView> {
    Seq::new(segments.len(), |i: int| segments[i]@)
}

impl View for AttrValue {
    type V = AttrValueView;

    open spec fn view(&self) -> AttrValueView {
        match *self {
            AttrValue::Literal(text) => AttrValueView::Literal(text@),
            AttrValue::Expression(source) => AttrValueView::Expression(source@),
            AttrValue::Interpolated(segments) => AttrValueView::Interpolated(
                segments_view(segments@),
            ),
        }
    }
}

impl View for AttrName {
    type V = AttrNameView;

    open spec fn view(&self) -> AttrNameView {
        match *self {
            AttrName::Literal(text) => AttrNameView::Literal(text@),
            AttrName::Expression(source) => AttrNameView::Expression(source@),
        }
    }
}

impl View for RegularAttribute {
    type V = RegularAttributeView;

    open spec fn view(&self) -> RegularAttributeView {
        RegularAttributeView {
            name: self.name@,
            value: match self.value {
                Some(value) => Some(value@),
                None => None,
            },
        }
    }
}

impl View for ForExpr {
    type V = ForExprView;

    open spec fn view(&self) -> ForExprView {
        ForExprView { pat: self.pat@, collection: self.collection@ }
    }
}

impl View for Attribute {
    type V = AttributeView;

    open spec fn view(&self) -> AttributeView {
        match *self {
            Attribute::RegularAttribute(regular) => AttributeView::RegularAttribute(regular@),
            Attribute::For(for_expr) => AttributeView::For(for_expr@),
            Attribute::If(condition) => AttributeView::If(condition@),
        }
    }
}

/// Whether a name can be the name of a prop: not empty, and without a
/// hyphen or a colon.
pub open spec fn is_prop_name(name: Seq<char>) -> bool {
    &&& name.len() > 0
    &&& forall|i: int| 0 <= i < name.len() ==> name[i] != '-' && name[i] != ':'
}

/// The name as the key of a prop, where it can be one: where it is
/// written out without a hyphen or a colon.
pub open spec fn identifier_of(name: AttrNameView) -> Option<Seq<char>> {
    match name {
        AttrNameView::Literal(text) => if is_prop_name(text) {
            Some(text)
        } else {
            None
        },
        AttrNameView::Expression(_) => None,
    }
}

impl AttrName {
    /// The name as the key of a prop, where it can be one.
    pub fn identifier(&self) -> (key: Option<&String>)
        ensures
            match key {
                Some(text) => identifier_of(self@) == Some(text@),
                None => identifier_of(self@) is None,
            },
    {
        match self {
            AttrName::Expression(_) => None,
            AttrName::Literal(text) => {
                let chars = crate::text::chars_of(text.as_str());
                if chars.len() == 0 {
                    return None;
                }
                let mut i: usize = 0;
                while i < chars.len()
                    invariant
                        i <= chars.len(),
                        chars@ == text@,
                        self@ == AttrNameView::Literal(text@),
                        forall|j: int| 0 <= j < i ==> chars[j] != '-' && chars[j] != ':',
                    decreases chars.len() - i,
                {
                    if chars[i] == '-' || chars[i] == ':' {
                        assert(text@[i as int] == '-' || text@[i as int] == ':');
                        return None;
                    }
                    i += 1;
                }
                Some(text)
            },
        }
    }
}

/// The values of a sequence of attributes, in order.
pub open spec fn attributes_view(attributes: Seq<Attribute>) -> Seq<AttributeView> {
    Seq::new(attributes.len(), |i: int| attributes[i]@)
}

/// The regular attributes among a sequence of attributes, in order.
pub open spec fn regular_attributes(attributes: Seq<AttributeView>) -> Seq<RegularAttributeView>
    decreases attributes.len(),
{
    if attributes.len() == 0 {
        Seq::empty()
    } else {
        match attributes.last() {
            AttributeView::RegularAttribute(regular) => regular_attributes(
                attributes.drop_last(),
            ).push(regular),
            _ => regular_attributes(attributes.drop_last()),
        }
    }
}

/// The first `:for` among a sequence of attributes, if there is one.
pub open spec fn first_for(attributes: Seq<AttributeView>) -> Option<ForExprView>
    decreases attributes.len(),
{
    if attributes.len() == 0 {
        None
    } else {
        match attributes.first() {
            AttributeView::For(for_expr) => Some(for_expr),
            _ => first_for(attributes.skip(1)),
        }
    }
}

/// The condition of the first `:if` among a sequence of attributes, if
/// there is one.
pub open spec fn first_if(attributes: Seq<AttributeView>) -> Option<Seq<char>>
    decreases attributes.len(),
{
    if attributes.len() == 0 {
        None
    } else {
        match attributes.first() {
            AttributeView::If(condition) => Some(condition),
            _ => first_if(attributes.skip(1)),
        }
    }
}

/// The values of a sequence of regular attributes, in order.
pub open spec fn regular_views(regular: Seq<&RegularAttribute>) -> Seq<RegularAttributeView> {
    Seq::new(regular.len(), |i: int| regular[i]@)
}

/// The regular attributes among `attributes`, in order.
pub fn regular_attributes_of(attributes: &Vec<Attribute>) -> (regular: Vec<&RegularAttribute>)
    ensures
        regular_views(regular@) == regular_attributes(attributes_view(attributes@)),
{
    let ghost view = attributes_view(attributes@);
    let mut regular: Vec<&RegularAttribute> = Vec::new();
    let mut i: usize = 0;
    while i < attributes.len()
        invariant
            i <= attributes.len(),
            view == attributes_view(attributes@),
            regular_views(regular@) == regular_attributes(view.take(i as int)),
        decreases attributes.len() - i,
    {
        proof {
            assert(view.take(i + 1).drop_last() =~= view.take(i as int));
            assert(view.take(i + 1).last() == attributes[i as int]@);
        }
        match &attributes[i] {
            Attribute::RegularAttribute(attribute) => {
                let ghost before = regular_views(regular@);
                regular.push(attribute);
                assert(regular_views(regular@) =~= before.push(attribute@));
            },
            _ => {},
        }
        i += 1;
    }
    assert(view.take(attributes.len() as int) =~= view);
    regular
}

/// The first `:for` among `attributes`, if there is one.
pub fn first_for_of(attributes: &Vec<Attribute>) -> (found: Option<&ForExpr>)
    ensures
        match found {
            Some(for_expr) => first_for(attributes_view(attributes@)) == Some(for_expr@),
            None => first_for(attributes_view(attributes@)) is None,
        },
{
    let ghost view = attributes_view(attributes@);
    let mut i: usize = 0;
    assert(view.skip(0) =~= view);
    while i < attributes.len()
        invariant
            i <= attributes.len(),
            view == attributes_view(attributes@),
            first_for(view.skip(i as int)) == first_for(view),
        decreases attributes.len() - i,
    {
        proof {
            assert(view.skip(i as int).skip(1) =~= view.skip(i + 1));
            assert(view.skip(i as int).first() == attributes[i as int]@);
        }
        match &attributes[i] {
            Attribute::For(for_expr) => {
                return Some(for_expr);
            },
            _ => {},
        }
        i += 1;
    }
    None
}

/// The condition of the first `:if` among `attributes`, if there is one.
pub fn first_if_of(attributes: &Vec<Attribute>) -> (found: Option<&String>)
    ensures
        match found {
            Some(condition) => first_if(attributes_view(attributes@)) == Some(condition@),
            None => first_if(attributes_view(attributes@)) is None,
        },
{
    let ghost view = attributes_view(attributes@);
    let mut i: usize = 0;
    assert(view.skip(0) =~= view);
    while i < attributes.len()
        invariant
            i <= attributes.len(),
            view == attributes_view(attributes@),
            first_if(view.skip(i as int)) == first_if(view),
        decreases attributes.len() - i,
    {
        proof {
            assert(view.skip(i as int).skip(1) =~= view.skip(i + 1));
            assert(view.skip(i as int).first() == attributes[i as int]@);
        }
        match &attributes[i] {
            Attribute::If(condition) => {
                return Some(condition);
            },
            _ => {},
        }
        i += 1;
    }
    None
}

} // verus!
