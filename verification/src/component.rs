//! Components as values: what can be called with props, with or without
//! the content of a slot, and gives a fragment.

use vstd::prelude::*;
use crate::context::{PropValueView, PropValues};
use crate::fragment::HtmlFragment;

verus! {

/// The props of a component: a type whose values are built step by step.
pub trait Props {
    /// What builds the props.
    type Builder;

    /// Whether a builder has nothing set. An implementation that does not
    /// say what that means claims nothing of its builder.
    open spec fn is_fresh(builder: Self::Builder) -> bool {
        true
    }

    /// A builder with nothing set.
    fn builder() -> (builder: Self::Builder)
        ensures
            Self::is_fresh(builder),
    ;
}

/// A type of props, or of no props, with its builder.
pub trait PropsOrNoPropsBuilder {
    /// What builds the props.
    type Builder;

    /// Whether a builder has nothing set. An implementation that does not
    /// say what that means claims nothing of its builder.
    open spec fn is_fresh_or_not(builder: Self::Builder) -> bool {
        true
    }

    /// A builder with nothing set.
    fn builder_or_not() -> (builder: Self::Builder)
        ensures
            Self::is_fresh_or_not(builder),
    ;
}

impl<P: Props> PropsOrNoPropsBuilder for P {
    type Builder = P::Builder;

    open spec fn is_fresh_or_not(builder: Self::Builder) -> bool {
        P::is_fresh(builder)
    }

    fn builder_or_not() -> (builder: Self::Builder) {
        P::builder()
    }
}

/// The props of a component as a mapping build themselves: the builder is
/// the mapping with nothing in it.
impl<V> Props for PropValues<V> {
    type Builder = PropValues<V>;

    open spec fn is_fresh(builder: PropValues<V>) -> bool {
        builder@ == Map::<Seq<char>, PropValueView<V>>::empty()
    }

    fn builder() -> (builder: PropValues<V>) {
        PropValues::new()
    }
}

/// A component without a slot: called with its props, it gives a
/// fragment.
pub trait Component<P> {
    /// Whether the component can be called with `props`.
    spec fn accepts(&self, props: P) -> bool;

    /// Whether `fragment` is what the component can give for `props`.
    spec fn gives(&self, props: P, fragment: HtmlFragment) -> bool;

    /// Calls the component.
    fn call(&self, props: P) -> (fragment: HtmlFragment)
        requires
            self.accepts(props),
        ensures
            self.gives(props, fragment),
    ;
}

impl<P, F> Component<P> for F where F: Fn(P) -> HtmlFragment, P: Props {
    open spec fn accepts(&self, props: P) -> bool {
        self.requires((props,))
    }

    open spec fn gives(&self, props: P, fragment: HtmlFragment) -> bool {
        self.ensures((props,), fragment)
    }

    fn call(&self, props: P) -> (fragment: HtmlFragment) {
        self(props)
    }
}

/// A component with a slot: called with the content of the slot and its
/// props, it gives a fragment.
pub trait ComponentWithSlots<P> {
    /// Whether the component can be called with `children` and `props`.
    spec fn accepts(&self, children: HtmlFragment, props: P) -> bool;

    /// Whether `fragment` is what the component can give for `children`
    /// and `props`.
    spec fn gives(&self, children: HtmlFragment, props: P, fragment: HtmlFragment) -> bool;

    /// Calls the component.
    fn call_with_slots(&self, children: HtmlFragment, props: P) -> (fragment: HtmlFragment)
        requires
            self.accepts(children, props),
        ensures
            self.gives(children, props, fragment),
    ;
}

impl<P, F> ComponentWithSlots<P> for F where F: Fn(HtmlFragment, P) -> HtmlFragment, P: Props {
    open spec fn accepts(&self, children: HtmlFragment, props: P) -> bool {
        self.requires((children, props))
    }

    open spec fn gives(&self, children: HtmlFragment, props: P, fragment: HtmlFragment) -> bool {
        self.ensures((children, props), fragment)
    }

    fn call_with_slots(&self, children: HtmlFragment, props: P) -> (fragment: HtmlFragment) {
        self(children, props)
    }
}

/// The builder of the props of a component without a slot, with nothing
/// set. The component only says which props are meant.
pub fn component_props_builder<P: PropsOrNoPropsBuilder, C: Component<P>>(_f: &C) -> (builder: <
    P as PropsOrNoPropsBuilder
>::Builder)
    ensures
        P::is_fresh_or_not(builder),
{
    <P as PropsOrNoPropsBuilder>::builder_or_not()
}

/// The builder of the props of a component with a slot, with nothing set.
/// The component only says which props are meant.
pub fn component_with_slots_props_builder<P: PropsOrNoPropsBuilder, C: ComponentWithSlots<P>>(
    _f: &C,
) -> (builder: <P as PropsOrNoPropsBuilder>::Builder)
    ensures
        P::is_fresh_or_not(builder),
{
    <P as PropsOrNoPropsBuilder>::builder_or_not()
}

/// Calls a component without a slot with its props.
pub fn component_view<P: Props, C: Component<P>>(component: &C, props: P) -> (fragment: HtmlFragment)
    requires
        component.accepts(props),
    ensures
        component.gives(props, fragment),
{
    component.call(props)
}

/// Calls a component with a slot with the content of the slot and its
/// props.
pub fn component_with_slots_view<P: Props, C: ComponentWithSlots<P>>(
    component: &C,
    children: HtmlFragment,
    props: P,
) -> (fragment: HtmlFragment)
    requires
        component.accepts(children, props),
    ensures
        component.gives(children, props, fragment),
{
    component.call_with_slots(children, props)
}

} // verus!
