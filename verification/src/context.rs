//! What a template is rendered against: the evaluator of embedded
//! expressions and resolver of components, the loop bindings in scope, and
//! the props that a component is called with.

use vstd::prelude::*;
use crate::error::{RenderError, RenderErrorView};
use crate::fragment::HtmlFragment;
use crate::text::str_eq;

verus! {

/// A loop variable in scope: the pattern of a `:for` as written, and the
/// item that it is bound to in this iteration.
pub struct Binding<V> {
    pub pattern: String,
    pub value: V,
}

/// The bindings in scope, outermost first, as pairs of pattern and item.
pub open spec fn scope_view<V>(scope: Seq<Binding<V>>) -> Seq<(Seq<char>, V)> {
    Seq::new(scope.len(), |i: int| (scope[i].pattern@, scope[i].value))
}

/// What a prop of a component call is given.
pub enum PropValue<V> {
    /// The prop is named without a value.
    Bare,
    /// A string: the literal as written, or the interpolated string.
    Text(String),
    /// The value of an expression.
    Value(V),
}

/// The mathematical value of a [`PropValue`].
pub enum PropValueView<V> {
    Bare,
    Text(Seq<char>),
    Value(V),
}

impl<V> View for PropValue<V> {
    type V = PropValueView<V>;

    open spec fn view(&self) -> PropValueView<V> {
        match *self {
            PropValue::Bare => PropValueView::Bare,
            PropValue::Text(text) => PropValueView::Text(text@),
            PropValue::Value(value) => PropValueView::Value(value),
        }
    }
}

/// One prop of a component call.
pub struct Prop<V> {
    pub name: String,
    pub value: PropValue<V>,
}

/// The props of a component call as a mapping from name to what the prop is
/// given: of two props of one name the later counts.
pub open spec fn props_map<V>(props: Seq<(Seq<char>, PropValueView<V>)>) -> Map<
    Seq<char>,
    PropValueView<V>,
>
    decreases props.len(),
{
    if props.len() == 0 {
        Map::empty()
    } else {
        props_map(props.drop_last()).insert(props.last().0, props.last().1)
    }
}

/// The props of a component call as pairs of name and what the prop is
/// given, in the order written.
pub open spec fn props_view<V>(props: Seq<Prop<V>>) -> Seq<(Seq<char>, PropValueView<V>)> {
    Seq::new(props.len(), |i: int| (props[i].name@, props[i].value@))
}

/// The props that a component is called with: a mapping from name to what
/// the prop is given. A prop is found by its name only; the order in which
/// the props were written cannot be told from it.
pub struct PropValues<V> {
    entries: Vec<Prop<V>>,
}

impl<V> View for PropValues<V> {
    type V = Map<Seq<char>, PropValueView<V>>;

    closed spec fn view(&self) -> Map<Seq<char>, PropValueView<V>> {
        props_map(props_view(self.entries@))
    }
}

impl<V> PropValues<V> {
    /// No props.
    pub fn new() -> (props: Self)
        ensures
            props@ == Map::<Seq<char>, PropValueView<V>>::empty(),
    {
        let props = PropValues { entries: Vec::new() };
        assert(props_view(props.entries@) =~= Seq::empty());
        props
    }

    /// The mapping of the given props: of two props of one name the later
    /// counts.
    pub fn from_props(props: Vec<Prop<V>>) -> (mapping: Self)
        ensures
            mapping@ == props_map(props_view(props@)),
    {
        PropValues { entries: props }
    }

    /// Gives the prop `name` the value `value`, in place of what it had.
    pub fn set(&mut self, name: String, value: PropValue<V>)
        ensures
            final(self)@ == old(self)@.insert(name@, value@),
    {
        self.entries.push(Prop { name, value });
        assert(props_view(self.entries@).drop_last() =~= props_view(old(self).entries@));
    }

    /// What the prop `name` is given, if there is such a prop.
    pub fn get(&self, name: &str) -> (found: Option<&PropValue<V>>)
        ensures
            match found {
                Some(value) => self@.contains_key(name@) && self@[name@] == value@,
                None => !self@.contains_key(name@),
            },
    {
        let ghost view = props_view(self.entries@);
        let mut i: usize = self.entries.len();
        assert(view.take(i as int) =~= view);
        while i > 0
            invariant
                i <= self.entries.len(),
                view == props_view(self.entries@),
                props_map(view).contains_key(name@) == props_map(view.take(i as int)).contains_key(
                    name@,
                ),
                props_map(view).contains_key(name@) ==> props_map(view)[name@] == props_map(
                    view.take(i as int),
                )[name@],
            decreases i,
        {
            i -= 1;
            proof {
                assert(view.take(i + 1).drop_last() =~= view.take(i as int));
                assert(view.take(i + 1).last() == view[i as int]);
            }
            if str_eq(self.entries[i].name.as_str(), name) {
                return Some(&self.entries[i].value);
            }
        }
        None
    }
}

/// The text of a result, or its error.
pub open spec fn text_result_view(result: Result<String, RenderError>) -> Result<
    Seq<char>,
    RenderErrorView,
> {
    match result {
        Ok(text) => Ok(text@),
        Err(error) => Err(error@),
    }
}

/// The nodes of a resulting fragment, or its error.
pub open spec fn fragment_result_view(result: Result<HtmlFragment, RenderError>) -> Result<
    Seq<crate::fragment::NodeView>,
    RenderErrorView,
> {
    match result {
        Ok(fragment) => Ok(fragment@),
        Err(error) => Err(error@),
    }
}

/// The nodes of an optional fragment.
pub open spec fn slot_view(slot: Option<HtmlFragment>) -> Option<Seq<crate::fragment::NodeView>> {
    match slot {
        Some(fragment) => Some(fragment@),
        None => None,
    }
}

/// The error of an expression that does not evaluate, or of a component
/// that is not known: it names the expression or the component.
pub open spec fn unknown(kind: crate::error::RenderErrorKind, subject: Seq<char>) -> RenderErrorView {
    RenderErrorView { kind, subject }
}

/// Holds of every function.
pub closed spec fn is_any<F>(function: F) -> bool {
    true
}

/// Some function of `argument` of which nothing is known, one for each
/// `which`.
pub closed spec fn unspecified<A, B>(which: int, argument: A) -> B {
    (choose|function: spec_fn(int, A) -> B| #[trigger] is_any(function))(which, argument)
}

/// Evaluates the expressions embedded in a template and resolves the
/// components that it calls.
///
/// An expression is handed over as its source text, with the loop bindings
/// in scope. Each executable method returns what the specification function
/// of the same purpose gives for the same arguments, so that rendering is a
/// function of the template, the evaluator and the scope.
///
/// An implementation says what its methods compute by defining the
/// specification functions. One that does not define them leaves each as
/// some function of its arguments of which nothing more is known: its
/// methods then have to return the same for the same arguments, and
/// nothing holds them to that but their author.
pub trait Evaluator {
    /// What an expression can evaluate to where its value is bound to a
    /// loop pattern or passed to a component.
    type Value;

    /// The display string of `expression`.
    open spec fn display_of(
        &self,
        expression: Seq<char>,
        scope: Seq<(Seq<char>, Self::Value)>,
    ) -> Result<Seq<char>, RenderErrorView> {
        unspecified(0, (self, expression, scope))
    }

    /// Whether `expression` holds, as the condition of an `:if`.
    open spec fn truth_of(
        &self,
        expression: Seq<char>,
        scope: Seq<(Seq<char>, Self::Value)>,
    ) -> Result<bool, RenderErrorView> {
        unspecified(1, (self, expression, scope))
    }

    /// The items of `expression`, as the collection of a `:for`, in the
    /// order in which the collection yields them.
    open spec fn items_of(
        &self,
        expression: Seq<char>,
        scope: Seq<(Seq<char>, Self::Value)>,
    ) -> Result<Seq<Self::Value>, RenderErrorView> {
        unspecified(2, (self, expression, scope))
    }

    /// The value of `expression`, as what a prop is given.
    open spec fn value_of(
        &self,
        expression: Seq<char>,
        scope: Seq<(Seq<char>, Self::Value)>,
    ) -> Result<Self::Value, RenderErrorView> {
        unspecified(3, (self, expression, scope))
    }

    /// The nodes that the component `name` gives for `props` and `slot`.
    open spec fn component_of(
        &self,
        name: Seq<char>,
        props: Map<Seq<char>, PropValueView<Self::Value>>,
        slot: Option<Seq<crate::fragment::NodeView>>,
    ) -> Result<Seq<crate::fragment::NodeView>, RenderErrorView> {
        unspecified(4, (self, name, props, slot))
    }

    /// Evaluates `expression` to its display string.
    fn display(&self, expression: &str, scope: &Vec<Binding<Self::Value>>) -> (shown: Result<
        String,
        RenderError,
    >)
        ensures
            text_result_view(shown) == self.display_of(expression@, scope_view(scope@)),
    ;

    /// Evaluates `expression` as a condition.
    fn truth(&self, expression: &str, scope: &Vec<Binding<Self::Value>>) -> (holds: Result<
        bool,
        RenderError,
    >)
        ensures
            match holds {
                Ok(b) => self.truth_of(expression@, scope_view(scope@)) == Ok::<
                    bool,
                    RenderErrorView,
                >(b),
                Err(error) => self.truth_of(expression@, scope_view(scope@)) == Err::<
                    bool,
                    RenderErrorView,
                >(error@),
            },
    ;

    /// Evaluates `expression` as a collection.
    fn items(&self, expression: &str, scope: &Vec<Binding<Self::Value>>) -> (items: Result<
        Vec<Self::Value>,
        RenderError,
    >)
        ensures
            match items {
                Ok(values) => self.items_of(expression@, scope_view(scope@)) == Ok::<
                    Seq<Self::Value>,
                    RenderErrorView,
                >(values@),
                Err(error) => self.items_of(expression@, scope_view(scope@)) == Err::<
                    Seq<Self::Value>,
                    RenderErrorView,
                >(error@),
            },
    ;

    /// Evaluates `expression` as what a prop is given.
    fn value(&self, expression: &str, scope: &Vec<Binding<Self::Value>>) -> (value: Result<
        Self::Value,
        RenderError,
    >)
        ensures
            match value {
                Ok(v) => self.value_of(expression@, scope_view(scope@)) == Ok::<
                    Self::Value,
                    RenderErrorView,
                >(v),
                Err(error) => self.value_of(expression@, scope_view(scope@)) == Err::<
                    Self::Value,
                    RenderErrorView,
                >(error@),
            },
    ;

    /// Resolves the component `name` and calls it with `props` and `slot`.
    fn component(
        &self,
        name: &str,
        props: PropValues<Self::Value>,
        slot: Option<HtmlFragment>,
    ) -> (nodes: Result<HtmlFragment, RenderError>)
        ensures
            fragment_result_view(nodes) == self.component_of(name@, props@, slot_view(slot)),
    ;
}

/// The evaluator of templates that hold no host code: an expression that
/// is a string literal evaluates to the string that it stands for, and
/// nothing else evaluates at all. It knows no component.
pub struct Literals;

impl Literals {
    fn refuse<T>(kind: crate::error::RenderErrorKind, subject: &str) -> (refused: Result<
        T,
        RenderError,
    >)
        ensures
            refused matches Err(error) && error@ == unknown(kind, subject@),
    {
        Err(RenderError { kind, subject: subject.to_owned() })
    }
}

impl Evaluator for Literals {
    type Value = ();

    open spec fn display_of(&self, expression: Seq<char>, scope: Seq<(Seq<char>, ())>) -> Result<
        Seq<char>,
        RenderErrorView,
    > {
        if expression.len() > crate::text::TEXT_LIMIT {
            Err(unknown(crate::error::RenderErrorKind::Expression, expression))
        } else {
            match crate::lexer::string_literal_value(expression) {
                Some(value) => Ok(value),
                None => Err(unknown(crate::error::RenderErrorKind::Expression, expression)),
            }
        }
    }

    open spec fn truth_of(&self, expression: Seq<char>, scope: Seq<(Seq<char>, ())>) -> Result<
        bool,
        RenderErrorView,
    > {
        Err(unknown(crate::error::RenderErrorKind::Expression, expression))
    }

    open spec fn items_of(&self, expression: Seq<char>, scope: Seq<(Seq<char>, ())>) -> Result<
        Seq<()>,
        RenderErrorView,
    > {
        Err(unknown(crate::error::RenderErrorKind::Expression, expression))
    }

    open spec fn value_of(&self, expression: Seq<char>, scope: Seq<(Seq<char>, ())>) -> Result<
        (),
        RenderErrorView,
    > {
        Err(unknown(crate::error::RenderErrorKind::Expression, expression))
    }

    open spec fn component_of(
        &self,
        name: Seq<char>,
        props: Map<Seq<char>, PropValueView<()>>,
        slot: Option<Seq<crate::fragment::NodeView>>,
    ) -> Result<Seq<crate::fragment::NodeView>, RenderErrorView> {
        Err(unknown(crate::error::RenderErrorKind::Component, name))
    }

    fn display(&self, expression: &str, scope: &Vec<Binding<()>>) -> (shown: Result<
        String,
        RenderError,
    >) {
        if !crate::text::fits(expression) {
            return Literals::refuse(crate::error::RenderErrorKind::Expression, expression);
        }
        match crate::lexer::string_literal(expression) {
            Some(value) => Ok(value),
            None => Literals::refuse(crate::error::RenderErrorKind::Expression, expression),
        }
    }

    fn truth(&self, expression: &str, scope: &Vec<Binding<()>>) -> (holds: Result<
        bool,
        RenderError,
    >) {
        Literals::refuse(crate::error::RenderErrorKind::Expression, expression)
    }

    fn items(&self, expression: &str, scope: &Vec<Binding<()>>) -> (items: Result<
        Vec<()>,
        RenderError,
    >) {
        Literals::refuse(crate::error::RenderErrorKind::Expression, expression)
    }

    fn value(&self, expression: &str, scope: &Vec<Binding<()>>) -> (value: Result<
        (),
        RenderError,
    >) {
        Literals::refuse(crate::error::RenderErrorKind::Expression, expression)
    }

    fn component(&self, name: &str, props: PropValues<()>, slot: Option<HtmlFragment>) -> (nodes: Result<
        HtmlFragment,
        RenderError,
    >) {
        Literals::refuse(crate::error::RenderErrorKind::Component, name)
    }
}

} // verus!
