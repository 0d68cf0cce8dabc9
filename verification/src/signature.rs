//! What becomes of a function that is declared a component: the names of
//! what is made for it, which of its parameters is its slot and which are
//! its props, and whether it needs a lifetime.

use vstd::prelude::*;
use vstd::string::StringExecFns;
use crate::text::str_eq;
use crate::utils::is_pascal_case;

verus! {

/// A parameter of a function, as far as a component reads it.
#[derive(Debug)]
pub struct Parameter {
    /// Its name, where it is bound to a plain identifier.
    pub name: Option<String>,
    /// Whether it has a type: a receiver has none.
    pub typed: bool,
    /// The last segment of its type, where its type is a path.
    pub last_segment: Option<String>,
    /// Whether its type holds a reference.
    pub holds_reference: bool,
}

/// The signature of a function, as far as a component reads it.
#[derive(Debug)]
pub struct Signature {
    pub name: String,
    /// How many lifetime parameters the function declares.
    pub lifetimes: usize,
    pub parameters: Vec<Parameter>,
}

/// What is made for a component.
#[derive(Debug)]
pub struct Plan {
    /// The name of the struct of its props: the name and `Props`.
    pub props_name: String,
    /// The name of the builder of its props: the name and `PropsBuilder`.
    pub builder_name: String,
    /// The name under which the function itself is kept: `__` and the name.
    pub internal_name: String,
    /// Where the component has no props, the name of the function that
    /// takes the empty props: `__`, the name and `_with_props`. The
    /// function under the component's own name then takes no props.
    pub with_props_name: Option<String>,
    /// The name of the parameter that is the slot, where there is one.
    pub slot: Option<String>,
    /// Which parameters are the props: their places, in order.
    pub props: Vec<usize>,
    /// Whether a lifetime is added to the function and to the references
    /// in the types of its parameters.
    pub add_lifetime: bool,
}

/// Why a function cannot be a component.
#[derive(Debug, Clone, Copy, PartialEq, Eq)]
pub enum ComponentError {
    /// Its name does not start with an upper-case letter.
    NotPascalCase,
    /// Its slot is not bound to a plain identifier.
    SlotPattern,
}

/// Whether the first parameter is a slot: whether it has a type whose last
/// segment is `HtmlFragment`.
pub open spec fn has_slot(parameters: Seq<Parameter>) -> bool {
    parameters.len() > 0 && parameters[0].typed && text_of(parameters[0].last_segment) == Some(
        "HtmlFragment"@,
    )
}

/// The places from `from` on of the parameters that have a type.
pub open spec fn typed_places(parameters: Seq<Parameter>, from: int) -> Seq<usize>
    decreases parameters.len() - from,
{
    if from < 0 || from >= parameters.len() {
        Seq::empty()
    } else if parameters[from].typed {
        seq![from as usize] + typed_places(parameters, from + 1)
    } else {
        typed_places(parameters, from + 1)
    }
}

/// The places of the props: of the parameters that have a type, the slot
/// aside.
pub open spec fn prop_places(parameters: Seq<Parameter>) -> Seq<usize> {
    typed_places(
        parameters,
        if has_slot(parameters) {
            1
        } else {
            0
        },
    )
}

/// Whether the type of some parameter holds a reference.
pub open spec fn holds_references(parameters: Seq<Parameter>) -> bool {
    exists|i: int|
        0 <= i < parameters.len() && (#[trigger] parameters[i]).typed
            && parameters[i].holds_reference
}

/// The string of an optional string.
pub open spec fn text_of(text: Option<String>) -> Option<Seq<char>> {
    match text {
        Some(text) => Some(text@),
        None => None,
    }
}

/// Whether `plan` is what is made for a component with the signature
/// `signature`.
pub open spec fn is_plan_of(signature: Signature, plan: Plan) -> bool {
    &&& plan.props_name@ == signature.name@ + "Props"@
    &&& plan.builder_name@ == signature.name@ + "PropsBuilder"@
    &&& plan.internal_name@ == "__"@ + signature.name@
    &&& text_of(plan.with_props_name) == if prop_places(signature.parameters@).len() == 0 {
        Some("__"@ + signature.name@ + "_with_props"@)
    } else {
        None
    }
    &&& text_of(plan.slot) == if has_slot(signature.parameters@) {
        text_of(signature.parameters[0].name)
    } else {
        None
    }
    &&& plan.props@ == prop_places(signature.parameters@)
    &&& plan.add_lifetime == (signature.lifetimes == 0 && holds_references(signature.parameters@))
}

fn slot_first(parameters: &Vec<Parameter>) -> (yes: bool)
    ensures
        yes == has_slot(parameters@),
{
    if parameters.len() == 0 || !parameters[0].typed {
        return false;
    }
    match &parameters[0].last_segment {
        Some(name) => str_eq(name.as_str(), "HtmlFragment"),
        None => false,
    }
}

fn some_holds_reference(parameters: &Vec<Parameter>) -> (yes: bool)
    ensures
        yes == holds_references(parameters@),
{
    let mut i: usize = 0;
    while i < parameters.len()
        invariant
            i <= parameters.len(),
            forall|j: int| 0 <= j < i ==> !((#[trigger] parameters[j]).typed
                && parameters[j].holds_reference),
        decreases parameters.len() - i,
    {
        if parameters[i].typed && parameters[i].holds_reference {
            return true;
        }
        i += 1;
    }
    false
}

fn places_of_props(parameters: &Vec<Parameter>) -> (places: Vec<usize>)
    ensures
        places@ == prop_places(parameters@),
{
    let first: usize = if slot_first(parameters) {
        1
    } else {
        0
    };
    let mut places: Vec<usize> = Vec::new();
    let mut i: usize = first;
    assert(Seq::<usize>::empty() + typed_places(parameters@, first as int) =~= typed_places(
        parameters@,
        first as int,
    ));
    while i < parameters.len()
        invariant
            first <= i,
            first <= 1,
            prop_places(parameters@) == typed_places(parameters@, first as int),
            typed_places(parameters@, first as int) == places@ + typed_places(
                parameters@,
                i as int,
            ),
        decreases parameters.len() - i,
    {
        let ghost before = places@;
        if parameters[i].typed {
            places.push(i);
            assert(before + (seq![i] + typed_places(parameters@, i + 1)) =~= before.push(i)
                + typed_places(parameters@, i + 1));
        }
        i += 1;
    }
    assert(places@ + Seq::<usize>::empty() =~= places@);
    places
}

/// Plans what is made for a component with the given signature. The name
/// must start with an upper-case letter, and a slot must be bound to a
/// plain identifier.
pub fn plan_component(signature: &Signature) -> (planned: Result<Plan, ComponentError>)
    ensures
        match planned {
            Ok(plan) => {
                &&& crate::utils::starts_uppercase(signature.name@)
                &&& has_slot(signature.parameters@) ==> signature.parameters[0].name is Some
                &&& is_plan_of(*signature, plan)
            },
            Err(ComponentError::NotPascalCase) => !crate::utils::starts_uppercase(signature.name@),
            Err(ComponentError::SlotPattern) => {
                &&& crate::utils::starts_uppercase(signature.name@)
                &&& has_slot(signature.parameters@)
                &&& signature.parameters[0].name is None
            },
        },
{
    let name = signature.name.as_str();
    if !is_pascal_case(name) {
        return Err(ComponentError::NotPascalCase);
    }
    let slot = if slot_first(&signature.parameters) {
        match &signature.parameters[0].name {
            None => {
                return Err(ComponentError::SlotPattern);
            },
            Some(slot) => Some(slot.clone()),
        }
    } else {
        None
    };
    let props = places_of_props(&signature.parameters);
    let with_props_name = if props.len() == 0 {
        Some(String::from_str("__").concat(name).concat("_with_props"))
    } else {
        None
    };
    Ok(
        Plan {
            props_name: String::from_str(name).concat("Props"),
            builder_name: String::from_str(name).concat("PropsBuilder"),
            internal_name: String::from_str("__").concat(name),
            with_props_name,
            slot,
            props,
            add_lifetime: signature.lifetimes == 0 && some_holds_reference(&signature.parameters),
        },
    )
}

} // verus!
