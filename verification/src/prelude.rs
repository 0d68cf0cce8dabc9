//! What most users of the library need, in one place.

pub use crate::component::{
    component_props_builder, component_view, component_with_slots_props_builder,
    component_with_slots_view, Component, ComponentWithSlots, Props, PropsOrNoPropsBuilder,
};
pub use crate::context::{Binding, Evaluator, Literals, Prop, PropValue, PropValues};
pub use crate::error::{Error, ParseError, RenderError, RenderErrorKind};
pub use crate::fragment::HtmlFragment;
pub use crate::{html, parse_template};
