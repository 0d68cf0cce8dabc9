use hypersynthetic::component::{
    component_props_builder, component_view, component_with_slots_props_builder,
    component_with_slots_view,
};
use hypersynthetic::generator::generate_nodes;
use hypersynthetic::{
    html, parse_template, Binding, Error, Evaluator, HtmlFragment, Node, PropValue, PropValues,
    RenderError, RenderErrorKind,
};
use std::cell::RefCell;
use std::collections::HashMap;
use std::rc::Rc;

#[derive(Clone, Debug, PartialEq)]
enum Value {
    Text(String),
    Int(i64),
    Bool(bool),
    List(Vec<Value>),
    Nothing,
}

type Scope = Vec<Binding<Value>>;

type Rule = Box<dyn Fn(&Host, &Scope) -> Value>;

type ComponentFn = Box<dyn Fn(PropValues<Value>, Option<HtmlFragment>) -> HtmlFragment>;

/// Evaluates the host code of the templates under test: variables, loop
/// variables, literals, and whatever a test gives a rule for.
struct Host {
    vars: HashMap<String, Value>,
    rules: Vec<(String, Rule)>,
    components: HashMap<String, ComponentFn>,
}

fn squeeze(text: &str) -> String {
    text.split_whitespace().collect::<Vec<_>>().join(" ")
}

fn text(text: &str) -> Value {
    Value::Text(text.to_string())
}

fn ints(values: &[i64]) -> Value {
    Value::List(values.iter().map(|v| Value::Int(*v)).collect())
}

fn shown(value: &Value) -> Option<String> {
    match value {
        Value::Text(text) => Some(text.clone()),
        Value::Int(number) => Some(number.to_string()),
        Value::Bool(flag) => Some(flag.to_string()),
        _ => None,
    }
}

fn failed(kind: RenderErrorKind, subject: &str) -> RenderError {
    RenderError { kind, subject: subject.to_string() }
}

fn prop(props: &PropValues<Value>, name: &str) -> Value {
    match props.get(name) {
        Some(PropValue::Text(text)) => Value::Text(text.clone()),
        Some(PropValue::Value(value)) => value.clone(),
        Some(PropValue::Bare) => Value::Bool(true),
        None => panic!("the prop {} is missing", name),
    }
}

fn markup(slot: Option<HtmlFragment>) -> Value {
    Value::Text(slot.expect("the component needs a slot").to_string())
}

impl Host {
    fn new() -> Host {
        Host { vars: HashMap::new(), rules: Vec::new(), components: HashMap::new() }
    }

    fn set(mut self, name: &str, value: Value) -> Host {
        self.vars.insert(name.to_string(), value);
        self
    }

    fn rule(mut self, expression: &str, rule: impl Fn(&Host, &Scope) -> Value + 'static) -> Host {
        self.rules.push((squeeze(expression), Box::new(rule)));
        self
    }

    fn component(
        mut self,
        name: &str,
        component: impl Fn(PropValues<Value>, Option<HtmlFragment>) -> HtmlFragment + 'static,
    ) -> Host {
        self.components.insert(name.to_string(), Box::new(component));
        self
    }

    fn lookup(&self, name: &str, scope: &Scope) -> Option<Value> {
        for binding in scope.iter().rev() {
            let pattern = binding.pattern.trim();
            if pattern == name {
                return Some(binding.value.clone());
            }
            if pattern.starts_with('(') && pattern.ends_with(')') {
                let names: Vec<&str> =
                    pattern[1..pattern.len() - 1].split(',').map(|part| part.trim()).collect();
                if let Some(place) = names.iter().position(|part| *part == name) {
                    if let Value::List(parts) = &binding.value {
                        return parts.get(place).cloned();
                    }
                }
            }
        }
        self.vars.get(name).cloned()
    }

    fn number(&self, name: &str, scope: &Scope) -> i64 {
        match self.lookup(name, scope) {
            Some(Value::Int(number)) => number,
            other => panic!("{} is no number: {:?}", name, other),
        }
    }

    fn eval(&self, expression: &str, scope: &Scope) -> Option<Value> {
        let expression = squeeze(expression);
        for (written, rule) in &self.rules {
            if *written == expression {
                return Some(rule(self, scope));
            }
        }
        if let Some(value) = self.lookup(&expression, scope) {
            return Some(value);
        }
        if expression.len() >= 2 && expression.starts_with('"') && expression.ends_with('"') {
            return Some(Value::Text(expression[1..expression.len() - 1].replace("\\\"", "\"")));
        }
        if let Ok(number) = expression.parse::<i64>() {
            return Some(Value::Int(number));
        }
        if expression == "true" || expression == "false" {
            return Some(Value::Bool(expression == "true"));
        }
        if let Some(rest) = expression.strip_prefix('!') {
            return match self.eval(rest, scope) {
                Some(Value::Bool(flag)) => Some(Value::Bool(!flag)),
                _ => None,
            };
        }
        if let Some((left, right)) = expression.split_once(" + ") {
            return match (self.eval(left, scope), self.eval(right, scope)) {
                (Some(Value::Int(a)), Some(Value::Int(b))) => Some(Value::Int(a + b)),
                _ => None,
            };
        }
        if let Some((left, right)) = expression.rsplit_once('.') {
            if let (Some(Value::List(parts)), Ok(place)) =
                (self.eval(left, scope), right.trim().parse::<usize>())
            {
                return parts.get(place).cloned();
            }
        }
        None
    }

    fn evaluated(&self, expression: &str, scope: &Scope) -> Result<Value, RenderError> {
        self.eval(expression, scope).ok_or_else(|| failed(RenderErrorKind::Expression, expression))
    }
}

impl Evaluator for Host {
    type Value = Value;

    fn display(&self, expression: &str, scope: &Scope) -> Result<String, RenderError> {
        let value = self.evaluated(expression, scope)?;
        shown(&value).ok_or_else(|| failed(RenderErrorKind::Expression, expression))
    }

    fn truth(&self, expression: &str, scope: &Scope) -> Result<bool, RenderError> {
        match self.evaluated(expression, scope)? {
            Value::Bool(flag) => Ok(flag),
            _ => Err(failed(RenderErrorKind::Expression, expression)),
        }
    }

    fn items(&self, expression: &str, scope: &Scope) -> Result<Vec<Value>, RenderError> {
        match self.evaluated(expression, scope)? {
            Value::List(items) => Ok(items),
            _ => Err(failed(RenderErrorKind::Expression, expression)),
        }
    }

    fn value(&self, expression: &str, scope: &Scope) -> Result<Value, RenderError> {
        self.evaluated(expression, scope)
    }

    fn component(
        &self,
        name: &str,
        props: PropValues<Value>,
        slot: Option<HtmlFragment>,
    ) -> Result<HtmlFragment, RenderError> {
        match self.components.get(name) {
            Some(component) => Ok(component(props, slot)),
            None => Err(failed(RenderErrorKind::Component, name)),
        }
    }
}

fn render(template: &str, host: &Host) -> HtmlFragment {
    match html(template, host) {
        Ok(fragment) => fragment,
        Err(error) => panic!("the template does not render: {:?}", error),
    }
}

/// Shows a string and a number plus one.
fn component(props: PropValues<Value>, _slot: Option<HtmlFragment>) -> HtmlFragment {
    let host = Host::new().set("val1", prop(&props, "val1")).set("val2", prop(&props, "val2"));
    render(
        r#"
        <div>
            <p>{val1}</p>
            <p>{val2 + 1}</p>
        </div>
    "#,
        &host,
    )
}

fn component_with_args_of_the_same_type(
    props: PropValues<Value>,
    _slot: Option<HtmlFragment>,
) -> HtmlFragment {
    let host = Host::new().set("val1", prop(&props, "val1")).set("val2", prop(&props, "val2"));
    render(
        r#"
        <div>
            <p>{"Val1: "}{val1}</p>
            <p>{"Val2: "}{val2}</p>
        </div>
    "#,
        &host,
    )
}

fn inner_component(props: PropValues<Value>, _slot: Option<HtmlFragment>) -> HtmlFragment {
    let host = Host::new().set("val", prop(&props, "val"));
    render(
        r#"
            <span>{val}</span>
        "#,
        &host,
    )
}

fn inner_div(_props: PropValues<Value>, slot: Option<HtmlFragment>) -> HtmlFragment {
    let host = Host::new().set("content", markup(slot));
    render(
        r#"
            <div>{{ content }}</div>
        "#,
        &host,
    )
}

fn orange_div(_props: PropValues<Value>, slot: Option<HtmlFragment>) -> HtmlFragment {
    let host = Host::new().set("inner_block", markup(slot));
    render(
        r#"
        <div class="orange round">
            {{ inner_block }}
        </div>
    "#,
        &host,
    )
}

fn colorful_div(props: PropValues<Value>, slot: Option<HtmlFragment>) -> HtmlFragment {
    let host = Host::new().set("inner_block", markup(slot)).set("color", prop(&props, "color"));
    render(
        r#"
        <div class="{color} round">
            {{ inner_block }}
        </div>
    "#,
        &host,
    )
}

fn dialog(props: PropValues<Value>, _slot: Option<HtmlFragment>) -> HtmlFragment {
    let host = Host::new().set("text", prop(&props, "text"));
    render(
        r#"
        <div>
            <p>{text}</p>
        </div>
    "#,
        &host,
    )
}

fn dialog2(_props: PropValues<Value>, slot: Option<HtmlFragment>) -> HtmlFragment {
    let host = Host::new().set("content", markup(slot));
    render(
        r#"
        <div>
            {{ content }}
        </div>
    "#,
        &host,
    )
}

fn card(_props: PropValues<Value>, _slot: Option<HtmlFragment>) -> HtmlFragment {
    render(
        r#"
        <div class="card">
            <h2>"Card Title"</h2>
            <p>"This is a card component"</p>
        </div>
    "#,
        &Host::new(),
    )
}

#[test]
fn test_tags_and_literal_strings() {
    let result = render(
        r#"
        <body>
            <div>
                <p>"Text"</p>
            </div>
        </body>
    "#,
        &Host::new(),
    );

    let string_representation = result.to_string();

    let expected = "<body><div><p>Text</p></div></body>";
    assert_eq!(string_representation, expected);
}

#[test]
fn test_tags_and_attributes() {
    let result = render(
        r#"
        <body id="main" class="container">
            <div>
                <a href="https://example.com">"Link"</a>
            </div>
        </body>
    "#,
        &Host::new(),
    );

    let string_representation = result.to_string();

    let expected =
        "<body id=\"main\" class=\"container\"><div><a href=\"https://example.com\">Link</a></div></body>";
    assert_eq!(string_representation, expected);
}

#[test]
fn test_several_children() {
    let result = render(
        r#"
        <body>
            <div>
                <p>"Text 1"</p>
                <p>"Text 2"</p>
            </div>
        </body>
    "#,
        &Host::new(),
    );

    let string_representation = result.to_string();

    let expected = "<body><div><p>Text 1</p><p>Text 2</p></div></body>";
    assert_eq!(string_representation, expected);
}

#[test]
fn test_no_children() {
    let result = render(
        r#"
        <body>
            <div>
            </div>
        </body>
    "#,
        &Host::new(),
    );

    let string_representation = result.to_string();

    let expected = "<body><div></div></body>";
    assert_eq!(string_representation, expected);
}

#[test]
fn test_deep_nesting() {
    let result = render(
        r#"
        <body>
            <div>
                <p><span><em>"Text"</em></span></p>
            </div>
        </body>
    "#,
        &Host::new(),
    );

    let string_representation = result.to_string();

    let expected = "<body><div><p><span><em>Text</em></span></p></div></body>";
    assert_eq!(string_representation, expected);
}

#[test]
fn test_one_tag_with_text() {
    let result = render(
        r#"
        <p>"Text"</p>
    "#,
        &Host::new(),
    );

    let string_representation = result.to_string();

    let expected = "<p>Text</p>";
    assert_eq!(string_representation, expected);
}

#[test]
fn test_self_closing() {
    let result = render(
        r#"
        <body>
            <div>
                <p>"Text 1"</p>
                <br />
                <p>"Text 2"</p>
                <br class="foo" />
                <p>"Text 3"</p>
            </div>
        </body>
    "#,
        &Host::new(),
    );

    let string_representation = result.to_string();

    let expected =
        "<body><div><p>Text 1</p><br /><p>Text 2</p><br class=\"foo\" /><p>Text 3</p></div></body>";
    assert_eq!(string_representation, expected);
}

#[test]
fn test_mixed_children() {
    let result = render(
        r#"
        <body>
            <div>
                <p>"text1"<em>"text1"</em>"text3"</p>
            </div>
        </body>
    "#,
        &Host::new(),
    );

    let string_representation = result.to_string();

    let expected = "<body><div><p>text1<em>text1</em>text3</p></div></body>";
    assert_eq!(string_representation, expected);
}

#[test]
fn test_expression() {
    let host = Host::new().set("x", Value::Int(41));
    let result = render(
        r#"
        <p>
            { 1 + x }
        </p>
    "#,
        &host,
    );

    let string_representation = result.to_string();

    let expected = "<p>42</p>";
    assert_eq!(string_representation, expected);
}

#[test]
fn test_hyphens_in_attribute_names() {
    let result = render(
        r#"
        <button hx-get="/resources">"Get 'em"</button>
    "#,
        &Host::new(),
    );

    let string_representation = result.to_string();

    let expected = "<button hx-get=\"/resources\">Get 'em</button>";
    assert_eq!(string_representation, expected);
}

#[test]
fn test_many_hyphens_in_attribute_names() {
    let result = render(
        r#"
        <br we-can-have-a-lot-of-hyphens="in the name" />
    "#,
        &Host::new(),
    );

    let string_representation = result.to_string();

    let expected = "<br we-can-have-a-lot-of-hyphens=\"in the name\" />";
    assert_eq!(string_representation, expected);
}

#[test]
fn test_boolean_attribute() {
    let result = render(
        r#"
        <input disabled />
    "#,
        &Host::new(),
    );

    let string_representation = result.to_string();

    let expected = "<input disabled />";
    assert_eq!(string_representation, expected);
}

#[test]
fn test_attributes_names_which_are_rust_keywords() {
    let result = render(
        r#"
        <input type="checkbox" checked />
    "#,
        &Host::new(),
    );

    let string_representation = result.to_string();

    let expected = "<input type=\"checkbox\" checked />";
    assert_eq!(string_representation, expected);
}

#[test]
fn test_boolean_attribute_between_other_attributes() {
    let result = render(
        r#"
        <input type="text" required name="text" />
    "#,
        &Host::new(),
    );

    let string_representation = result.to_string();

    let expected = "<input type=\"text\" required name=\"text\" />";
    assert_eq!(string_representation, expected);
}

#[test]
fn test_attributes_names_which_are_rust_keywords_with_hyphens() {
    let result = render(
        r#"
        <p my-type>"Text"</p>
    "#,
        &Host::new(),
    );

    let string_representation = result.to_string();

    let expected = "<p my-type>Text</p>";
    assert_eq!(string_representation, expected);
}

#[test]
fn test_attribute_value_substitution() {
    let host = Host::new()
        .set("x", Value::Int(3))
        .rule(r#"format!("y{x}")"#, |host, scope| Value::Text(format!("y{}", host.number("x", scope))));
    let result = render(
        r#"
        <p class={format!("y{x}")}>"text"</p>
    "#,
        &host,
    );

    let string_representation = result.to_string();

    let expected = "<p class=\"y3\">text</p>";
    assert_eq!(string_representation, expected);
}

#[test]
fn test_attribute_name_substitution() {
    let host = Host::new().set("hx_method", text("hx-get"));
    let result = render(
        r#"
        <button {hx_method}="/resources">"Get 'em"</button>
    "#,
        &host,
    );

    let string_representation = result.to_string();

    let expected = "<button hx-get=\"/resources\">Get 'em</button>";
    assert_eq!(string_representation, expected);
}

#[test]
fn test_several_elements_without_a_parent() {
    let result = render(
        r#"
        <head></head>
        <body></body>
    "#,
        &Host::new(),
    );

    let string_representation = result.to_string();

    let expected = "<head></head><body></body>";
    assert_eq!(string_representation, expected);
}

#[test]
fn test_doctype() {
    let result = render(
        r#"
        <!doctype html>
        <head></head>
        <body></body>
    "#,
        &Host::new(),
    );

    let string_representation = result.to_string();

    let expected = "<!DOCTYPE html><head></head><body></body>";
    assert_eq!(string_representation, expected);
}

#[test]
fn test_escaping_in_expression() {
    let result = render(
        r#"
        <div>
            <p>{ "<script>alert(1)</script>" }</p>
        </div>
    "#,
        &Host::new(),
    );

    let string_representation = result.to_string();

    let expected = "<div><p>&lt;script&gt;alert(1)&lt;/script&gt;</p></div>";
    assert_eq!(string_representation, expected);
}

#[test]
fn test_escaping_in_literal() {
    let result = render(
        r#"
        <div>
            <p>"<script>alert(1)</script>"</p>
        </div>
    "#,
        &Host::new(),
    );

    let string_representation = result.to_string();

    let expected = "<div><p>&lt;script&gt;alert(1)&lt;/script&gt;</p></div>";
    assert_eq!(string_representation, expected);
}

#[test]
fn test_escaping_in_attribute_value_literal() {
    let result = render(
        r#"
        <div class="<script>alert(1)</script>"></div>
    "#,
        &Host::new(),
    );

    let string_representation = result.to_string();

    let expected = "<div class=\"&lt;script&gt;alert(1)&lt;/script&gt;\"></div>";
    assert_eq!(string_representation, expected);
}

#[test]
fn test_quote_scaping_in_attribute_value() {
    let host = Host::new().set("value", text("\""));
    let result = render(
        r#"
        <input value="{value}" />
    "#,
        &host,
    );

    let string_representation = result.to_string();

    let expected = "<input value=\"&quot;\" />";
    assert_eq!(string_representation, expected);
}

#[test]
fn test_escaping_in_attribute_value_expression() {
    let result = render(
        r#"
        <div class={ "<script>alert(1)</script>" }></div>
    "#,
        &Host::new(),
    );

    let string_representation = result.to_string();

    let expected = "<div class=\"&lt;script&gt;alert(1)&lt;/script&gt;\"></div>";
    assert_eq!(string_representation, expected);
}

#[test]
fn test_escaping_in_attribute_name() {
    let result = render(
        r#"
        <div { "<script>alert(1)</script>" }="whatever"></div>
    "#,
        &Host::new(),
    );

    let string_representation = result.to_string();

    let expected = "<div &lt;script&gt;alert(1)&lt;/script&gt;=\"whatever\"></div>";
    assert_eq!(string_representation, expected);
}

#[test]
fn test_interpolation_in_attr_values() {
    let host = Host::new()
        .rule("s.a", |_, _| text("est"))
        .rule("s.b", |_, _| Value::Int(42));
    let result = render(
        r#"
        <div id="t{s.a}-{s.b}{s.a}">"Text"</div>
    "#,
        &host,
    );

    let string_representation = result.to_string();

    let expected = "<div id=\"test-42est\">Text</div>";
    assert_eq!(string_representation, expected);
}

#[test]
fn test_colons_in_attr_names() {
    let result = render(
        r#"
        <form
            hx-on::after-request="this.reset()"
        >
        </form>
    "#,
        &Host::new(),
    );

    let string_representation = result.to_string();

    let expected = "<form hx-on::after-request=\"this.reset()\"></form>";
    assert_eq!(string_representation, expected);
}

#[test]
fn document_that_whitespace_in_attribute_names_is_ignored() {
    let result = render(
        r#"
        <div data - test = "1"></div>
    "#,
        &Host::new(),
    );

    let string_representation = result.to_string();

    let expected = "<div data-test=\"1\"></div>";

    assert_eq!(string_representation, expected);
}

#[test]
fn test_disable_html_escaping() {
    let host = Host::new()
        .set("i_know_what_i_am_doing", text("<span>I know what I am doing</span>"));

    let result = render(
        r#"
        <div>{{i_know_what_i_am_doing}}</div>
    "#,
        &host,
    );

    let string_representation = result.to_string();

    let expected = "<div><span>I know what I am doing</span></div>";

    assert_eq!(string_representation, expected);
}

#[test]
fn html_macro_tests_test_tags_and_literal_strings() {
    let result = render(
        r#"
        <body>
            <div>
                <p>"Text"</p>
            </div>
        </body>
    "#,
        &Host::new(),
    );

    let string_representation = result.to_html();

    let expected = "<body><div><p>Text</p></div></body>";
    assert_eq!(string_representation, expected);
}

#[test]
fn html_macro_tests_test_tags_and_attributes() {
    let result = render(
        r#"
        <body id="main" class="container">
            <div>
                <a href="https://example.com">"Link"</a>
            </div>
        </body>
    "#,
        &Host::new(),
    );

    let string_representation = result.to_html();

    let expected =
        "<body id=\"main\" class=\"container\"><div><a href=\"https://example.com\">Link</a></div></body>";
    assert_eq!(string_representation, expected);
}

#[test]
fn html_macro_tests_test_several_children() {
    let result = render(
        r#"
        <body>
            <div>
                <p>"Text 1"</p>
                <p>"Text 2"</p>
            </div>
        </body>
    "#,
        &Host::new(),
    );

    let string_representation = result.to_html();

    let expected = "<body><div><p>Text 1</p><p>Text 2</p></div></body>";
    assert_eq!(string_representation, expected);
}

#[test]
fn html_macro_tests_test_no_children() {
    let result = render(
        r#"
        <body>
            <div>
            </div>
        </body>
    "#,
        &Host::new(),
    );

    let string_representation = result.to_html();

    let expected = "<body><div></div></body>";
    assert_eq!(string_representation, expected);
}

#[test]
fn html_macro_tests_test_deep_nesting() {
    let result = render(
        r#"
        <body>
            <div>
                <p><span><em>"Text"</em></span></p>
            </div>
        </body>
    "#,
        &Host::new(),
    );

    let string_representation = result.to_html();

    let expected = "<body><div><p><span><em>Text</em></span></p></div></body>";
    assert_eq!(string_representation, expected);
}

#[test]
fn html_macro_tests_test_one_tag_with_text() {
    let result = render(
        r#"
        <p>"Text"</p>
    "#,
        &Host::new(),
    );

    let string_representation = result.to_html();

    let expected = "<p>Text</p>";
    assert_eq!(string_representation, expected);
}

#[test]
fn html_macro_tests_test_self_closing() {
    let result = render(
        r#"
        <body>
            <div>
                <p>"Text 1"</p>
                <br />
                <p>"Text 2"</p>
                <br class="foo" />
                <p>"Text 3"</p>
            </div>
        </body>
    "#,
        &Host::new(),
    );

    let string_representation = result.to_html();

    let expected =
        "<body><div><p>Text 1</p><br /><p>Text 2</p><br class=\"foo\" /><p>Text 3</p></div></body>";
    assert_eq!(string_representation, expected);
}

#[test]
fn html_macro_tests_test_mixed_children() {
    let result = render(
        r#"
        <body>
            <div>
                <p>"text1"<em>"text1"</em>"text3"</p>
            </div>
        </body>
    "#,
        &Host::new(),
    );

    let string_representation = result.to_html();

    let expected = "<body><div><p>text1<em>text1</em>text3</p></div></body>";
    assert_eq!(string_representation, expected);
}

#[test]
fn test_mixed_attributes() {
    let host = Host::new().set("x", Value::Int(41));
    let result = render(
        r#"
        <p>
            { 1 + x }
        </p>
    "#,
        &host,
    );

    let string_representation = result.to_html();

    let expected = "<p>42</p>";
    assert_eq!(string_representation, expected);
}

#[test]
fn html_macro_tests_test_hyphens_in_attribute_names() {
    let result = render(
        r#"
        <button hx-get="/resources">"Get 'em"</button>
    "#,
        &Host::new(),
    );

    let string_representation = result.to_html();

    let expected = "<button hx-get=\"/resources\">Get 'em</button>";
    assert_eq!(string_representation, expected);
}

#[test]
fn html_macro_tests_test_many_hyphens_in_attribute_names() {
    let result = render(
        r#"
        <br we-can-have-a-lot-of-hyphens="in the name" />
    "#,
        &Host::new(),
    );

    let string_representation = result.to_html();

    let expected = "<br we-can-have-a-lot-of-hyphens=\"in the name\" />";
    assert_eq!(string_representation, expected);
}

#[test]
fn test_attributes_without_values() {
    let result = render(
        r#"
        <input disabled />
    "#,
        &Host::new(),
    );

    let string_representation = result.to_html();

    let expected = "<input disabled />";
    assert_eq!(string_representation, expected);
}

#[test]
fn html_macro_tests_test_attributes_names_which_are_rust_keywords() {
    let result = render(
        r#"
        <input type="ckeckbox" checked />
    "#,
        &Host::new(),
    );

    let string_representation = result.to_html();

    let expected = "<input type=\"ckeckbox\" checked />";
    assert_eq!(string_representation, expected);
}

#[test]
fn html_macro_tests_test_attributes_names_which_are_rust_keywords_with_hyphens() {
    let result = render(
        r#"
        <p my-type>"Text"</p>
    "#,
        &Host::new(),
    );

    let string_representation = result.to_html();

    let expected = "<p my-type>Text</p>";
    assert_eq!(string_representation, expected);
}

#[test]
fn html_macro_tests_test_attribute_value_substitution() {
    let host = Host::new()
        .set("x", Value::Int(3))
        .rule(r#"format!("y{x}")"#, |host, scope| Value::Text(format!("y{}", host.number("x", scope))));
    let result = render(
        r#"
        <p class={format!("y{x}")}>"text"</p>
    "#,
        &host,
    );

    let string_representation = result.to_html();

    let expected = "<p class=\"y3\">text</p>";
    assert_eq!(string_representation, expected);
}

#[test]
fn html_macro_tests_test_attribute_name_substitution() {
    let host = Host::new().set("hx_method", text("hx-get"));
    let result = render(
        r#"
        <button {hx_method}="/resources">"Get 'em"</button>
    "#,
        &host,
    );

    let string_representation = result.to_html();

    let expected = "<button hx-get=\"/resources\">Get 'em</button>";
    assert_eq!(string_representation, expected);
}

#[test]
fn test_several_elemnts_without_a_parent() {
    let result = render(
        r#"
        <head></head>
        <body></body>
    "#,
        &Host::new(),
    );

    let string_representation = result.to_html();

    let expected = "<head></head><body></body>";
    assert_eq!(string_representation, expected);
}

#[test]
fn test_component_arguments_out_of_order() {
    let host = Host::new().component("Component", component);
    let result = render(
        r#"
        <Component val2={41} val1="Hello" />
    "#,
        &host,
    );

    let string_representation = result.to_string();

    let expected = "<div><p>Hello</p><p>42</p></div>";
    assert_eq!(string_representation, expected);
}

#[test]
fn test_arguments_in_the_wrong_order() {
    let host = Host::new().component("Component", component);
    let result1 = render(
        r#"
        <Component val1="test" val2={-1} />
    "#,
        &host,
    );

    let result2 = render(
        r#"
        <Component val2={-1} val1="test" />
    "#,
        &host,
    );

    let string_representation1 = result1.to_string();
    let string_representation2 = result2.to_string();

    assert_eq!(string_representation1, string_representation2);
}

#[test]
fn test_arguments_in_the_wrong_order_of_the_same_type() {
    let host = Host::new()
        .component("ComponentWithArgsOfTheSameType", component_with_args_of_the_same_type);
    let result1 = render(
        r#"
        <ComponentWithArgsOfTheSameType val1="one" val2="two" />
    "#,
        &host,
    );

    let result2 = render(
        r#"
        <ComponentWithArgsOfTheSameType val2="two" val1="one" />
    "#,
        &host,
    );

    let string_representation1 = result1.to_string();
    let string_representation2 = result2.to_string();

    assert_eq!(string_representation1, string_representation2);
}

#[test]
fn test_arguments_with_refs() {
    let host = Host::new()
        .set("strings", Value::List(vec![text("one"), text("two")]))
        .component("Component", |props, _slot| {
            let host = Host::new().set("values", prop(&props, "values"));
            render(
                r#"
        <div>
            <p :for={value in values}>{value}</p>
        </div>
    "#,
                &host,
            )
        });
    let result = render(
        r#"
        <Component values={strings} />
    "#,
        &host,
    );

    let string_representation = result.to_string();

    let expected = "<div><p>one</p><p>two</p></div>";
    assert_eq!(string_representation, expected);
}

#[test]
fn test_bare_text() {
    let div = render(
        r#"
        <p>Hello world</p>
    "#,
        &Host::new(),
    );
    assert_eq!(div.to_string(), "<p>Hello world</p>");
}

#[test]
fn test_bare_text_punctuation() {
    let div = render(
        r#"
        <p>Hello, world! Can you read this? Crazy; {" isn't "} it?</p>
    "#,
        &Host::new(),
    );
    assert_eq!(
        div.to_string(),
        "<p>Hello, world! Can you read this? Crazy; isn't it?</p>"
    );
}

#[test]
fn test_trait_object() {
    let host = Host::new()
        .set("number", Value::Int(42))
        .rule("&number", |host, scope| Value::Int(host.number("number", scope)))
        .component("TraitObjectComponent", |props, _slot| {
            let host = Host::new().set("formatter", prop(&props, "formatter"));
            render(
                r#"
        <div>{formatter}</div>
    "#,
                &host,
            )
        });
    let result = render(
        r#"
        <TraitObjectComponent formatter={&number} />
    "#,
        &host,
    );
    assert_eq!(result.to_string(), "<div>42</div>");
}

fn option_component(props: PropValues<Value>, _slot: Option<HtmlFragment>) -> HtmlFragment {
    let host = Host::new().set("maybe_text", prop(&props, "maybe_text")).rule(
        r#"maybe_text.unwrap_or("Nothing")"#,
        |host, scope| match host.lookup("maybe_text", scope) {
            Some(Value::Nothing) | None => text("Nothing"),
            Some(value) => value,
        },
    );
    render(
        r#"
        <div>
            {maybe_text.unwrap_or("Nothing")}
        </div>
    "#,
        &host,
    )
}

#[test]
fn test_option_with_ref() {
    let host = Host::new()
        .rule(r#"Some("Hello")"#, |_, _| text("Hello"))
        .rule("None", |_, _| Value::Nothing)
        .component("OptionComponent", option_component);
    let result1 = render(
        r#"
        <OptionComponent maybe_text={Some("Hello")} />
    "#,
        &host,
    );
    assert_eq!(result1.to_string(), "<div>Hello</div>");

    let result2 = render(
        r#"
        <OptionComponent maybe_text={None} />
    "#,
        &host,
    );
    assert_eq!(result2.to_string(), "<div>Nothing</div>");
}

fn result_component(props: PropValues<Value>, _slot: Option<HtmlFragment>) -> HtmlFragment {
    let host = Host::new().set("result", prop(&props, "result")).rule(
        r#"match result {
                Ok(text) => text,
                Err(err) => err
            }"#,
        |host, scope| match host.lookup("result", scope) {
            Some(Value::List(parts)) => parts[1].clone(),
            other => panic!("no result: {:?}", other),
        },
    );
    render(
        r#"
        <div>
            {match result {
                Ok(text) => text,
                Err(err) => err
            }}
        </div>
    "#,
        &host,
    )
}

#[test]
fn test_result_with_refs() {
    let host = Host::new()
        .rule(r#"Ok("Success")"#, |_, _| Value::List(vec![text("Ok"), text("Success")]))
        .rule(r#"Err("Error")"#, |_, _| Value::List(vec![text("Err"), text("Error")]))
        .component("ResultComponent", result_component);
    let result1 = render(
        r#"
        <ResultComponent result={Ok("Success")} />
    "#,
        &host,
    );
    assert_eq!(result1.to_string(), "<div>Success</div>");

    let result2 = render(
        r#"
        <ResultComponent result={Err("Error")} />
    "#,
        &host,
    );
    assert_eq!(result2.to_string(), "<div>Error</div>");
}

#[test]
fn test_fn_ptr() {
    fn uppercase(s: &str) -> String {
        s.to_uppercase()
    }

    let host = Host::new().set("uppercase", text("uppercase")).component(
        "FnPtrComponent",
        |props, _slot| {
            let host = Host::new().set("transform", prop(&props, "transform")).rule(
                r#"transform("hello")"#,
                |host, scope| match host.lookup("transform", scope) {
                    Some(Value::Text(name)) if name == "uppercase" => {
                        Value::Text(uppercase("hello"))
                    }
                    other => panic!("no function: {:?}", other),
                },
            );
            render(
                r#"
        <div>{transform("hello")}</div>
    "#,
                &host,
            )
        },
    );

    let result = render(
        r#"
        <FnPtrComponent transform={uppercase} />
    "#,
        &host,
    );
    assert_eq!(result.to_string(), "<div>HELLO</div>");
}

#[test]
fn test_complex_lifetimes() {
    let host = Host::new()
        .set("items", Value::List(vec![text("one"), text("two"), text("three")]))
        .component("ComplexComponent", |props, _slot| {
            let host = Host::new()
                .set("first", prop(&props, "first"))
                .set("second", prop(&props, "second"))
                .set("items", prop(&props, "items"));
            render(
                r#"
        <div>
            <p>{first}</p>
            <p>{second}</p>
            <ul>
                <li :for={item in items}>{item}</li>
            </ul>
        </div>
    "#,
                &host,
            )
        });
    let result = render(
        r#"
        <ComplexComponent first="First" second="Second" items={items} />
    "#,
        &host,
    );

    let expected =
        "<div><p>First</p><p>Second</p><ul><li>one</li><li>two</li><li>three</li></ul></div>";
    assert_eq!(result.to_string(), expected);
}

#[test]
fn test_mut_ref() {
    let text_cell = Rc::new(RefCell::new(String::from("Original")));
    let read = Rc::clone(&text_cell);
    let written = Rc::clone(&text_cell);
    let host = Host::new()
        .rule("&mut text", move |_, _| Value::Text(read.borrow().clone()))
        .component("MutRefComponent", move |props, _slot| {
            let value = match prop(&props, "value") {
                Value::Text(value) => value,
                other => panic!("no text: {:?}", other),
            };
            *written.borrow_mut() = value;
            written.borrow_mut().push_str(" - modified");
            let shown = written.borrow().clone();
            let host = Host::new().rule("&*value", move |_, _| Value::Text(shown.clone()));
            render(
                r#"
        <div>{&*value}</div>
    "#,
                &host,
            )
        });
    let result = render(
        r#"
        <MutRefComponent value={&mut text} />
    "#,
        &host,
    );
    assert_eq!(result.to_string(), "<div>Original - modified</div>");
    assert_eq!(*text_cell.borrow(), "Original - modified");
}

fn nested_component(props: PropValues<Value>, _slot: Option<HtmlFragment>) -> HtmlFragment {
    let host = Host::new().set("data", prop(&props, "data")).rule(
        r#"match data {
                Some(Ok(text)) => text,
                Some(Err(err)) => err,
                None => "No data"
            }"#,
        |host, scope| match host.lookup("data", scope) {
            Some(Value::List(parts)) => parts[1].clone(),
            Some(Value::Nothing) => text("No data"),
            other => panic!("no data: {:?}", other),
        },
    );
    render(
        r#"
        <div>
            {match data {
                Some(Ok(text)) => text,
                Some(Err(err)) => err,
                None => "No data"
            }}
        </div>
    "#,
        &host,
    )
}

#[test]
fn test_nested_option_result() {
    let host = Host::new()
        .rule(r#"Some(Ok("Success"))"#, |_, _| Value::List(vec![text("Ok"), text("Success")]))
        .rule(r#"Some(Err("Error"))"#, |_, _| Value::List(vec![text("Err"), text("Error")]))
        .rule("None", |_, _| Value::Nothing)
        .component("NestedComponent", nested_component);
    let result1 = render(
        r#"
        <NestedComponent data={Some(Ok("Success"))} />
    "#,
        &host,
    );
    assert_eq!(result1.to_string(), "<div>Success</div>");

    let result2 = render(
        r#"
        <NestedComponent data={Some(Err("Error"))} />
    "#,
        &host,
    );
    assert_eq!(result2.to_string(), "<div>Error</div>");

    let result3 = render(
        r#"
        <NestedComponent data={None} />
    "#,
        &host,
    );
    assert_eq!(result3.to_string(), "<div>No data</div>");
}

#[test]
fn test_imported_component() {
    let host = Host::new().component("Card", card);
    let result = render(
        r#"
        <Card />
    "#,
        &host,
    );

    let string_representation = result.to_string();

    let expected = r#"<div class="card"><h2>Card Title</h2><p>This is a card component</p></div>"#;

    assert_eq!(string_representation, expected);
}

#[test]
fn test_component() {
    let host = Host::new().component("Component", component);
    let result = render(
        r#"
        <Component val1="Hello" val2={41} />
    "#,
        &host,
    );

    let string_representation = result.to_string();

    let expected = "<div><p>Hello</p><p>42</p></div>";

    assert_eq!(string_representation, expected);
}

#[test]
fn test_component_as_a_child() {
    let host = Host::new().component("Component", component);
    let result = render(
        r#"
        <div>
            <Component val1="test" val2={-1} />
        </div>
    "#,
        &host,
    );

    let string_representation = result.to_string();

    let expected = "<div><div><p>test</p><p>0</p></div></div>";

    assert_eq!(string_representation, expected);
}

#[test]
fn test_inner_component() {
    let host = Host::new().component("inner::InnerComponent", inner_component);
    let result = render(
        r#"
        <inner::InnerComponent val="test" />
    "#,
        &host,
    );

    let string_representation = result.to_string();

    let expected = "<span>test</span>";

    assert_eq!(string_representation, expected);
}

#[test]
fn test_inner_component_with_slot_argument() {
    let host = Host::new()
        .component("inner::InnerComponent", inner_component)
        .component("inner::Div", inner_div);
    let result = render(
        r#"
        <inner::Div>
            <inner::InnerComponent val="test" />
        </inner::Div>
    "#,
        &host,
    );

    let string_representation = result.to_string();

    let expected = "<div><span>test</span></div>";

    assert_eq!(string_representation, expected);
}

#[test]
fn test_for() {
    let host = Host::new().set("numbers", ints(&[1, 2, 3]));
    let result = render(
        r#"
        <div>
            <p :for={number in numbers}>
                { number }
            </p>
        </div>
    "#,
        &host,
    );

    let string_representation = result.to_string();

    let expected = "<div><p>1</p><p>2</p><p>3</p></div>";
    assert_eq!(string_representation, expected);
}

#[test]
fn test_for_deep() {
    let things = Value::List(vec![ints(&[1, 2]), ints(&[3, 4]), ints(&[5, 6])]);
    let host = Host::new().set("things", things);
    let result = render(
        r#"
        <tr :for={thing in things}>
            <td>{ thing.0 }</td>
            <td>{ thing.1 }</td>
        </tr>
    "#,
        &host,
    );

    let string_representation = result.to_string();

    let expected =
        "<tr><td>1</td><td>2</td></tr><tr><td>3</td><td>4</td></tr><tr><td>5</td><td>6</td></tr>";
    assert_eq!(string_representation, expected);
}

#[test]
fn test_for_selfclosing() {
    let host = Host::new().set("numbers", ints(&[1, 2, 3]));
    let result = render(
        r#"
        <input type="text" :for={number in numbers} id="id{number}" />
    "#,
        &host,
    );

    let string_representation = result.to_string();

    let expected = "<input type=\"text\" id=\"id1\" /><input type=\"text\" id=\"id2\" /><input type=\"text\" id=\"id3\" />";
    assert_eq!(string_representation, expected);
}

#[test]
fn test_for_deep_components() {
    let host = Host::new().set("numbers", ints(&[1, 2])).component("Component", component);
    let result = render(
        r#"
        <div :for={number in numbers} id="id{number}">
            <Component val1="test" val2={number} />
        </div>
    "#,
        &host,
    );

    let string_representation = result.to_string();

    let expected = "<div id=\"id1\"><div><p>test</p><p>2</p></div></div><div id=\"id2\"><div><p>test</p><p>3</p></div></div>";
    assert_eq!(string_representation, expected);
}

#[test]
fn test_for_on_a_component() {
    let host = Host::new().set("numbers", ints(&[1, 2])).component("Component", component);
    let result = render(
        r#"
        <Component :for={number in numbers} val1="test" val2={number} />
    "#,
        &host,
    );

    let string_representation = result.to_string();

    let expected = "<div><p>test</p><p>2</p></div><div><p>test</p><p>3</p></div>";
    assert_eq!(string_representation, expected);
}

#[test]
fn test_for_parentheses() {
    let numbers = Value::List(vec![
        Value::List(vec![Value::Int(1), text("one")]),
        Value::List(vec![Value::Int(2), text("two)")]),
    ]);
    let host = Host::new().set("numbers", numbers);
    let result = render(
        r#"
        <div :for={(number, name) in numbers}>
            <p>{ number }</p>
            <p>{ name }</p>
        </div>
    "#,
        &host,
    );

    let string_representation = result.to_string();

    let expected = "<div><p>1</p><p>one</p></div><div><p>2</p><p>two)</p></div>";
    assert_eq!(string_representation, expected);
}

#[test]
fn test_formatting_in_text_node() {
    let host = Host::new().set("text", text("some text"));
    let result = render(
        r#"
        <p>
            "Saying {text}"
        </p>
    "#,
        &host,
    );

    let string_representation = result.to_string();

    let expected = "<p>Saying some text</p>";
    assert_eq!(string_representation, expected);
}

#[test]
fn test_formatting_in_text_node_disabling_escaping_not_working() {
    let host = Host::new().set("text", text("<span>some text</span>"));
    let result = render(
        r#"
        <p>
            "Saying {{text}}"
        </p>
    "#,
        &host,
    );

    let string_representation = result.to_string();

    let expected = "<p>Saying {text}</p>";

    assert_eq!(string_representation, expected);
}

#[test]
fn test_set_attribute() {
    let mut div = render(
        r#"
        <div>
            <p></p>
        </div>
    "#,
        &Host::new(),
    );

    let mut elements = div.iter_elements_mut();
    let div_element = elements.next().unwrap();

    div_element.set_attribute("class".to_string(), "container".to_string());

    assert_eq!(div.to_string(), r#"<div class="container"><p></p></div>"#);
}

#[test]
fn test_has_attribute() {
    let div = render(
        r#"
        <div class="container">
            <p></p>
        </div>
    "#,
        &Host::new(),
    );

    let div_element = div.iter_elements().next().unwrap();

    assert!(div_element.has_attribute("class"));
}

#[test]
fn test_get_attribute() {
    let div = render(
        r#"
        <div itemscope class="container">
            <p></p>
        </div>
    "#,
        &Host::new(),
    );

    let div_element = div.iter_elements().next().unwrap();

    assert_eq!(
        div_element.get_attribute("class"),
        Some("container".to_string())
    );

    assert_eq!(div_element.get_attribute("id"), None);

    assert_eq!(div_element.get_attribute("itemscope"), Some("".to_string()));
}

#[test]
fn test_iter() {
    let div = render(
        r#"
        <div>
            <p></p>
        </div>
        {"Hello there!"}
        <div></div>
    "#,
        &Host::new(),
    );

    let nodes = div.iter().count();

    assert_eq!(nodes, 3);
}

#[test]
fn test_iter_mut() {
    let mut div = render(
        r#"
        <div>
            <p></p>
        </div>
        <div></div>
    "#,
        &Host::new(),
    );

    for node in div.iter_mut() {
        if let hypersynthetic::Node::Element(element) = node {
            element.set_attribute("class".to_string(), "container".to_string());
        }
    }

    assert_eq!(
        div.to_string(),
        r#"<div class="container"><p></p></div><div class="container"></div>"#
    );
}

#[test]
fn test_iter_elements() {
    let div = render(
        r#"
        <div>
            <p></p>
        </div>
        {"Hello there!"}
        <div></div>
    "#,
        &Host::new(),
    );

    let elements = div.iter_elements().count();

    assert_eq!(elements, 2);
}

#[test]
fn test_iter_elements_mut() {
    let mut div = render(
        r#"
        <div>
            <p></p>
        </div>
        <div></div>
    "#,
        &Host::new(),
    );

    let mut elements = div.iter_elements_mut();
    while let Some(element) = elements.next() {
        element.set_attribute("class".to_string(), "container".to_string());
    }

    assert_eq!(
        div.to_string(),
        r#"<div class="container"><p></p></div><div class="container"></div>"#
    );
}

#[test]
fn test_remove_attribute() {
    let mut div = render(
        r#"
        <div class="container">
            <p></p>
        </div>
    "#,
        &Host::new(),
    );

    let mut elements = div.iter_elements_mut();
    let div_element = elements.next().unwrap();
    div_element.remove_attribute("class");

    assert_eq!(div.to_string(), r#"<div><p></p></div>"#);
}

#[test]
fn test_if() {
    let host = Host::new().set("truth", Value::Bool(true));

    let result = render(
        r#"
        <div>
            <p :if={truth}>
                "Yes"
            </p>
        </div>
    "#,
        &host,
    );

    let expected = "<div><p>Yes</p></div>";
    assert_eq!(result.to_string(), expected);

    let result = render(
        r#"
        <div>
            <p :if={!truth}>
                "No"
            </p>
        </div>
    "#,
        &host,
    );

    let expected = "<div></div>";
    assert_eq!(result.to_string(), expected);
}

#[test]
fn test_if_on_a_component() {
    let host = Host::new().set("truth", Value::Bool(true)).component("Dialog", dialog);

    let result = render(
        r#"
        <Dialog :if={truth} text="Yes" />
    "#,
        &host,
    );

    let expected = "<div><p>Yes</p></div>";
    assert_eq!(result.to_string(), expected);
}

#[test]
fn test_if_self_closing_tag() {
    let host = Host::new().set("truth", Value::Bool(true));

    let result = render(
        r#"
        <hr :if={truth} />
        <br :if={!truth} />
    "#,
        &host,
    );

    let expected = "<hr />";
    assert_eq!(result.to_string(), expected);
}

#[test]
fn test_if_on_a_component_with_slot() {
    let host = Host::new().set("truth", Value::Bool(true)).component("Dialog2", dialog2);

    let result = render(
        r#"
        <Dialog2 :if={truth}>
            <p>"Yes"</p>
        </Dialog2>
    "#,
        &host,
    );

    let expected = "<div><p>Yes</p></div>";
    assert_eq!(result.to_string(), expected);

    let result = render(
        r#"
        <Dialog2 :if={!truth}>
            <p>"No"</p>
        </Dialog2>
    "#,
        &host,
    );

    let expected = "";
    assert_eq!(result.to_string(), expected);
}

#[test]
fn test_if_and_for() {
    let host = Host::new().set("truth", Value::Bool(true)).rule("1..=3", |_, _| ints(&[1, 2, 3]));

    let result = render(
        r#"
        <p :if={truth} :for={i in 1..=3}>
            {i}
        </p>
    "#,
        &host,
    );

    let expected = "<p>1</p><p>2</p><p>3</p>";
    assert_eq!(result.to_string(), expected);

    let result = render(
        r#"
        <p :if={!truth} :for={i in 1..=3}>
            {i}
        </p>
    "#,
        &host,
    );

    let expected = "";
    assert_eq!(result.to_string(), expected);
}

#[test]
fn test_if_and_for_on_a_component() {
    let host = Host::new()
        .set("truth", Value::Bool(true))
        .rule("1..=3", |_, _| ints(&[1, 2, 3]))
        .rule("&i.to_string()", |host, scope| Value::Text(host.number("i", scope).to_string()))
        .component("Dialog", dialog);

    let result = render(
        r#"
        <Dialog :if={truth} :for={i in 1..=3} text={&i.to_string()} />
    "#,
        &host,
    );

    let expected = "<div><p>1</p></div><div><p>2</p></div><div><p>3</p></div>";
    assert_eq!(result.to_string(), expected);

    let result = render(
        r#"
        <Dialog :if={!truth} :for={i in 1..=3} text={&i.to_string()} />
    "#,
        &host,
    );

    let expected = "";
    assert_eq!(result.to_string(), expected);
}

#[test]
fn test_for_attribute() {
    let result = render(
        r#"
        <form hx-post="/users">
            <label for="email">"Email"</label>
            <input type="email" id="email" name="email" required />
        </form>
    "#,
        &Host::new(),
    );

    assert_eq!(result.to_string(),
        "<form hx-post=\"/users\"><label for=\"email\">Email</label><input type=\"email\" id=\"email\" name=\"email\" required /></form>");
}

#[test]
fn test_keyword_attr_with_dashes() {
    let result = render(
        r#"
        <div what-if-this="works">"Hello!"</div>
    "#,
        &Host::new(),
    );

    assert_eq!(
        result.to_string(),
        "<div what-if-this=\"works\">Hello!</div>"
    );
}

#[test]
fn test_async_attribute() {
    let result = render(
        r#"
        <div async="on">"Hello!"</div>
    "#,
        &Host::new(),
    );

    assert_eq!(result.to_string(), "<div async=\"on\">Hello!</div>");
}

#[test]
fn test_yield_attribute() {
    let result = render(
        r#"
        <div yield="on">"Hello!"</div>
    "#,
        &Host::new(),
    );

    assert_eq!(result.to_string(), "<div yield=\"on\">Hello!</div>");
}

#[test]
fn test_try_attribute() {
    let result = render(
        r#"
        <div try="once">"Hello!"</div>
    "#,
        &Host::new(),
    );

    assert_eq!(result.to_string(), "<div try=\"once\">Hello!</div>");
}

#[test]
fn test_union_attribute() {
    let result = render(
        r#"
        <div union="on">"Hello!"</div>
    "#,
        &Host::new(),
    );

    assert_eq!(result.to_string(), "<div union=\"on\">Hello!</div>");
}

#[test]
fn test_boolean_literal_attribute() {
    let result = render(
        r#"
        <div true="on" false="off">"Hello!"</div>
    "#,
        &Host::new(),
    );

    assert_eq!(
        result.to_string(),
        "<div true=\"on\" false=\"off\">Hello!</div>"
    );
}

#[test]
fn test_required_textarea() {
    let result = render(
        r#"
        <textarea required></textarea>
    "#,
        &Host::new(),
    );

    assert_eq!(result.to_string(), "<textarea required></textarea>");
}

#[test]
fn test_slots() {
    let host = Host::new().set("data", text("Hello, world!")).component("OrangeDiv", orange_div);
    let result = render(
        r#"
        <OrangeDiv>
            <p>{ data }</p>
        </OrangeDiv>
    "#,
        &host,
    );

    assert_eq!(
        result.to_string(),
        "<div class=\"orange round\"><p>Hello, world!</p></div>"
    );
}

#[test]
fn test_slots_deep() {
    let host = Host::new()
        .rule("0..=1", |_, _| ints(&[0, 1]))
        .rule(r#"format!("hello {}", i)"#, |host, scope| {
            Value::Text(format!("hello {}", host.number("i", scope)))
        })
        .component("OrangeDiv", orange_div);
    let result = render(
        r#"
        <div :for={i in 0..=1}>
            <OrangeDiv>
                <p>{ format!("hello {}", i) }</p>
            </OrangeDiv>
        </div>
    "#,
        &host,
    );

    assert_eq!(
        result.to_string(),
        "<div><div class=\"orange round\"><p>hello 0</p></div></div><div><div class=\"orange round\"><p>hello 1</p></div></div>"
    );
}

#[test]
fn test_slots_with_for() {
    let host = Host::new().rule("0..=1", |_, _| ints(&[0, 1])).component("OrangeDiv", orange_div);
    let result = render(
        r#"
        <OrangeDiv :for={i in 0..=1}>
            <p>{ i }</p>
        </OrangeDiv>
    "#,
        &host,
    );

    assert_eq!(
        result.to_string(),
        "<div class=\"orange round\"><p>0</p></div><div class=\"orange round\"><p>1</p></div>"
    );
}

#[test]
fn test_slots_with_props() {
    let host = Host::new().component("ColorfulDiv", colorful_div);
    let result = render(
        r#"
        <ColorfulDiv color="blue">
            <p>{ "Hello, world!" }</p>
        </ColorfulDiv>
    "#,
        &host,
    );

    assert_eq!(
        result.to_string(),
        "<div class=\"blue round\"><p>Hello, world!</p></div>"
    );
}

#[test]
fn a_false_if_renders_nothing_whatever_the_for() {
    // The collection is never asked for: `missing` has no value.
    let host = Host::new().set("truth", Value::Bool(false));
    let result = render(r#"<p :for={i in missing} :if={truth}><b>{i}</b></p>"#, &host);
    assert_eq!(result.iter().count(), 0);
    assert_eq!(result.to_string(), "");

    let host = Host::new().set("truth", Value::Bool(false)).set("many", ints(&[1, 2, 3, 4, 5]));
    let result = render(r#"<Unknown :if={truth} :for={i in many} a={i} />"#, &host);
    assert_eq!(result.to_string(), "");
}

#[test]
fn an_if_that_fails_fails_the_render() {
    let host = Host::new();
    match html(r#"<p :if={missing}>"x"</p>"#, &host) {
        Err(Error::Render(error)) => {
            assert_eq!(error.kind, RenderErrorKind::Expression);
            assert_eq!(error.subject, "missing");
        }
        other => panic!("no render error: {:?}", other),
    }
}

#[test]
fn a_for_renders_the_single_renders_in_order() {
    let template = r#"<li :for={item in items} id="i{item}">{item}<b>"!"</b></li>"#;
    let all = render(template, &Host::new().set("items", ints(&[7, 8, 9])));

    let mut joined = String::new();
    for item in [7, 8, 9] {
        let single = render(template, &Host::new().set("items", ints(&[item])));
        joined.push_str(&single.to_string());
    }
    assert_eq!(all.to_string(), joined);
    assert_eq!(
        all.to_string(),
        "<li id=\"i7\">7<b>!</b></li><li id=\"i8\">8<b>!</b></li><li id=\"i9\">9<b>!</b></li>"
    );
    assert_eq!(all.iter().count(), 3);
}

#[test]
fn a_for_over_nothing_renders_nothing() {
    let host = Host::new().set("items", ints(&[]));
    let result = render(r#"<ul><li :for={item in items}>{item}</li></ul>"#, &host);
    assert_eq!(result.to_string(), "<ul></ul>");
}

#[test]
fn a_for_that_fails_fails_the_render() {
    match html(r#"<li :for={item in items}>{item}</li>"#, &Host::new()) {
        Err(Error::Render(error)) => {
            assert_eq!(error.kind, RenderErrorKind::Expression);
            assert_eq!(error.subject, "items");
        }
        other => panic!("no render error: {:?}", other),
    }
}

#[test]
fn nested_loops_see_the_outer_variable() {
    let rows = Value::List(vec![ints(&[1, 2]), ints(&[3])]);
    let host = Host::new().set("rows", rows);
    let result = render(
        r#"<tr :for={row in rows}><td :for={cell in row}>{cell}</td></tr>"#,
        &host,
    );
    assert_eq!(result.to_string(), "<tr><td>1</td><td>2</td></tr><tr><td>3</td></tr>");
}

#[test]
fn props_reach_the_component_by_name() {
    let seen = Rc::new(RefCell::new(Vec::new()));
    let log = Rc::clone(&seen);
    let host = Host::new().set("n", Value::Int(5)).component("Probe", move |props, slot| {
        log.borrow_mut().push((
            props.get("a").map(|value| matches!(value, PropValue::Text(text) if text == "x & y")),
            props.get("b").map(|value| matches!(value, PropValue::Value(Value::Int(5)))),
            props.get("c").map(|value| matches!(value, PropValue::Text(text) if text == "n=5")),
            props.get("d").map(|value| matches!(value, PropValue::Bare)),
            props.get("e").is_none(),
            slot.is_none(),
        ));
        HtmlFragment::new(Vec::new())
    });
    let first = render(r#"<Probe a="x & y" b={n} c="n={n}" d />"#, &host);
    let second = render(r#"<Probe d c="n={n}" b={n} a="x & y" />"#, &host);
    assert_eq!(first.to_string(), second.to_string());
    let expected = (Some(true), Some(true), Some(true), Some(true), true, true);
    assert_eq!(*seen.borrow(), vec![expected, expected]);
}

#[test]
fn a_component_is_spliced_in_unwrapped() {
    let host = Host::new().component("Pair", |_props, _slot| {
        HtmlFragment::new(vec![Node::Text("a".to_string()), Node::Text("b".to_string())])
    });
    let result = render(r#"<p><Pair /><Pair /></p>"#, &host);
    assert_eq!(result.to_string(), "<p>abab</p>");
    let p = result.iter_elements().next().unwrap();
    assert_eq!(p.children.iter().count(), 4);
}

#[test]
fn a_component_with_children_gets_them_as_its_slot() {
    let host = Host::new().set("x", text("<")).component("Box", |_props, slot| {
        let slot = slot.expect("a slot");
        assert_eq!(slot.to_string(), "<i>&lt;</i>t");
        slot
    });
    let result = render(r#"<Box><i>{x}</i>"t"</Box>"#, &host);
    assert_eq!(result.to_string(), "<i>&lt;</i>t");
}

#[test]
fn a_prop_that_is_no_identifier_is_refused() {
    let host = Host::new().set("n", text("a")).component("Probe", |_props, _slot| {
        HtmlFragment::new(Vec::new())
    });
    for template in [r#"<Probe data-x="1" />"#, r#"<Probe {n}="1" />"#, r#"<Probe a:b />"#] {
        match html(template, &host) {
            Err(Error::Render(error)) => {
                assert_eq!(error.kind, RenderErrorKind::PropName);
                assert_eq!(error.subject, "Probe");
            }
            other => panic!("no render error for {}: {:?}", template, other),
        }
    }
}

#[test]
fn an_unknown_component_is_the_evaluators_error() {
    match html(r#"<Nobody />"#, &Host::new()) {
        Err(Error::Render(error)) => {
            assert_eq!(error.kind, RenderErrorKind::Component);
            assert_eq!(error.subject, "Nobody");
        }
        other => panic!("no render error: {:?}", other),
    }
}

#[test]
fn the_first_error_in_the_order_written_counts() {
    match html(r#"<p a={one}>{two}</p>{three}"#, &Host::new()) {
        Err(Error::Render(error)) => assert_eq!(error.subject, "one"),
        other => panic!("no render error: {:?}", other),
    }
    match html(r#"<p a="x">{two}</p>{three}"#, &Host::new()) {
        Err(Error::Render(error)) => assert_eq!(error.subject, "two"),
        other => panic!("no render error: {:?}", other),
    }
}

#[test]
fn name_and_value_are_escaped_each_on_its_own() {
    let host = Host::new().set("n", text("a\"<")).set("v", text("b\"&"));
    let result = render(r#"<p {n}={v} />"#, &host);
    assert_eq!(result.to_string(), "<p a&quot;&lt;=\"b&quot;&amp;\" />");
}

#[test]
fn interpolated_text_is_escaped_once_as_a_whole() {
    let host = Host::new().set("a", text("<")).set("b", text("&lt;"));
    let result = render(r#"<p>"{a}&{b}"</p>"#, &host);
    assert_eq!(result.to_string(), "<p>&lt;&amp;&amp;lt;</p>");
    let result = render(r#"<p title="{a}&{b}'" />"#, &host);
    assert_eq!(result.to_string(), "<p title=\"&lt;&amp;&amp;lt;'\" />");
}

#[test]
fn a_parsed_template_renders_again_and_again() {
    let nodes = parse_template(r#"<p>{n}</p>"#).unwrap();
    let one = generate_nodes(&nodes, &Host::new().set("n", Value::Int(1))).unwrap();
    let two = generate_nodes(&nodes, &Host::new().set("n", Value::Int(2))).unwrap();
    assert_eq!(one.to_string(), "<p>1</p>");
    assert_eq!(two.to_string(), "<p>2</p>");
}

#[test]
fn components_as_values_are_called_with_their_props() {
    let greet = |props: PropValues<Value>| {
        let host = Host::new().set("name", prop(&props, "name"));
        render(r#"<b>{name}</b>"#, &host)
    };
    let mut props: PropValues<Value> = component_props_builder(&greet);
    assert!(props.get("name").is_none());
    props.set("name".to_string(), PropValue::Text("you".to_string()));
    assert_eq!(component_view(&greet, props).to_string(), "<b>you</b>");

    let wrap = |children: HtmlFragment, props: PropValues<Value>| {
        let host = Host::new().set("tag", prop(&props, "class")).set("inner", markup(Some(children)));
        render(r#"<div class={tag}>{{inner}}</div>"#, &host)
    };
    let mut props: PropValues<Value> = component_with_slots_props_builder(&wrap);
    props.set("class".to_string(), PropValue::Value(text("box")));
    let children = render(r#"<i />"#, &Host::new());
    assert_eq!(
        component_with_slots_view(&wrap, children, props).to_string(),
        "<div class=\"box\"><i /></div>"
    );
}

#[test]
fn the_examples_of_the_language() {
    let host = Host::new().rule("[1,2,3]", |_, _| ints(&[1, 2, 3]));
    assert_eq!(render(r#"<p>"Text"</p>"#, &host).to_string(), "<p>Text</p>");
    assert_eq!(
        render(r#"<div :for={n in [1,2,3]}><span>{n}</span></div>"#, &host).to_string(),
        "<div><span>1</span></div><div><span>2</span></div><div><span>3</span></div>"
    );
    assert_eq!(render(r#"<p>{ "<script>" }</p>"#, &host).to_string(), "<p>&lt;script&gt;</p>");
    assert_eq!(
        render(r#"<div>{{ "<b>ok</b>" }}</div>"#, &host).to_string(),
        "<div><b>ok</b></div>"
    );
    assert_eq!(render(r#"<input disabled />"#, &host).to_string(), "<input disabled />");
    match html(r#"<div>"..."</span>"#, &host) {
        Err(Error::Parse(hypersynthetic::ParseError::MismatchedClosingTag { expected, found })) => {
            assert_eq!((expected.as_str(), found.as_str()), ("div", "span"));
        }
        other => panic!("no mismatched closing tag: {:?}", other),
    }
}
