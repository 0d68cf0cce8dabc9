use hypersynthetic::attributes::{AttrName, AttrValue, Attribute, InterpolatedSegment};
use hypersynthetic::generator::{generate_nodes, interpolate_attr_value, render_text};
use hypersynthetic::lexer::tokenize;
use hypersynthetic::nodes::{Node, NodeCollection, Tag};
use hypersynthetic::parser::{parse, parse_bare_text, parse_interpolated_string, parse_node};
use hypersynthetic::tokens::{Delimiter, Token, TokenKind};
use hypersynthetic::validate::validate;
use hypersynthetic::utils::{
    extract_ident_from_path, is_pascal_case, is_path_pascal_case, path_to_string,
};
use hypersynthetic::signature::{plan_component, ComponentError, Parameter, Signature};
use hypersynthetic::{html, parse_template, Error, Literals, ParseError, RenderErrorKind};

fn nodes(template: &str) -> Vec<Node> {
    match parse_template(template) {
        Ok(NodeCollection::Nodes(nodes)) => nodes,
        Err(error) => panic!("the template does not parse: {:?}", error),
    }
}

fn only_tag(template: &str) -> Tag {
    let mut nodes = nodes(template);
    assert_eq!(nodes.len(), 1);
    match nodes.remove(0) {
        Node::Element(tag) => tag,
        other => panic!("no element: {:?}", other),
    }
}

fn error(template: &str) -> ParseError {
    match parse_template(template) {
        Ok(nodes) => panic!("the template parses: {:?}", nodes),
        Err(error) => error,
    }
}

fn literal_name(attribute: &Attribute) -> &str {
    match attribute {
        Attribute::RegularAttribute(regular) => match &regular.name {
            AttrName::Literal(name) => name,
            other => panic!("no written name: {:?}", other),
        },
        other => panic!("no regular attribute: {:?}", other),
    }
}

#[test]
fn tokens_have_their_kind_text_and_place() {
    let tokens = tokenize("<a-b x=\"y\\\"z\" 12>\n{ q }").unwrap();
    let texts: Vec<&str> = tokens.iter().map(|token| token.text.as_str()).collect();
    assert_eq!(texts, vec!["<", "a", "-", "b", "x", "=", "\"y\\\"z\"", "12", ">", "{ q }"]);
    assert!(matches!(tokens[0].kind, TokenKind::Punct('<')));
    assert!(matches!(tokens[1].kind, TokenKind::Ident));
    assert!(matches!(tokens[2].kind, TokenKind::Punct('-')));
    assert!(matches!(&tokens[6].kind, TokenKind::Str(value) if value == "y\"z"));
    assert!(matches!(tokens[7].kind, TokenKind::Literal));
    assert_eq!((tokens[4].start, tokens[4].end), (5, 6));
    assert_eq!((tokens[8].first_line, tokens[8].last_line), (1, 1));
    assert_eq!((tokens[9].first_line, tokens[9].last_line), (2, 2));
    assert_eq!((tokens[9].start, tokens[9].end), (18, 23));
    match &tokens[9].kind {
        TokenKind::Group(Delimiter::Brace, inner) => {
            assert_eq!(inner.len(), 1);
            assert_eq!(inner[0].text, "q");
            assert_eq!((inner[0].start, inner[0].end), (1, 2));
        }
        other => panic!("no brace group: {:?}", other),
    }
}

#[test]
fn groups_hold_the_tokens_between_their_brackets() {
    let tokens = tokenize("(a, [b]) {{c}}").unwrap();
    assert_eq!(tokens.len(), 2);
    match &tokens[0].kind {
        TokenKind::Group(Delimiter::Parenthesis, inner) => {
            assert_eq!(inner.len(), 3);
            assert!(matches!(&inner[2].kind, TokenKind::Group(Delimiter::Bracket, deep) if deep.len() == 1));
        }
        other => panic!("no group: {:?}", other),
    }
    match &tokens[1].kind {
        TokenKind::Group(Delimiter::Brace, inner) => {
            assert!(matches!(&inner[0].kind, TokenKind::Group(Delimiter::Brace, deep) if deep[0].text == "c"));
        }
        other => panic!("no group: {:?}", other),
    }
}

#[test]
fn what_is_no_token_sequence_is_a_lexical_error() {
    for source in ["<div>{</div>", "a )", "\"open", "( ]", "<p>it's</p> '"] {
        assert!(matches!(tokenize(source), Err(ParseError::Lexical)), "{}", source);
        assert!(matches!(parse_template(source), Err(ParseError::Lexical)), "{}", source);
    }
    assert_eq!(tokenize("").unwrap().len(), 0);
    assert_eq!(tokenize(" \n // nothing\n ").unwrap().len(), 0);
}

#[test]
fn a_mismatched_closing_tag_names_both_tags() {
    match error(r#"<div>"..."</span>"#) {
        ParseError::MismatchedClosingTag { expected, found } => {
            assert_eq!(expected, "div");
            assert_eq!(found, "span");
        }
        other => panic!("another error: {:?}", other),
    }
    match error(r#"<a::B><i /></a::C>"#) {
        ParseError::MismatchedClosingTag { expected, found } => {
            assert_eq!(expected, "a::B");
            assert_eq!(found, "a::C");
        }
        other => panic!("another error: {:?}", other),
    }
}

#[test]
fn a_tag_that_is_not_closed_is_an_error() {
    for template in ["<div>", "<div><p></p>", "<div>\"text\"", "<div></>", "<div>text"] {
        match error(template) {
            ParseError::UnclosedTag { tag } => assert_eq!(tag, "div"),
            other => panic!("another error for {}: {:?}", template, other),
        }
    }
    assert!(matches!(error("<ui::Box><p>"), ParseError::UnclosedTag { tag } if tag == "p"));
}

#[test]
fn each_malformed_piece_has_its_error() {
    assert!(matches!(error("<!doctype>"), ParseError::InvalidDoctype));
    assert!(matches!(error("<!doctype xml>"), ParseError::InvalidDoctype));
    assert!(matches!(error("<!-- x -->"), ParseError::InvalidDoctype));
    assert!(matches!(error("<p></p> 5"), ParseError::UnexpectedToken));
    assert!(matches!(error("</p>"), ParseError::UnexpectedToken));
    assert!(matches!(error("<p></p x>"), ParseError::UnexpectedToken));
    assert!(matches!(error("<p>{{a} b}</p>"), ParseError::UnexpectedToken));
    assert!(matches!(error("<p =\"x\">"), ParseError::InvalidAttributeName));
    assert!(matches!(error("<p _>"), ParseError::InvalidAttributeName));
    assert!(matches!(error("<p a"), ParseError::InvalidAttributeName));
    assert!(matches!(error("<p a=5>"), ParseError::InvalidAttributeValue));
    assert!(matches!(error("<p a=>"), ParseError::InvalidAttributeValue));
    assert!(matches!(error("<p a=\"{x}{y\">"), ParseError::UnterminatedInterpolation));
    assert!(matches!(error("<p>\"a {b\"</p>"), ParseError::UnterminatedInterpolation));
    assert!(matches!(error("<p>\"a }b\"</p>"), ParseError::UnterminatedInterpolation));
    assert!(matches!(error("<p :for={x}>"), ParseError::MalformedForPattern));
    assert!(matches!(error("<p :for={in xs}>"), ParseError::MalformedForPattern));
    assert!(matches!(error("<p :for={x in}>"), ParseError::MalformedForPattern));
    assert!(matches!(error("<p :for=\"x in xs\">"), ParseError::MalformedForPattern));
    assert!(matches!(error("<p :for>"), ParseError::MalformedForPattern));
    assert!(matches!(error("<p :if>"), ParseError::MalformedIf));
    assert!(matches!(error("<p :if={}>"), ParseError::MalformedIf));
    assert!(matches!(error("<p :if=\"x\">"), ParseError::MalformedIf));
    assert!(matches!(error("<p>{}</p>"), ParseError::EmptyExpression));
    assert!(matches!(error("<p>{{ }}</p>"), ParseError::EmptyExpression));
    assert!(matches!(error("<p a={}>"), ParseError::EmptyExpression));
    assert!(matches!(error("<p {}>"), ParseError::EmptyExpression));
}

#[test]
fn a_doctype_is_read_in_any_case() {
    for template in ["<!doctype html>", "<!DOCTYPE html>", "<!DocType HTML>", "< ! dOCTYPE hTmL >"] {
        let nodes = nodes(template);
        assert_eq!(nodes.len(), 1);
        assert!(matches!(nodes[0], Node::DocType));
    }
}

#[test]
fn an_upper_case_name_is_a_component_call() {
    let parsed = nodes(r#"<card /><Card /><ui::card /><ui::Card a="1">"x"</ui::Card><Élan />"#);
    assert!(matches!(&parsed[0], Node::Element(tag) if tag.tag_name == "card" && tag.self_closing));
    assert!(matches!(&parsed[1], Node::Component(call) if call.name == "Card" && call.children.is_empty()));
    assert!(matches!(&parsed[2], Node::Element(tag) if tag.tag_name == "card"));
    match &parsed[3] {
        Node::Component(call) => {
            assert_eq!(call.name, "ui::Card");
            assert_eq!(call.props.len(), 1);
            assert_eq!(call.children.len(), 1);
            assert_eq!(call.get_regular_attributes().len(), 1);
            assert!(!call.has_for_attribute());
            assert!(!call.has_if_attribute());
        }
        other => panic!("no component call: {:?}", other),
    }
    assert!(matches!(&parsed[4], Node::Component(call) if call.name == "Élan"));
    assert!(is_pascal_case("Card"));
    assert!(is_pascal_case("Élan"));
    assert!(!is_pascal_case("card"));
    assert!(!is_pascal_case("_Card"));
    assert!(!is_pascal_case(""));
}

#[test]
fn paths_are_written_with_double_colons() {
    let path = vec!["a".to_string(), "b".to_string(), "Card".to_string()];
    assert_eq!(path_to_string(&path), "a::b::Card");
    assert_eq!(extract_ident_from_path(&path), "Card");
    assert!(is_path_pascal_case(&path));
    let path = vec!["Ui".to_string(), "card".to_string()];
    assert_eq!(path_to_string(&path), "Ui::card");
    assert!(!is_path_pascal_case(&path));
    assert_eq!(path_to_string(&vec!["p".to_string()]), "p");
    assert_eq!(path_to_string(&Vec::new()), "");
}

#[test]
fn attribute_names_join_words_hyphens_and_colons() {
    let tag = only_tag(
        r#"<p type async-for data - x = "1" hx-on::after="2" : y -z a b @click="3"></p>"#
            .replace("@click=\"3\"", "")
            .as_str(),
    );
    let names: Vec<&str> = tag.attributes.iter().map(literal_name).collect();
    assert_eq!(names, vec!["type", "async-for", "data-x", "hx-on::after", ":y-z", "a", "b"]);
    let values: Vec<bool> = tag
        .attributes
        .iter()
        .map(|attribute| matches!(attribute, Attribute::RegularAttribute(r) if r.value.is_some()))
        .collect();
    assert_eq!(values, vec![false, false, true, true, false, false, false]);
    assert!(!tag.self_closing);
    assert_eq!(tag.get_regular_attributes().len(), 7);
}

#[test]
fn attribute_values_are_literal_expression_or_interpolated() {
    let tag = only_tag(r#"<p a="x" b={ y + 1 } c="x{y}z{ w }" d="{only" e="}{" f="" {g}={{h}} />"#);
    let values: Vec<Option<&AttrValue>> = tag
        .attributes
        .iter()
        .map(|attribute| match attribute {
            Attribute::RegularAttribute(regular) => regular.value.as_ref(),
            other => panic!("no regular attribute: {:?}", other),
        })
        .collect();
    assert!(matches!(values[0], Some(AttrValue::Literal(text)) if text == "x"));
    assert!(matches!(values[1], Some(AttrValue::Expression(source)) if source == "y + 1"));
    match values[2] {
        Some(AttrValue::Interpolated(segments)) => {
            assert_eq!(segments.len(), 4);
            assert!(matches!(&segments[0], InterpolatedSegment::Str(text) if text == "x"));
            assert!(matches!(&segments[1], InterpolatedSegment::Expr(source) if source == "y"));
            assert!(matches!(&segments[2], InterpolatedSegment::Str(text) if text == "z"));
            assert!(matches!(&segments[3], InterpolatedSegment::Expr(source) if source == " w "));
        }
        other => panic!("not interpolated: {:?}", other),
    }
    assert!(matches!(values[3], Some(AttrValue::Literal(text)) if text == "{only"));
    assert!(matches!(values[4], Some(AttrValue::Literal(text)) if text == "}{"));
    assert!(matches!(values[5], Some(AttrValue::Literal(text)) if text.is_empty()));
    assert!(matches!(values[6], Some(AttrValue::Expression(source)) if source == "{h}"));
    match &tag.attributes[6] {
        Attribute::RegularAttribute(regular) => {
            assert!(matches!(&regular.name, AttrName::Expression(source) if source == "g"))
        }
        other => panic!("no regular attribute: {:?}", other),
    }
    assert!(tag.self_closing);
}

#[test]
fn a_string_with_expressions_is_split_from_left_to_right() {
    let segments = parse_interpolated_string("{a}xxx{b}{}tail}").unwrap();
    assert_eq!(segments.len(), 5);
    assert!(matches!(&segments[0], InterpolatedSegment::Expr(source) if source == "a"));
    assert!(matches!(&segments[1], InterpolatedSegment::Str(text) if text == "xxx"));
    assert!(matches!(&segments[2], InterpolatedSegment::Expr(source) if source == "b"));
    assert!(matches!(&segments[3], InterpolatedSegment::Expr(source) if source.is_empty()));
    assert!(matches!(&segments[4], InterpolatedSegment::Str(text) if text == "tail}"));
    assert_eq!(parse_interpolated_string("").unwrap().len(), 0);
    assert_eq!(parse_interpolated_string("plain").unwrap().len(), 1);
    assert!(matches!(
        parse_interpolated_string("a{b}c{d"),
        Err(ParseError::UnterminatedInterpolation)
    ));
    let shown = interpolate_attr_value(&Literals, &parse_interpolated_string("a{\"b\"}c").unwrap(), &Vec::new());
    assert_eq!(shown.unwrap(), "abc");
}

#[test]
fn for_and_if_are_attributes_of_their_own() {
    let tag = only_tag(r#"<li class="x" :if={ a && b } :for={ (i, (j, k)) in pairs.iter() } :if={c}></li>"#);
    assert_eq!(tag.attributes.len(), 4);
    assert!(tag.has_for_attribute());
    assert!(tag.has_if_attribute());
    assert_eq!(tag.get_for_attribute().pat, "(i, (j, k))");
    assert_eq!(tag.get_for_attribute().collection, "pairs.iter()");
    assert_eq!(tag.get_if_attribute(), "a && b");
    assert_eq!(tag.get_regular_attributes().len(), 1);
    let tag = only_tag(r#"<li for="x" if></li>"#);
    assert!(!tag.has_for_attribute());
    assert!(!tag.has_if_attribute());
    let tag = only_tag(r#"<li :for={x in[1,2]}></li>"#);
    assert_eq!(tag.get_for_attribute().pat, "x");
    assert_eq!(tag.get_for_attribute().collection, "[1,2]");
}

#[test]
fn children_are_tags_strings_expressions_and_text() {
    let tag = only_tag(r#"<p>"a {x}"<b />{ y }{{ z }}some text<i></i>more</p>"#);
    assert_eq!(tag.children.len(), 7);
    assert!(matches!(&tag.children[0], Node::Text(literal) if literal == "a {x}"));
    assert!(matches!(&tag.children[1], Node::Element(tag) if tag.tag_name == "b"));
    assert!(matches!(&tag.children[2], Node::Expression(source) if source == "y"));
    assert!(matches!(&tag.children[3], Node::UnescapedExpression(source) if source == "z"));
    assert!(matches!(&tag.children[4], Node::BareText(text) if text == "some text"));
    assert!(matches!(&tag.children[5], Node::Element(tag) if tag.tag_name == "i"));
    assert!(matches!(&tag.children[6], Node::BareText(text) if text == "more"));
}

#[test]
fn text_gets_spaces_within_a_line_and_none_between_lines() {
    let tag = only_tag("<p>one two,three  .  four\nfive\n\n six (a , b) \"s\" 1.5 </other> end</p>");
    assert_eq!(tag.children.len(), 3);
    assert!(
        matches!(&tag.children[0], Node::BareText(text) if text == "one two, three. fourfivesix (a , b)"),
        "{:?}",
        tag.children[0]
    );
    assert!(matches!(&tag.children[1], Node::Text(literal) if literal == "s"));
    assert!(
        matches!(&tag.children[2], Node::BareText(text) if text == "1.5 < / other > end"),
        "{:?}",
        tag.children[2]
    );
    let rendered = generate_nodes(&NodeCollection::Nodes(vec![Node::Element(tag)]), &Literals);
    assert_eq!(
        rendered.unwrap().to_html(),
        "<p>one two, three. fourfivesix (a , b)s1.5 &lt; / other &gt; end</p>"
    );
}

#[test]
fn text_goes_on_where_no_child_starts() {
    let tag = only_tag("<p>1 < 2 <! 3 > 4<b />5</p>");
    assert_eq!(tag.children.len(), 3);
    assert!(matches!(&tag.children[0], Node::BareText(text) if text == "1 < 2 <! 3 > 4"));
    assert!(matches!(&tag.children[1], Node::Element(tag) if tag.tag_name == "b"));
    assert!(matches!(&tag.children[2], Node::BareText(text) if text == "5"));
}

#[test]
fn the_rules_of_the_grammar_can_be_called_on_tokens() {
    let tokens: Vec<Token> = tokenize("<p>a b</p><q />").unwrap();
    let (text, next) = parse_bare_text(&tokens, 3, &vec!["p".to_string()]);
    assert_eq!((text.as_str(), next), ("a b", 5));
    let (text, next) = parse_bare_text(&tokens, 3, &vec!["q".to_string()]);
    assert_eq!((text.as_str(), next), ("a b < / p >", 9));
    let (node, next) = parse_node(&tokens, 0).unwrap();
    assert!(matches!(node, Node::Element(tag) if tag.tag_name == "p"));
    assert_eq!(next, 9);
    assert!(matches!(parse_node(&tokens, 1), Err(ParseError::UnexpectedToken)));
    assert!(matches!(parse_node(&tokens, 13), Err(ParseError::UnexpectedToken)));
    match parse(&tokens) {
        Ok(NodeCollection::Nodes(nodes)) => assert_eq!(nodes.len(), 2),
        other => panic!("no nodes: {:?}", other),
    }
}

#[test]
fn a_text_literal_stands_for_its_text() {
    let scope = Vec::new();
    assert_eq!(render_text(&Literals, "a {{b}} {\"<c>\"}}}", &scope).unwrap(), "a {b} <c>}");
    assert_eq!(render_text(&Literals, "", &scope).unwrap(), "");
    for literal in ["{", "a}b", "{\"a\"}{", "}}}"] {
        let error = render_text(&Literals, literal, &scope).unwrap_err();
        assert_eq!(error.kind, RenderErrorKind::Interpolation);
        assert_eq!(error.subject, literal);
    }
    let error = render_text(&Literals, "{x}", &scope).unwrap_err();
    assert_eq!(error.kind, RenderErrorKind::Expression);
    assert_eq!(error.subject, "x");

    let built = NodeCollection::Nodes(vec![Node::Text("a { b".to_string())]);
    let error = generate_nodes(&built, &Literals).unwrap_err();
    assert_eq!(error.kind, RenderErrorKind::Interpolation);
    assert_eq!(error.subject, "a { b");
}

#[test]
fn host_code_must_be_of_the_host_language() {
    let cases = [
        ("<p>{1 +}</p>", "1 +"),
        ("<p>{{ a b }}</p>", "a b"),
        ("<p a={x.}></p>", "x."),
        ("<p {let}></p>", "let"),
        ("<p a=\"x{1 +}y\"></p>", "1 +"),
        ("<p>\"so {a b} it is\"</p>", "a b"),
        ("<p :if={a &&}></p>", "a &&"),
        ("<p :for={x in 1 +}></p>", "1 +"),
        ("<Card a={f(,)}></Card>", "f(,)"),
        ("<i>{ok}</i><p><b>{x y}</b></p>", "x y"),
    ];
    for (template, expected) in cases {
        match error(template) {
            ParseError::InvalidExpression { source } => assert_eq!(source, expected),
            other => panic!("another error for {}: {:?}", template, other),
        }
    }
    assert!(matches!(error("<p :for={1 + 2 in xs}></p>"), ParseError::MalformedForPattern));
    assert!(matches!(error("<p :for={a | b in xs}></p>"), ParseError::MalformedForPattern));
    assert!(matches!(error("<p :for={x y in xs}></p>"), ParseError::MalformedForPattern));

    let accepted = nodes(
        r#"<p :for={Point { x, y: (a, _) } in points.iter().rev()} :if={x > 1 || y.is_some()}>
            {match x { 0 => "zero", _ => "more" }}{{ format!("{}", y) }}"{x} and {{y}}"
        </p>"#,
    );
    assert_eq!(accepted.len(), 1);

    let built = NodeCollection::Nodes(vec![Node::Expression("][".to_string())]);
    assert!(matches!(validate(&built), Err(ParseError::InvalidExpression { source }) if source == "]["));
    let built = NodeCollection::Nodes(vec![Node::Text("{{ }} {".to_string())]);
    assert!(validate(&built).is_ok());
}

#[test]
fn errors_say_what_was_expected() {
    assert_eq!(error(r#"<div>"..."</span>"#).to_string(), "Expected closing tag div, found span");
    assert_eq!(error("<div>").to_string(), "Expected closing tag div");
    assert_eq!(error("<div>{</div>").to_string(), "Cannot cut the template into tokens");
    assert_eq!(error("<!doctype>").to_string(), "Expected <!doctype html>");
    assert_eq!(error("5").to_string(), "Expected a node");
    assert_eq!(error("<p =>").to_string(), "Expected a valid attribute name");
    assert_eq!(
        error("<p a=5>").to_string(),
        "Expected a string or a brace group as attribute value"
    );
    assert_eq!(error("<p a=\"{x}{\">").to_string(), "Unmatched brace in interpolated string");
    assert_eq!(
        error("<p :for={x}>").to_string(),
        "Expected a pattern, `in` and a collection in braces after :for"
    );
    assert_eq!(error("<p :if>").to_string(), "Expected a condition in braces after :if");
    assert_eq!(error("<p>{}</p>").to_string(), "Expected an expression in braces");
    assert_eq!(error("<p>{a b}</p>").to_string(), "Expected an expression, found a b");

    let message = |template: &str| match html(template, &Literals) {
        Err(error) => error.to_string(),
        Ok(fragment) => panic!("the template renders: {:?}", fragment),
    };
    assert_eq!(message("<p>{x}</p>"), "Cannot evaluate x");
    assert_eq!(message("<a::B />"), "Cannot call the component a::B");
    assert_eq!(message("<B a-b />"), "Expected identifiers as names of the props of B");
    assert_eq!(message("<div>"), "Expected closing tag div");
    let built = NodeCollection::Nodes(vec![Node::Text("}".to_string())]);
    assert_eq!(
        generate_nodes(&built, &Literals).unwrap_err().to_string(),
        "Unmatched brace in the text }"
    );
    assert!(matches!(html("<p>{x}</p>", &Literals), Err(Error::Render(_))));
    assert!(matches!(html("<p>{x y}</p>", &Literals), Err(Error::Parse(_))));
}

#[test]
fn a_written_name_without_hyphen_or_colon_is_an_identifier() {
    let tag = only_tag(r#"<p class data-x a:b {c} type="t" />"#);
    let keys: Vec<Option<&str>> = tag
        .attributes
        .iter()
        .map(|attribute| match attribute {
            Attribute::RegularAttribute(regular) => {
                regular.name.identifier().map(|name| name.as_str())
            }
            other => panic!("no regular attribute: {:?}", other),
        })
        .collect();
    assert_eq!(keys, vec![Some("class"), None, None, None, Some("type")]);
    assert!(AttrName::Literal(String::new()).identifier().is_none());
}

fn parameter(name: Option<&str>, last_segment: Option<&str>, holds_reference: bool) -> Parameter {
    Parameter {
        name: name.map(|name| name.to_string()),
        typed: true,
        last_segment: last_segment.map(|name| name.to_string()),
        holds_reference,
    }
}

#[test]
fn a_component_is_planned_from_its_signature() {
    let signature = Signature {
        name: "TodoItem".to_string(),
        lifetimes: 0,
        parameters: vec![
            parameter(Some("text"), None, true),
            parameter(Some("done"), Some("bool"), false),
        ],
    };
    let plan = plan_component(&signature).unwrap();
    assert_eq!(plan.props_name, "TodoItemProps");
    assert_eq!(plan.builder_name, "TodoItemPropsBuilder");
    assert_eq!(plan.internal_name, "__TodoItem");
    assert_eq!(plan.with_props_name, None);
    assert_eq!(plan.slot, None);
    assert_eq!(plan.props, vec![0, 1]);
    assert!(plan.add_lifetime);

    let signature = Signature {
        name: "OrangeDiv".to_string(),
        lifetimes: 1,
        parameters: vec![parameter(Some("inner_block"), Some("HtmlFragment"), true)],
    };
    let plan = plan_component(&signature).unwrap();
    assert_eq!(plan.with_props_name, Some("__OrangeDiv_with_props".to_string()));
    assert_eq!(plan.slot, Some("inner_block".to_string()));
    assert_eq!(plan.props, Vec::<usize>::new());
    assert!(!plan.add_lifetime);

    let signature = Signature {
        name: "ColorfulDiv".to_string(),
        lifetimes: 0,
        parameters: vec![
            parameter(Some("inner_block"), Some("HtmlFragment"), false),
            Parameter { name: None, typed: false, last_segment: None, holds_reference: true },
            parameter(None, Some("HtmlFragment"), false),
            parameter(Some("color"), Some("String"), false),
        ],
    };
    let plan = plan_component(&signature).unwrap();
    assert_eq!(plan.with_props_name, None);
    assert_eq!(plan.slot, Some("inner_block".to_string()));
    assert_eq!(plan.props, vec![2, 3]);
    assert!(!plan.add_lifetime);

    let signature =
        Signature { name: "Card".to_string(), lifetimes: 0, parameters: Vec::new() };
    let plan = plan_component(&signature).unwrap();
    assert_eq!(plan.with_props_name, Some("__Card_with_props".to_string()));
    assert_eq!(plan.slot, None);
    assert!(!plan.add_lifetime);
}

#[test]
fn what_cannot_be_a_component_is_refused() {
    let signature =
        Signature { name: "card".to_string(), lifetimes: 0, parameters: Vec::new() };
    assert_eq!(plan_component(&signature).unwrap_err(), ComponentError::NotPascalCase);
    let signature = Signature {
        name: "Card".to_string(),
        lifetimes: 0,
        parameters: vec![parameter(None, Some("HtmlFragment"), false)],
    };
    assert_eq!(plan_component(&signature).unwrap_err(), ComponentError::SlotPattern);
    let signature = Signature {
        name: "card".to_string(),
        lifetimes: 0,
        parameters: vec![parameter(None, Some("HtmlFragment"), false)],
    };
    assert_eq!(plan_component(&signature).unwrap_err(), ComponentError::NotPascalCase);
}

#[test]
fn places_count_characters_and_lines_end_with_line_feeds() {
    let tokens = tokenize("é ü\r\n // über\n  \"ä{ö}\" /* ß */ x").unwrap();
    let texts: Vec<&str> = tokens.iter().map(|token| token.text.as_str()).collect();
    assert_eq!(texts, vec!["é", "ü", "\"ä{ö}\"", "x"]);
    assert_eq!((tokens[1].start, tokens[1].end, tokens[1].first_line), (2, 3, 1));
    assert_eq!((tokens[2].start, tokens[2].end, tokens[2].first_line), (16, 22, 3));
    assert_eq!((tokens[3].start, tokens[3].end, tokens[3].last_line), (31, 32, 3));
    assert!(matches!(&tokens[2].kind, TokenKind::Str(value) if value == "ä{ö}"));

    let tag = only_tag("<p id = \"ä{ö}\">Grüße,\r\nWelt { é + 1 } <b>\"€\"</b></p>");
    assert_eq!(literal_name(&tag.attributes[0]), "id");
    assert_eq!(tag.children.len(), 3);
    assert!(matches!(&tag.children[0], Node::BareText(text) if text == "Grüße,Welt"));
    assert!(matches!(&tag.children[1], Node::Expression(source) if source == "é + 1"));
    let rendered = hypersynthetic::html("<p>\"ä & ö\"</p><br/>", &Literals).unwrap();
    assert_eq!(rendered.to_html(), "<p>ä &amp; ö</p><br />");
}
