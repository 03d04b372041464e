use dynamic_mcp::template::{
    check_template, strip_quotes, Template, TAGS_UNSUPPORTED, TRAILING_BACKSLASH,
};
use serde_json::Value;

fn json(text: &str) -> Value {
    serde_json::from_str(text).unwrap()
}

#[test]
fn string_field_renders_without_quotes() {
    let mut set = Template::new();
    set.add_template("t", "{input.field}").unwrap();
    let out = set.render("t", &json(r#"{"input": {"field": "x"}}"#)).unwrap();
    assert_eq!(out, "x");
}

#[test]
fn number_and_object_render_as_json_text() {
    let mut set = Template::new();
    set.add_template("n", "n={input.n}").unwrap();
    set.add_template("o", "o={input.o}").unwrap();
    let context = json(r#"{"input": {"n": 42, "o": {"a": [1, true, null]}}}"#);
    assert_eq!(set.render("n", &context).unwrap(), "n=42");
    assert_eq!(set.render("o", &context).unwrap(), r#"o={"a":[1,true,null]}"#);
}

#[test]
fn url_with_a_number_in_its_path() {
    let mut set = Template::new();
    set.add_template("url", "https://api.example.com/items/{input.id}").unwrap();
    let out = set.render("url", &json(r#"{"input": {"id": 42}}"#)).unwrap();
    assert_eq!(out, "https://api.example.com/items/42");
}

#[test]
fn only_one_pair_of_quotes_is_stripped() {
    assert_eq!(strip_quotes("\"x\""), "x");
    assert_eq!(strip_quotes("\"\""), "");
    assert_eq!(strip_quotes("\""), "\"");
    assert_eq!(strip_quotes("42"), "42");
    assert_eq!(strip_quotes("\"a\\\"\""), "a\\\"");
    assert_eq!(strip_quotes("\"é\""), "é");
    let mut set = Template::new();
    set.add_template("t", "{input.s}").unwrap();
    let out = set.render("t", &json(r#"{"input": {"s": "say \"hi\""}}"#)).unwrap();
    assert_eq!(out, r#"say \"hi\""#);
}

#[test]
fn url_encode_formatter_encodes_the_json_text() {
    let mut set = Template::new();
    set.add_template("q", "?q={input.q | url_encode}&n={input.n | url_encode}").unwrap();
    let out = set.render("q", &json(r#"{"input": {"q": "a b/ç", "n": 7}}"#)).unwrap();
    assert_eq!(out, "?q=%22a%20b%2F%C3%A7%22&n=7");
}

#[test]
fn formatters_append_to_what_is_there() {
    let mut out = String::from("<");
    Template::default_formatter(&json(r#""v""#), &mut out).unwrap();
    assert_eq!(out, "<v");
    Template::default_formatter(&json("[1,2]"), &mut out).unwrap();
    assert_eq!(out, "<v[1,2]");
    let mut encoded = String::from("=");
    Template::url_encode_formatter(&json(r#""a-b_c.d~e f""#), &mut encoded).unwrap();
    assert_eq!(encoded, "=%22a-b_c.d~e%20f%22");
}

#[test]
fn missing_field_is_a_render_error() {
    let mut set = Template::new();
    set.add_template("t", "{input.absent}").unwrap();
    let err = set.render("t", &json(r#"{"input": {"present": 1}}"#)).unwrap_err();
    assert!(err.message.contains("absent"), "{}", err.message);
}

#[test]
fn unknown_name_is_a_render_error() {
    let set = Template::new();
    let err = set.render("nope", &json("{}")).unwrap_err();
    assert_eq!(err.message, "Unknown template 'nope'");
}

#[test]
fn text_that_does_not_compile_is_turned_down() {
    let mut set = Template::new();
    let err = set.add_template("t", "{input.x").unwrap_err();
    assert!(err.message.contains("closing"), "{}", err.message);
    assert!(!set.contains("t"));
    assert!(check_template("{ input.x }").is_ok());
}

#[test]
fn block_tags_and_comments_are_turned_down() {
    let mut set = Template::new();
    assert_eq!(set.add_template("t", "{{ if not }}").unwrap_err().message, TAGS_UNSUPPORTED);
    assert_eq!(set.add_template("t", "a{#}").unwrap_err().message, TAGS_UNSUPPORTED);
    assert!(!set.contains("t"));
}

#[test]
fn a_later_template_replaces_an_earlier_one_of_the_same_name() {
    let mut set = Template::new();
    set.add_template("t", "first").unwrap();
    set.add_template("u", "other").unwrap();
    set.add_template("t", "second").unwrap();
    assert_eq!(set.render("t", &json("{}")).unwrap(), "second");
    assert_eq!(set.render("u", &json("{}")).unwrap(), "other");
}

#[test]
fn escaped_braces_render_as_braces() {
    let mut set = Template::new();
    set.add_template("body", "\\{\"a\": 1}").unwrap();
    assert_eq!(set.render("body", &json("{}")).unwrap(), "{\"a\": 1}");
}

#[test]
fn a_clone_renders_as_the_set_it_was_made_from() {
    let mut set = Template::new();
    set.add_template("t", "v={input.v}").unwrap();
    let copy = set.clone();
    set.add_template("t", "changed").unwrap();
    let context = json(r#"{"input": {"v": 1}}"#);
    assert_eq!(copy.render("t", &context).unwrap(), "v=1");
    assert_eq!(set.render("t", &context).unwrap(), "changed");
}

#[test]
fn renders_are_independent_of_each_other() {
    let mut set = Template::new();
    set.add_template("t", "{input.v}").unwrap();
    assert_eq!(set.render("t", &json(r#"{"input": {"v": "a"}}"#)).unwrap(), "a");
    assert!(set.render("t", &json(r#"{"input": {}}"#)).is_err());
    assert_eq!(set.render("t", &json(r#"{"input": {"v": "b"}}"#)).unwrap(), "b");
}

#[test]
fn a_backslash_at_the_end_is_turned_down() {
    let mut set = Template::new();
    assert_eq!(set.add_template("t", "C:\\dir\\").unwrap_err().message, TRAILING_BACKSLASH);
    assert_eq!(set.add_template("t", "\\").unwrap_err().message, TRAILING_BACKSLASH);
    assert!(!set.contains("t"));
    set.add_template("t", "C:\\dir\\file").unwrap();
    assert_eq!(set.render("t", &json("{}")).unwrap(), "C:\\dir\\file");
}

#[test]
fn a_backslash_before_a_placeholder_makes_it_literal() {
    let mut set = Template::new();
    set.add_template("t", "a\\{input.x}").unwrap();
    assert_eq!(set.render("t", &json(r#"{"input": {"x": 1}}"#)).unwrap(), "a{input.x}");
}
