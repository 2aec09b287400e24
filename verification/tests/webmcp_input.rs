use chrome_debug_mcp::json::{parse_json, render};
use chrome_debug_mcp::webmcp_tools::{default_empty_json_object, parse_input_object};

#[test]
fn test_parse_input_object_empty_and_object() {
    assert_eq!(render(&parse_input_object("{}").unwrap()), "{}");
    assert_eq!(render(&parse_input_object("").unwrap()), "{}");
    let expected = parse_json(r#"{"a": 1}"#).unwrap();
    assert_eq!(render(&parse_input_object("{\"a\":1}").unwrap()), render(&expected));
}

#[test]
fn test_parse_input_object_rejects_non_object() {
    assert!(parse_input_object("[]").is_err());
    assert!(parse_input_object("\"x\"").is_err());
    assert!(parse_input_object("not-json").is_err());
}

#[test]
fn input_errors_explain_themselves() {
    assert_eq!(parse_input_object("[1]").err().unwrap(), "WebMCP tool input must be a JSON object, got [1]");
    let e = parse_input_object("{").err().unwrap();
    assert!(e.starts_with("Invalid JSON in input: "), "{e}");
    assert!(e.ends_with(". Pass a JSON object string, e.g. \"{}\" or \"{\\\"key\\\":\\\"value\\\"}\"."), "{e}");
    assert_eq!(render(&parse_input_object("   ").unwrap()), "{}");
}

#[test]
fn the_default_input_is_an_empty_object() {
    assert_eq!(default_empty_json_object(), "{}");
}
