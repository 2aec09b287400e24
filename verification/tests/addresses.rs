use chrome_debug_mcp::address::{is_local_address, is_local_host};
use chrome_debug_mcp::text::trim;
use chrome_debug_mcp::debugger::extract_from_value;
use chrome_debug_mcp::json::parse_json;
use chrome_debug_mcp::position::find_line_column;

#[test]
fn test_is_local_address() {
    assert!(is_local_address("http://localhost"));
    assert!(is_local_address("https://localhost:8080"));
    assert!(is_local_address("http://127.0.0.1"));
    assert!(is_local_address("http://127.0.0.1:3000/path"));
    assert!(is_local_address("http://[::1]"));
    assert!(is_local_address("http://[::1]:5173"));
    assert!(is_local_address("http://192.168.1.1"));
    assert!(is_local_address("https://192.168.0.100/admin"));
    assert!(is_local_address("http://mydevice.local"));
    assert!(is_local_address("http://service.local:8000"));

    assert!(!is_local_address("http://google.com"));
    assert!(!is_local_address("https://github.com/raultov"));
    assert!(!is_local_address("http://8.8.8.8"));
    assert!(!is_local_address("http://10.0.0.1"));
    assert!(!is_local_address("not a url"));
    assert!(!is_local_address("http://local.com"));
    assert!(!is_local_address("http://192.167.1.1"));
}

#[test]
fn test_extract_from_value() {
    let val = Some(parse_json(r#"{"testKey": "testValue", "numKey": 42}"#).unwrap());
    assert_eq!(extract_from_value(&val, "testKey"), Some("testValue"));
    assert_eq!(extract_from_value(&val, "numKey"), None);
    assert_eq!(extract_from_value(&val, "missing"), None);
    assert_eq!(extract_from_value(&None, "testKey"), None);
}

#[test]
fn test_find_line_column() {
    let source = "function test() {\n  let a = 1;\n  console.log(a);\n}";

    let (line, col) = find_line_column(source, "let a").unwrap();
    assert_eq!(line, 1);
    assert_eq!(col, 2);

    let (line, col) = find_line_column(source, "console.log").unwrap();
    assert_eq!(line, 2);
    assert_eq!(col, 2);

    let (line, col) = find_line_column(source, "function test").unwrap();
    assert_eq!(line, 0);
    assert_eq!(col, 0);

    assert_eq!(find_line_column(source, "not_found"), None);
}

#[test]
fn find_line_column_counts_line_feeds_and_bytes() {
    assert_eq!(find_line_column("a\nb", "b"), Some((1, 0)));
    assert_eq!(find_line_column("ab\r\ncd", "cd"), Some((1, 0)));
    assert_eq!(find_line_column("ab\r\n x", "x"), Some((1, 1)));
    assert_eq!(find_line_column("é x", "x"), Some((0, 3)));
    assert_eq!(find_line_column("a\n\nb", "b"), Some((2, 0)));
    assert_eq!(find_line_column("abc", ""), Some((0, 0)));
}

#[test]
fn local_hosts_are_named_or_private() {
    assert!(is_local_host("localhost"));
    assert!(is_local_host("[::1]"));
    assert!(is_local_host("printer.local"));
    assert!(is_local_host("192.168.0.7"));
    assert!(!is_local_host("example.com"));
    assert!(!is_local_host("10.0.0.1"));
}

#[test]
fn trim_strips_unicode_white_space_at_both_ends() {
    assert_eq!(trim("  a b \t\n"), "a b");
    assert_eq!(trim("\u{a0}\u{3000}x\u{2028}"), "x");
    assert_eq!(trim(" \t "), "");
    assert_eq!(trim(""), "");
    assert_eq!(trim("é"), "é");
}
