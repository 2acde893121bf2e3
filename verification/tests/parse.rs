use fetch_mediator::json::parse_origin;

#[test]
fn parses_compact_body() {
    assert_eq!(
        parse_origin("{\"origin\":\"1.2.3.4\"}").as_deref(),
        Some("1.2.3.4")
    );
}

#[test]
fn parses_body_with_whitespace() {
    assert_eq!(
        parse_origin("{\n  \"origin\": \"203.0.113.9\"\n}\n").as_deref(),
        Some("203.0.113.9")
    );
    assert_eq!(
        parse_origin("  \t{ \"origin\" \t: \r\n\"a\" }  ").as_deref(),
        Some("a")
    );
}

#[test]
fn parses_empty_origin() {
    assert_eq!(parse_origin("{\"origin\":\"\"}").as_deref(), Some(""));
}

#[test]
fn rejects_malformed_bodies() {
    assert_eq!(parse_origin(""), None);
    assert_eq!(parse_origin("   "), None);
    assert_eq!(parse_origin("\"origin\":\"1.2.3.4\""), None);
    assert_eq!(parse_origin("{\"origin\":\"1.2.3.4\""), None);
    assert_eq!(parse_origin("{\"origin\":\"1.2.3.4}"), None);
    assert_eq!(parse_origin("{\"host\":\"1.2.3.4\"}"), None);
    assert_eq!(parse_origin("{\"origin\" \"1.2.3.4\"}"), None);
    assert_eq!(parse_origin("{\"origin\":1234}"), None);
    assert_eq!(parse_origin("{\"origin\":\"1.2.3.4\"} extra"), None);
    assert_eq!(parse_origin("{\"origin\":\"1.2.3.4\"}}"), None);
}

#[test]
fn rejects_escapes_in_value() {
    assert_eq!(parse_origin("{\"origin\":\"a\\nb\"}"), None);
    assert_eq!(parse_origin("{\"origin\":\"a\\\"b\"}"), None);
}
