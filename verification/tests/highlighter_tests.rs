use airgap_json_formatter::highlighter::highlight_json;

#[test]
fn test_highlight_empty_input() {
    let result = highlight_json("");
    assert!(result.is_empty());
}

#[test]
fn test_highlight_basic_json() {
    let input = r#"{"key": "value", "num": 42}"#;
    let result = highlight_json(input);
    assert!(result.contains("<span"));
    assert!(result.contains("key"));
    assert!(result.contains("value"));
    assert!(result.contains("42"));
}

#[test]
fn test_highlight_all_json_types() {
    let input = r#"{
  "string": "hello",
  "number": 123,
  "float": 3.14,
  "boolean_true": true,
  "boolean_false": false,
  "null_value": null,
  "array": [1, 2, 3],
  "object": {"nested": "value"}
}"#;
    let result = highlight_json(input);
    assert!(result.contains("<span"));
    assert!(result.contains("string"));
    assert!(result.contains("hello"));
    assert!(result.contains("123"));
    assert!(result.contains("true"));
    assert!(result.contains("false"));
    assert!(result.contains("null"));
}

#[test]
fn test_highlight_key_vs_value_colors() {
    let input = r#"{"myKey": "myValue"}"#;
    let result = highlight_json(input);
    assert!(result.contains(&format!("color:{}", "#9cdcfe")));
    assert!(result.contains(&format!("color:{}", "#ce9178")));
}

#[test]
fn test_highlight_escapes_html() {
    let input = r#"{"test": "<script>alert('xss')</script>"}"#;
    let result = highlight_json(input);
    assert!(result.contains("&lt;script&gt;"));
    assert!(!result.contains("<script>"));
}
