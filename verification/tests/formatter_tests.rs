use airgap_json_formatter::formatter::{format_json, minify_json};
use airgap_json_formatter::greet;
use airgap_json_formatter::types::IndentStyle;

#[test]
fn test_greet() {
    assert_eq!(greet(), "Airgap JSON Formatter loaded successfully!");
}

#[test]
fn test_format_simple_object() {
    let input = r#"{"name":"test","value":42}"#;
    let result = format_json(input, IndentStyle::Spaces(2)).unwrap();
    assert!(result.contains("\"name\": \"test\""));
    assert!(result.contains("\"value\": 42"));
}

#[test]
fn test_format_empty_object() {
    let input = "{}";
    let result = format_json(input, IndentStyle::Spaces(2)).unwrap();
    assert_eq!(result, "{}");
}

#[test]
fn test_format_empty_array() {
    let input = "[]";
    let result = format_json(input, IndentStyle::Spaces(2)).unwrap();
    assert_eq!(result, "[]");
}

#[test]
fn test_format_nested() {
    let input = r#"{"outer":{"inner":"value"}}"#;
    let result = format_json(input, IndentStyle::Spaces(2)).unwrap();
    assert!(result.contains("{\n"));
    assert!(result.contains("  \"outer\""));
}

#[test]
fn test_format_invalid_json() {
    let input = "{invalid}";
    let result = format_json(input, IndentStyle::Spaces(2));
    assert!(result.is_err());
    let err = result.unwrap_err();
    assert!(err.line > 0);
    assert!(err.column > 0);
}

#[test]
fn test_format_with_tabs() {
    let input = r#"{"key":"value"}"#;
    let result = format_json(input, IndentStyle::Tabs).unwrap();
    assert!(result.contains("\t\"key\""));
}

#[test]
fn test_minify_json() {
    let input = r#"{
            "name": "test",
            "value": 42
        }"#;
    let result = minify_json(input).unwrap();
    assert!(!result.contains('\n'));
    assert!(!result.contains("  "));
}

#[test]
fn formatter_test_minify_invalid_json() {
    let input = "{invalid}";
    let result = minify_json(input);
    assert!(result.is_err());
}

#[test]
fn test_simple_object_2_spaces() {
    let input = r#"{"name":"John","age":30}"#;
    let result = format_json(input, IndentStyle::Spaces(2)).unwrap();
    let expected = r#"{
  "age": 30,
  "name": "John"
}"#;
    assert_eq!(result, expected);
}

#[test]
fn test_simple_object_4_spaces() {
    let input = r#"{"key":"value"}"#;
    let result = format_json(input, IndentStyle::Spaces(4)).unwrap();
    assert!(result.contains("    \"key\""));
}

#[test]
fn test_simple_object_tabs() {
    let input = r#"{"key":"value"}"#;
    let result = format_json(input, IndentStyle::Tabs).unwrap();
    assert!(result.contains("\t\"key\""));
}

#[test]
fn test_nested_objects() {
    let input = r#"{"level1":{"level2":{"level3":"deep"}}}"#;
    let result = format_json(input, IndentStyle::Spaces(2)).unwrap();
    assert!(result.contains("\"level1\":"));
    assert!(result.contains("\"level2\":"));
    assert!(result.contains("\"level3\": \"deep\""));
}

#[test]
fn test_nested_arrays() {
    let input = r#"[[1,2],[3,4]]"#;
    let result = format_json(input, IndentStyle::Spaces(2)).unwrap();
    assert!(result.contains("[\n"));
    assert!(result.contains("1,"));
}

#[test]
fn test_mixed_nested() {
    let input = r#"{"arr":[1,2,{"nested":true}]}"#;
    let result = format_json(input, IndentStyle::Spaces(2)).unwrap();
    assert!(result.contains("\"arr\": ["));
    assert!(result.contains("\"nested\": true"));
}

#[test]
fn test_empty_object() {
    let input = "{}";
    let result = format_json(input, IndentStyle::Spaces(2)).unwrap();
    assert_eq!(result, "{}");
}

#[test]
fn test_empty_array() {
    let input = "[]";
    let result = format_json(input, IndentStyle::Spaces(2)).unwrap();
    assert_eq!(result, "[]");
}

#[test]
fn test_unicode_characters() {
    let input = r#"{"emoji":"Hello, World!","chinese":"你好"}"#;
    let result = format_json(input, IndentStyle::Spaces(2)).unwrap();
    assert!(result.contains("Hello, World!"));
    assert!(result.contains("你好"));
}

#[test]
fn test_special_characters_in_strings() {
    let input = r#"{"text":"line1\nline2\ttab"}"#;
    let result = format_json(input, IndentStyle::Spaces(2)).unwrap();
    assert!(result.contains("\\n"));
    assert!(result.contains("\\t"));
}

#[test]
fn test_escaped_quotes() {
    let input = r#"{"quote":"He said \"hello\""}"#;
    let result = format_json(input, IndentStyle::Spaces(2)).unwrap();
    assert!(result.contains("\\\"hello\\\""));
}

#[test]
fn test_all_value_types() {
    let input = r#"{"string":"text","number":42,"float":3.14,"bool":true,"null":null,"array":[1,2],"object":{}}"#;
    let result = format_json(input, IndentStyle::Spaces(2)).unwrap();
    assert!(result.contains("\"text\""));
    assert!(result.contains("42"));
    assert!(result.contains("3.14"));
    assert!(result.contains("true"));
    assert!(result.contains("null"));
}

#[test]
fn test_invalid_json_error_position() {
    let input = "{\n  \"key\": invalid\n}";
    let result = format_json(input, IndentStyle::Spaces(2));
    assert!(result.is_err());
    let err = result.unwrap_err();
    assert_eq!(err.line, 2);
    assert!(err.column > 0);
}

#[test]
fn test_invalid_json_unclosed_brace() {
    let input = "{\"key\": \"value\"";
    let result = format_json(input, IndentStyle::Spaces(2));
    assert!(result.is_err());
}

#[test]
fn test_invalid_json_trailing_comma() {
    let input = r#"{"key": "value",}"#;
    let result = format_json(input, IndentStyle::Spaces(2));
    assert!(result.is_err());
}

#[test]
fn test_large_numbers() {
    let input = r#"{"big":9007199254740991,"negative":-123456789}"#;
    let result = format_json(input, IndentStyle::Spaces(2)).unwrap();
    assert!(result.contains("9007199254740991"));
    assert!(result.contains("-123456789"));
}

#[test]
fn test_scientific_notation() {
    let input = r#"{"sci":1.23e10}"#;
    let result = format_json(input, IndentStyle::Spaces(2)).unwrap();
    assert!(result.contains("123") || result.contains("1.23e10") || result.contains("12300000000"));
}

#[test]
fn test_boolean_values() {
    let input = r#"{"yes":true,"no":false}"#;
    let result = format_json(input, IndentStyle::Spaces(2)).unwrap();
    assert!(result.contains("true"));
    assert!(result.contains("false"));
}

#[test]
fn test_null_value() {
    let input = r#"{"nothing":null}"#;
    let result = format_json(input, IndentStyle::Spaces(2)).unwrap();
    assert!(result.contains("null"));
}

#[test]
fn test_whitespace_preservation_in_strings() {
    let input = r#"{"spaces":"  leading and trailing  "}"#;
    let result = format_json(input, IndentStyle::Spaces(2)).unwrap();
    assert!(result.contains("  leading and trailing  "));
}

#[test]
fn test_array_of_objects() {
    let input = r#"[{"id":1},{"id":2},{"id":3}]"#;
    let result = format_json(input, IndentStyle::Spaces(2)).unwrap();
    assert!(result.contains("\"id\": 1"));
    assert!(result.contains("\"id\": 2"));
    assert!(result.contains("\"id\": 3"));
}

#[test]
fn test_deeply_nested_structure() {
    let input = r#"{"a":{"b":{"c":{"d":{"e":"deep"}}}}}"#;
    let result = format_json(input, IndentStyle::Spaces(2)).unwrap();
    let lines: Vec<&str> = result.lines().collect();
    assert!(lines.len() > 5);
}
