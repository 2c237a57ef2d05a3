//! Scenario checks for the engine-wide properties: canonical re-formatting
//! is idempotent, minified and pretty output describe the same tree, the
//! highlighter is total, and markup cannot leak through highlighted text.

use airgap_json_formatter::formatter::{format_json, minify_json};
use airgap_json_formatter::highlighter::highlight_json;
use airgap_json_formatter::types::IndentStyle;
use airgap_json_formatter::validator::validate_json;

#[test]
fn test_format_idempotent() {
    let inputs = [
        r#"{"name":"John","age":30,"tags":["a","b"],"extra":{"x":null,"y":true}}"#,
        r#"[1,2.5,-3,"s",{},[]]"#,
        r#"{"z":1,"a":{"c":2,"b":[false,null]}}"#,
    ];
    for input in inputs {
        let once = format_json(input, IndentStyle::Spaces(2)).unwrap();
        let twice = format_json(&once, IndentStyle::Spaces(2)).unwrap();
        assert_eq!(once, twice);
    }
}

#[test]
fn test_minify_idempotent() {
    let input = r#"{ "b" : [ 1 , 2 ] , "a" : "x" }"#;
    let once = minify_json(input).unwrap();
    let twice = minify_json(&once).unwrap();
    assert_eq!(once, twice);
}

#[test]
fn test_minify_format_equivalence() {
    let input = r#"{"name":"John","list":[1,{"k":null}],"flag":true}"#;
    let pretty = format_json(input, IndentStyle::Spaces(4)).unwrap();
    let compact = minify_json(input).unwrap();
    // Both renderings parse back to the same tree: same kinds, same counts,
    // same keys, and re-minifying either gives the same compact text.
    let s0 = validate_json(input);
    let s1 = validate_json(&pretty);
    let s2 = validate_json(&compact);
    assert!(s0.is_valid && s1.is_valid && s2.is_valid);
    assert_eq!(s0.stats, s1.stats);
    assert_eq!(s0.stats, s2.stats);
    assert_eq!(minify_json(&pretty).unwrap(), compact);
}

#[test]
fn test_sorted_keys_regardless_of_input_order() {
    let forwards = r#"{"a":1,"m":2,"z":3}"#;
    let backwards = r#"{"z":3,"m":2,"a":1}"#;
    assert_eq!(
        format_json(forwards, IndentStyle::Spaces(2)).unwrap(),
        format_json(backwards, IndentStyle::Spaces(2)).unwrap()
    );
    assert_eq!(minify_json(backwards).unwrap(), r#"{"a":1,"m":2,"z":3}"#);
}

#[test]
fn test_empty_containers_any_indent() {
    for indent in [IndentStyle::Spaces(2), IndentStyle::Spaces(4), IndentStyle::Tabs] {
        assert_eq!(format_json("{}", indent).unwrap(), "{}");
        assert_eq!(format_json("[]", indent).unwrap(), "[]");
    }
    assert_eq!(minify_json("{}").unwrap(), "{}");
    assert_eq!(minify_json("[]").unwrap(), "[]");
}

#[test]
fn test_count_conservation() {
    // 1 object + 1 array + 1 string + 2 numbers + 1 boolean + 1 null = 7 nodes.
    let input = r#"{"a":[1,true,null],"b":"x","c":2}"#;
    let stats = validate_json(input).stats;
    let sum = stats.object_count + stats.array_count + stats.string_count + stats.number_count
        + stats.boolean_count + stats.null_count;
    assert_eq!(sum, 7);
    assert_eq!(stats.total_keys, 3);
}

#[test]
fn test_exact_pretty_rendering_tabs() {
    let result = format_json(r#"{"key":"value"}"#, IndentStyle::Tabs).unwrap();
    assert_eq!(result, "{\n\t\"key\": \"value\"\n}");
}

#[test]
fn test_exact_minify_with_escapes() {
    let result = minify_json("{\"a\":\"x\\ny\"}").unwrap();
    assert_eq!(result, "{\"a\":\"x\\ny\"}");
}

#[test]
fn test_control_character_escaping() {
    // A control character below 0x20 is re-emitted as \u00XX, lowercase hex.
    let result = format_json("{\"c\":\"\\u0001\"}", IndentStyle::Spaces(2)).unwrap();
    assert_eq!(result, "{\n  \"c\": \"\\u0001\"\n}");
}

#[test]
fn test_highlight_never_errors_on_invalid_input() {
    let inputs = [
        "{\"key\": invalid",
        "][}{",
        "\"unterminated",
        "-",
        "truefoo falsebar nullx",
        "plain text, not JSON at all",
        "{\"a\": \"b",
    ];
    for input in inputs {
        let result = highlight_json(input);
        assert!(!result.is_empty());
    }
}

#[test]
fn test_highlight_keyword_needs_boundary() {
    // `truefoo` must not be classified as the keyword `true`, so no
    // boolean-colored span may appear.
    let result = highlight_json("truefoo");
    assert!(!result.contains("#569cd6"));
    let result2 = highlight_json("true");
    assert!(result2.contains("#569cd6"));
}

#[test]
fn test_highlight_escapes_html_outside_strings() {
    let result = highlight_json("<script>alert(1)</script>");
    assert!(!result.contains("<script>"));
    assert!(result.contains("&lt;script&gt;"));
}

#[test]
fn test_highlight_escapes_html_in_keys() {
    let result = highlight_json(r#"{"<k>": "&"}"#);
    assert!(result.contains("&lt;k&gt;"));
    assert!(result.contains("&amp;"));
}

#[test]
fn test_highlight_backslash_protected_angle() {
    // A backslash protects the next character from scanning; the following
    // unescaped `>` still leaves as a character reference, so the exact
    // sequence `<script>` can never appear.
    let result = highlight_json("\"\\<script>x\"");
    assert!(!result.contains("<script>"));
    assert!(result.contains("&gt;"));
}

#[test]
fn test_highlight_number_grammar() {
    let result = highlight_json("[-1.5e+10, 0.25, 7E2]");
    assert!(result.contains("-1.5e+10"));
    assert!(result.contains("0.25"));
    assert!(result.contains("7E2"));
}

#[test]
fn test_highlight_exact_markup() {
    let result = highlight_json("[1]");
    assert_eq!(
        result,
        "<pre style=\"margin:0;font-family:inherit;\">\
         <span style=\"color:#ffd700\">[</span>\
         <span style=\"color:#b5cea8\">1</span>\
         <span style=\"color:#ffd700\">]</span>\
         </pre>"
    );
}

#[test]
fn test_highlight_comma_context() {
    // After a comma inside an object the next string is a key; inside an
    // array it stays a plain string value.
    let in_object = highlight_json(r#"{"a":1,"b":2}"#);
    assert!(in_object.contains("<span style=\"color:#9cdcfe\">\"b\"</span>"));
    let in_array = highlight_json(r#"["a","b"]"#);
    assert!(!in_array.contains("#9cdcfe"));
    assert!(in_array.contains("<span style=\"color:#ce9178\">\"b\"</span>"));
}

#[test]
fn test_highlight_unterminated_string_runs_to_end() {
    let result = highlight_json("{\"open: 1}");
    // The string token swallows everything after the quote, so the digit is
    // never classified as a number.
    assert!(!result.contains("#b5cea8"));
}
