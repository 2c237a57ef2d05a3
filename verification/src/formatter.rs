//! Canonical JSON re-serialization: deterministic pretty-printing and
//! minification of a parsed value tree.
//!
//! Both modes share the escaping rules and the stored (ascending) key order;
//! they differ only in whitespace. The exact text either mode produces is
//! pinned down by the spec functions [`render_pretty`] and [`render_compact`].

use vstd::prelude::*;
use crate::parse::{parse_json, spec_parse};
use crate::text::{chars_to_string, hex_digit, hex_digit_char, push_chars, str_chars};
use crate::types::{FormatError, IndentStyle};
use crate::value::{
    depth_entries, depth_items, lemma_entry_bounds, lemma_item_bounds, lemma_size_dominates,
    lex_lt, JsonValue,
};

verus! {

/// How one character of string content is emitted: the five short escapes,
/// `\u00XX` for the remaining control characters, the character itself
/// otherwise.
pub open spec fn esc_char(c: char) -> Seq<char> {
    if c == '"' {
        seq!['\\', '"']
    } else if c == '\\' {
        seq!['\\', '\\']
    } else if c == '\n' {
        seq!['\\', 'n']
    } else if c == '\r' {
        seq!['\\', 'r']
    } else if c == '\t' {
        seq!['\\', 't']
    } else if (c as u32) < 0x20 {
        seq!['\\', 'u', '0', '0', hex_digit((c as u32 / 16) as nat), hex_digit(
            (c as u32 % 16) as nat,
        )]
    } else {
        seq![c]
    }
}

/// The escaped form of string content, character by character.
pub open spec fn escape_str(s: Seq<char>) -> Seq<char>
    decreases s.len(),
{
    if s.len() == 0 {
        Seq::empty()
    } else {
        esc_char(s[0]) + escape_str(s.drop_first())
    }
}

/// The indentation unit repeated `depth` times.
pub open spec fn indent_seq(unit: Seq<char>, depth: nat) -> Seq<char>
    decreases depth,
{
    if depth == 0 {
        Seq::empty()
    } else {
        unit + indent_seq(unit, (depth - 1) as nat)
    }
}

/// The pretty-printed text of a value standing at depth `depth`: one value
/// per line, children indented one unit further, empty containers kept on
/// one line.
pub open spec fn render_pretty(v: JsonValue, unit: Seq<char>, depth: nat) -> Seq<char>
    decreases v,
{
    match v {
        JsonValue::Null => "null"@,
        JsonValue::Bool(b) => if b {
            "true"@
        } else {
            "false"@
        },
        JsonValue::Number(s) => s@,
        JsonValue::Str(s) => seq!['"'] + escape_str(s@) + seq!['"'],
        JsonValue::Array(items) => if items@.len() == 0 {
            "[]"@
        } else {
            "[\n"@ + pretty_items(items@, unit, depth + 1) + indent_seq(unit, depth) + seq![']']
        },
        JsonValue::Object(entries) => if entries@.len() == 0 {
            "{}"@
        } else {
            "{\n"@ + pretty_entries(entries@, unit, depth + 1) + indent_seq(unit, depth)
                + seq!['}']
        },
    }
}

/// The lines for the elements of a non-empty array: each indented at `depth`,
/// comma-terminated except the last.
pub open spec fn pretty_items(s: Seq<JsonValue>, unit: Seq<char>, depth: nat) -> Seq<char>
    decreases s,
{
    if s.len() == 0 {
        Seq::empty()
    } else {
        indent_seq(unit, depth) + render_pretty(s[0], unit, depth) + (if s.len() > 1 {
            seq![',']
        } else {
            Seq::<char>::empty()
        }) + seq!['\n'] + pretty_items(s.drop_first(), unit, depth)
    }
}

/// The lines for the entries of a non-empty object: `"key": value`, keys in
/// stored order, comma-terminated except the last.
pub open spec fn pretty_entries(s: Seq<(String, JsonValue)>, unit: Seq<char>, depth: nat) -> Seq<
    char,
>
    decreases s,
{
    if s.len() == 0 {
        Seq::empty()
    } else {
        indent_seq(unit, depth) + seq!['"'] + escape_str(s[0].0@) + "\": "@ + render_pretty(
            s[0].1,
            unit,
            depth,
        ) + (if s.len() > 1 {
            seq![',']
        } else {
            Seq::<char>::empty()
        }) + seq!['\n'] + pretty_entries(s.drop_first(), unit, depth)
    }
}

/// The minified text of a value: the same escaping and key order as the
/// pretty printer, with no whitespace at all.
pub open spec fn render_compact(v: JsonValue) -> Seq<char>
    decreases v,
{
    match v {
        JsonValue::Null => "null"@,
        JsonValue::Bool(b) => if b {
            "true"@
        } else {
            "false"@
        },
        JsonValue::Number(s) => s@,
        JsonValue::Str(s) => seq!['"'] + escape_str(s@) + seq!['"'],
        JsonValue::Array(items) => if items@.len() == 0 {
            "[]"@
        } else {
            seq!['['] + compact_items(items@) + seq![']']
        },
        JsonValue::Object(entries) => if entries@.len() == 0 {
            "{}"@
        } else {
            seq!['{'] + compact_entries(entries@) + seq!['}']
        },
    }
}

pub open spec fn compact_items(s: Seq<JsonValue>) -> Seq<char>
    decreases s,
{
    if s.len() == 0 {
        Seq::empty()
    } else {
        render_compact(s[0]) + (if s.len() > 1 {
            seq![',']
        } else {
            Seq::<char>::empty()
        }) + compact_items(s.drop_first())
    }
}

pub open spec fn compact_entries(s: Seq<(String, JsonValue)>) -> Seq<char>
    decreases s,
{
    if s.len() == 0 {
        Seq::empty()
    } else {
        seq!['"'] + escape_str(s[0].0@) + "\":"@ + render_compact(s[0].1) + (if s.len() > 1 {
            seq![',']
        } else {
            Seq::<char>::empty()
        }) + compact_entries(s.drop_first())
    }
}

/// Appends the escaped form of the string content `s` to `output`.
fn push_escaped_str(output: &mut Vec<char>, s: &str)
    ensures
        final(output)@ == old(output)@ + escape_str(s@),
{
    let chars: Vec<char> = str_chars(s);
    let n: usize = chars.len();
    let mut i: usize = 0;
    proof {
        assert(s@.subrange(0, n as int) =~= s@);
    }
    while i < n
        invariant
            i <= n,
            n == s@.len(),
            chars@ == s@,
            output@ + escape_str(s@.subrange(i as int, n as int)) == old(output)@ + escape_str(s@),
        decreases n - i,
    {
        let ghost before: Seq<char> = s@.subrange(i as int, n as int);
        let c = chars[i];
        let code: u32 = c as u32;
        if c == '"' {
            output.push('\\');
            output.push('"');
        } else if c == '\\' {
            output.push('\\');
            output.push('\\');
        } else if c == '\n' {
            output.push('\\');
            output.push('n');
        } else if c == '\r' {
            output.push('\\');
            output.push('r');
        } else if c == '\t' {
            output.push('\\');
            output.push('t');
        } else if code < 0x20 {
            output.push('\\');
            output.push('u');
            output.push('0');
            output.push('0');
            output.push(hex_digit_char(code / 16));
            output.push(hex_digit_char(code % 16));
        } else {
            output.push(c);
        }
        i = i + 1;
        proof {
            assert(before.drop_first() =~= s@.subrange(i as int, n as int));
            assert(output@ + escape_str(s@.subrange(i as int, n as int)) =~= old(output)@
                + escape_str(s@));
        }
    }
    proof {
        assert(s@.subrange(i as int, n as int) =~= Seq::<char>::empty());
        assert(final(output)@ =~= old(output)@ + escape_str(s@));
    }
}

/// Push indentation to the output: `depth` copies of the indentation unit.
pub fn push_indent(output: &mut Vec<char>, indent_str: &str, depth: usize)
    ensures
        final(output)@ == old(output)@ + indent_seq(indent_str@, depth as nat),
{
    let mut j: usize = 0;
    while j < depth
        invariant
            j <= depth,
            output@ + indent_seq(indent_str@, (depth - j) as nat) == old(output)@ + indent_seq(
                indent_str@,
                depth as nat,
            ),
        decreases depth - j,
    {
        push_chars(output, indent_str);
        j = j + 1;
        proof {
            assert(output@ + indent_seq(indent_str@, (depth - j) as nat) =~= old(output)@
                + indent_seq(indent_str@, depth as nat));
        }
    }
    proof {
        assert(final(output)@ =~= old(output)@ + indent_seq(indent_str@, depth as nat));
    }
}

/// Recursively format a JSON value with proper indentation.
fn format_value(value: &JsonValue, indent_str: &str, depth: usize, output: &mut Vec<char>)
    requires
        depth + value.rel_depth() <= usize::MAX,
    ensures
        final(output)@ == old(output)@ + render_pretty(*value, indent_str@, depth as nat),
    decreases value.size(),
{
    match value {
        JsonValue::Null => push_chars(output, "null"),
        JsonValue::Bool(b) => push_chars(output, if *b { "true" } else { "false" }),
        JsonValue::Number(s) => push_chars(output, s.as_str()),
        JsonValue::Str(s) => {
            output.push('"');
            push_escaped_str(output, s.as_str());
            output.push('"');
            proof {
                assert(final(output)@ =~= old(output)@ + render_pretty(
                    *value,
                    indent_str@,
                    depth as nat,
                ));
            }
        },
        JsonValue::Array(items) => {
            let n: usize = items.len();
            if n == 0 {
                push_chars(output, "[]");
            } else {
                push_chars(output, "[\n");
                let mut i: usize = 0;
                proof {
                    assert(items@.subrange(0, n as int) =~= items@);
                }
                while i < n
                    invariant
                        i <= n,
                        n == items@.len(),
                        value == JsonValue::Array(*items),
                        depth + value.rel_depth() <= usize::MAX,
                        value.rel_depth() == 1 + depth_items(items@),
                        output@ + pretty_items(
                            items@.subrange(i as int, n as int),
                            indent_str@,
                            (depth + 1) as nat,
                        ) == old(output)@ + "[\n"@ + pretty_items(
                            items@,
                            indent_str@,
                            (depth + 1) as nat,
                        ),
                    decreases n - i,
                {
                    let ghost before: Seq<JsonValue> = items@.subrange(i as int, n as int);
                    proof {
                        lemma_item_bounds(items@, i as int);
                        assert(before[0] == items@[i as int]);
                        assert(before.drop_first() =~= items@.subrange(i + 1 as int, n as int));
                    }
                    push_indent(output, indent_str, depth + 1);
                    format_value(&items[i], indent_str, depth + 1, output);
                    if i < n - 1 {
                        output.push(',');
                    }
                    output.push('\n');
                    i = i + 1;
                    proof {
                        assert(output@ + pretty_items(
                            items@.subrange(i as int, n as int),
                            indent_str@,
                            (depth + 1) as nat,
                        ) =~= old(output)@ + "[\n"@ + pretty_items(
                            items@,
                            indent_str@,
                            (depth + 1) as nat,
                        ));
                    }
                }
                proof {
                    assert(items@.subrange(i as int, n as int) =~= Seq::<JsonValue>::empty());
                }
                push_indent(output, indent_str, depth);
                output.push(']');
                proof {
                    assert(final(output)@ =~= old(output)@ + render_pretty(
                        *value,
                        indent_str@,
                        depth as nat,
                    ));
                }
            }
        },
        JsonValue::Object(entries) => {
            let n: usize = entries.len();
            if n == 0 {
                push_chars(output, "{}");
            } else {
                push_chars(output, "{\n");
                let mut i: usize = 0;
                proof {
                    assert(entries@.subrange(0, n as int) =~= entries@);
                }
                while i < n
                    invariant
                        i <= n,
                        n == entries@.len(),
                        value == JsonValue::Object(*entries),
                        depth + value.rel_depth() <= usize::MAX,
                        value.rel_depth() == 1 + depth_entries(entries@),
                        output@ + pretty_entries(
                            entries@.subrange(i as int, n as int),
                            indent_str@,
                            (depth + 1) as nat,
                        ) == old(output)@ + "{\n"@ + pretty_entries(
                            entries@,
                            indent_str@,
                            (depth + 1) as nat,
                        ),
                    decreases n - i,
                {
                    let ghost before: Seq<(String, JsonValue)> = entries@.subrange(
                        i as int,
                        n as int,
                    );
                    proof {
                        lemma_entry_bounds(entries@, i as int);
                        assert(before[0] == entries@[i as int]);
                        assert(before.drop_first() =~= entries@.subrange(i + 1 as int, n as int));
                    }
                    push_indent(output, indent_str, depth + 1);
                    output.push('"');
                    push_escaped_str(output, entries[i].0.as_str());
                    push_chars(output, "\": ");
                    format_value(&entries[i].1, indent_str, depth + 1, output);
                    if i < n - 1 {
                        output.push(',');
                    }
                    output.push('\n');
                    i = i + 1;
                    proof {
                        assert(output@ + pretty_entries(
                            entries@.subrange(i as int, n as int),
                            indent_str@,
                            (depth + 1) as nat,
                        ) =~= old(output)@ + "{\n"@ + pretty_entries(
                            entries@,
                            indent_str@,
                            (depth + 1) as nat,
                        ));
                    }
                }
                proof {
                    assert(entries@.subrange(i as int, n as int) =~= Seq::<(
                        String,
                        JsonValue,
                    )>::empty());
                }
                push_indent(output, indent_str, depth);
                output.push('}');
                proof {
                    assert(final(output)@ =~= old(output)@ + render_pretty(
                        *value,
                        indent_str@,
                        depth as nat,
                    ));
                }
            }
        },
    }
}

/// Recursively minify a JSON value: same content, no whitespace.
fn minify_value(value: &JsonValue, output: &mut Vec<char>)
    ensures
        final(output)@ == old(output)@ + render_compact(*value),
    decreases value.size(),
{
    match value {
        JsonValue::Null => push_chars(output, "null"),
        JsonValue::Bool(b) => push_chars(output, if *b { "true" } else { "false" }),
        JsonValue::Number(s) => push_chars(output, s.as_str()),
        JsonValue::Str(s) => {
            output.push('"');
            push_escaped_str(output, s.as_str());
            output.push('"');
            proof {
                assert(final(output)@ =~= old(output)@ + render_compact(*value));
            }
        },
        JsonValue::Array(items) => {
            let n: usize = items.len();
            if n == 0 {
                push_chars(output, "[]");
            } else {
                output.push('[');
                let mut i: usize = 0;
                proof {
                    assert(items@.subrange(0, n as int) =~= items@);
                    assert(output@ =~= old(output)@ + seq!['[']);
                }
                while i < n
                    invariant
                        i <= n,
                        n == items@.len(),
                        value == JsonValue::Array(*items),
                        output@ + compact_items(items@.subrange(i as int, n as int)) == old(
                            output,
                        )@ + seq!['['] + compact_items(items@),
                    decreases n - i,
                {
                    let ghost before: Seq<JsonValue> = items@.subrange(i as int, n as int);
                    proof {
                        lemma_item_bounds(items@, i as int);
                        assert(before[0] == items@[i as int]);
                        assert(before.drop_first() =~= items@.subrange(i + 1 as int, n as int));
                    }
                    minify_value(&items[i], output);
                    if i < n - 1 {
                        output.push(',');
                    }
                    i = i + 1;
                    proof {
                        assert(output@ + compact_items(items@.subrange(i as int, n as int)) =~= old(
                            output,
                        )@ + seq!['['] + compact_items(items@));
                    }
                }
                proof {
                    assert(items@.subrange(i as int, n as int) =~= Seq::<JsonValue>::empty());
                }
                output.push(']');
                proof {
                    assert(final(output)@ =~= old(output)@ + render_compact(*value));
                }
            }
        },
        JsonValue::Object(entries) => {
            let n: usize = entries.len();
            if n == 0 {
                push_chars(output, "{}");
            } else {
                output.push('{');
                let mut i: usize = 0;
                proof {
                    assert(entries@.subrange(0, n as int) =~= entries@);
                    assert(output@ =~= old(output)@ + seq!['{']);
                }
                while i < n
                    invariant
                        i <= n,
                        n == entries@.len(),
                        value == JsonValue::Object(*entries),
                        output@ + compact_entries(entries@.subrange(i as int, n as int)) == old(
                            output,
                        )@ + seq!['{'] + compact_entries(entries@),
                    decreases n - i,
                {
                    let ghost before: Seq<(String, JsonValue)> = entries@.subrange(
                        i as int,
                        n as int,
                    );
                    proof {
                        lemma_entry_bounds(entries@, i as int);
                        assert(before[0] == entries@[i as int]);
                        assert(before.drop_first() =~= entries@.subrange(i + 1 as int, n as int));
                    }
                    output.push('"');
                    push_escaped_str(output, entries[i].0.as_str());
                    push_chars(output, "\":");
                    minify_value(&entries[i].1, output);
                    if i < n - 1 {
                        output.push(',');
                    }
                    i = i + 1;
                    proof {
                        assert(output@ + compact_entries(entries@.subrange(i as int, n as int))
                            =~= old(output)@ + seq!['{'] + compact_entries(entries@));
                    }
                }
                proof {
                    assert(entries@.subrange(i as int, n as int) =~= Seq::<(
                        String,
                        JsonValue,
                    )>::empty());
                }
                output.push('}');
                proof {
                    assert(final(output)@ =~= old(output)@ + render_compact(*value));
                }
            }
        },
    }
}

/// Format JSON with the specified indentation style.
///
/// Succeeds exactly when the text parses, and then returns the canonical
/// pretty-printed rendering of the parsed tree; otherwise returns the
/// parser's error unchanged.
pub fn format_json(input: &str, indent: IndentStyle) -> (r: Result<String, FormatError>)
    ensures
        spec_parse(input@) matches Ok(v) ==> r matches Ok(s) && s@ == render_pretty(
            v,
            indent.unit(),
            0,
        ),
        spec_parse(input@) matches Err(e) ==> r matches Err(e2) && e2 == e,
{
    match parse_json(input) {
        Ok(value) => {
            proof {
                lemma_size_dominates(value);
            }
            let indent_str = indent.as_str();
            let mut output: Vec<char> = Vec::new();
            format_value(&value, indent_str.as_str(), 0, &mut output);
            Ok(chars_to_string(&output))
        },
        Err(e) => Err(e),
    }
}

/// Minify JSON by removing all unnecessary whitespace.
///
/// Succeeds exactly when the text parses, and then returns the canonical
/// minified rendering of the parsed tree; otherwise returns the parser's
/// error unchanged.
pub fn minify_json(input: &str) -> (r: Result<String, FormatError>)
    ensures
        spec_parse(input@) matches Ok(v) ==> r matches Ok(s) && s@ == render_compact(v),
        spec_parse(input@) matches Err(e) ==> r matches Err(e2) && e2 == e,
{
    match parse_json(input) {
        Ok(value) => {
            let mut output: Vec<char> = Vec::new();
            minify_value(&value, &mut output);
            Ok(chars_to_string(&output))
        },
        Err(e) => Err(e),
    }
}

/// Sorted-key invariant: both renderings emit an object's entries in stored
/// order, and a well-formed object stores its keys strictly ascending in
/// code-point order — so canonical output lists keys in ascending order,
/// whatever order the source text used.
pub proof fn lemma_sorted_keys(v: JsonValue, i: int, j: int)
    requires
        v.wf(),
        v matches JsonValue::Object(entries) && 0 <= i < j < entries@.len(),
    ensures
        v matches JsonValue::Object(entries) ==> lex_lt(entries@[i].0@, entries@[j].0@),
{
}

/// Empty-container fixed points: an empty object renders as `{}` and an
/// empty array as `[]`, at every depth, under every indentation unit, in
/// both modes.
pub proof fn lemma_empty_fixed_points(v: JsonValue, unit: Seq<char>, depth: nat)
    ensures
        (v matches JsonValue::Object(entries) && entries@.len() == 0) ==> render_pretty(
            v,
            unit,
            depth,
        ) == "{}"@ && render_compact(v) == "{}"@,
        (v matches JsonValue::Array(items) && items@.len() == 0) ==> render_pretty(v, unit, depth)
            == "[]"@ && render_compact(v) == "[]"@,
{
}

} // verus!
