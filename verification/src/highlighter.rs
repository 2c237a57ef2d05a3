//! JSON syntax highlighter: a lenient, single-pass, character-oriented
//! scanner that wraps classified tokens in HTML spans with inline styles.
//!
//! It never builds a value tree and never fails: arbitrary text, including
//! malformed JSON, flows through with HTML-sensitive characters escaped.
//! Whether a string token is an object key is decided purely by context — a
//! stack of open brackets and one expecting-key flag.
//!
//! The exact output for any input is pinned down by [`highlight_spec`].

use vstd::prelude::*;
use vstd::string::StrSliceExecFns;
use crate::text::{chars_to_string, push_chars, str_chars};

verus! {

/// Whether a character may extend an identifier-like word; used only to keep
/// `true`/`false`/`null` from matching a prefix of a longer token.
pub uninterp spec fn is_word_char(c: char) -> bool;

/// Relies on `char::is_alphanumeric` (Unicode alphabetic or numeric): a
/// fixed classification depending on the character alone, here given the
/// name `is_word_char`.
#[verifier::external_body]
fn alphanumeric(c: char) -> (r: bool)
    ensures
        r == is_word_char(c),
{
    c.is_alphanumeric()
}

// The fixed palette: one color per token category.
pub open spec fn color_string() -> Seq<char> {
    "#ce9178"@
}

pub open spec fn color_key() -> Seq<char> {
    "#9cdcfe"@
}

pub open spec fn color_number() -> Seq<char> {
    "#b5cea8"@
}

pub open spec fn color_boolean() -> Seq<char> {
    "#569cd6"@
}

pub open spec fn color_null() -> Seq<char> {
    "#569cd6"@
}

pub open spec fn color_bracket() -> Seq<char> {
    "#ffd700"@
}

pub open spec fn color_punct() -> Seq<char> {
    "#d4d4d4"@
}

/// How one character passes through outside of markup: the three
/// HTML-sensitive characters become character references, all others are
/// copied unchanged.
pub open spec fn html_escape(c: char) -> Seq<char> {
    if c == '<' {
        "&lt;"@
    } else if c == '>' {
        "&gt;"@
    } else if c == '&' {
        "&amp;"@
    } else {
        seq![c]
    }
}

/// A classified token wrapped in its presentation marker.
pub open spec fn span(color: Seq<char>, text: Seq<char>) -> Seq<char> {
    "<span style=\"color:"@ + color + "\">"@ + text + "</span>"@
}

/// The scan of string content beginning just after an opening quote at
/// `j - 1`: the emitted token text (closing quote included when present)
/// and the position after the token. A backslash protects the following
/// character from being scanned as a delimiter; HTML-sensitive characters
/// are escaped; an unterminated string runs to the end of input.
pub open spec fn string_body(cs: Seq<char>, j: int) -> (Seq<char>, int)
    decreases cs.len() - j,
{
    if j < 0 || j >= cs.len() {
        (Seq::<char>::empty(), cs.len() as int)
    } else if cs[j] == '"' {
        (seq!['"'], j + 1)
    } else if cs[j] == '\\' && j + 1 < cs.len() {
        let r = string_body(cs, j + 2);
        (seq!['\\', cs[j + 1]] + r.0, r.1)
    } else {
        let r = string_body(cs, j + 1);
        (html_escape(cs[j]) + r.0, r.1)
    }
}

pub proof fn lemma_string_body_bounds(cs: Seq<char>, j: int)
    requires
        0 <= j <= cs.len(),
    ensures
        j <= string_body(cs, j).1 <= cs.len(),
    decreases cs.len() - j,
{
    if j < cs.len() {
        if cs[j] == '"' {
        } else if cs[j] == '\\' && j + 1 < cs.len() {
            lemma_string_body_bounds(cs, j + 2);
        } else {
            lemma_string_body_bounds(cs, j + 1);
        }
    }
}

pub open spec fn is_digit(c: char) -> bool {
    ('0' as u32) <= (c as u32) && (c as u32) <= ('9' as u32)
}

/// The end of a run of decimal digits starting at `j`.
pub open spec fn digits_end(cs: Seq<char>, j: int) -> int
    decreases cs.len() - j,
{
    if 0 <= j < cs.len() && is_digit(cs[j]) {
        digits_end(cs, j + 1)
    } else {
        j
    }
}

pub proof fn lemma_digits_end_bounds(cs: Seq<char>, j: int)
    requires
        0 <= j <= cs.len(),
    ensures
        j <= digits_end(cs, j) <= cs.len(),
        j < cs.len() && is_digit(cs[j]) ==> j + 1 <= digits_end(cs, j),
    decreases cs.len() - j,
{
    if j < cs.len() && is_digit(cs[j]) {
        lemma_digits_end_bounds(cs, j + 1);
    }
}

/// Where a number token scanned from `i` ends: optional minus, integer
/// digits, optional fraction, optional exponent; the scan stops at the
/// first character that cannot extend the grammar and validates nothing.
pub open spec fn num_end(cs: Seq<char>, i: int) -> int {
    let j1 = if 0 <= i < cs.len() && cs[i] == '-' {
        i + 1
    } else {
        i
    };
    let j2 = digits_end(cs, j1);
    let j3 = if 0 <= j2 < cs.len() && cs[j2] == '.' {
        digits_end(cs, j2 + 1)
    } else {
        j2
    };
    if 0 <= j3 < cs.len() && (cs[j3] == 'e' || cs[j3] == 'E') {
        let j4 = if j3 + 1 < cs.len() && (cs[j3 + 1] == '+' || cs[j3 + 1] == '-') {
            j3 + 2
        } else {
            j3 + 1
        };
        digits_end(cs, j4)
    } else {
        j3
    }
}

pub proof fn lemma_num_end_bounds(cs: Seq<char>, i: int)
    requires
        0 <= i < cs.len(),
    ensures
        i <= num_end(cs, i) <= cs.len(),
        cs[i] == '-' || is_digit(cs[i]) ==> i + 1 <= num_end(cs, i),
{
    let j1 = if 0 <= i < cs.len() && cs[i] == '-' {
        i + 1
    } else {
        i
    };
    lemma_digits_end_bounds(cs, j1);
    let j2 = digits_end(cs, j1);
    let j3 = if 0 <= j2 < cs.len() && cs[j2] == '.' {
        lemma_digits_end_bounds(cs, j2 + 1);
        digits_end(cs, j2 + 1)
    } else {
        j2
    };
    if 0 <= j3 < cs.len() && (cs[j3] == 'e' || cs[j3] == 'E') {
        let j4 = if j3 + 1 < cs.len() && (cs[j3 + 1] == '+' || cs[j3 + 1] == '-') {
            j3 + 2
        } else {
            j3 + 1
        };
        if j4 <= cs.len() {
            lemma_digits_end_bounds(cs, j4);
        }
    }
}

/// Whether the keyword `kw` stands at position `i` and is not immediately
/// extended by an identifier-like character.
pub open spec fn kw_at(cs: Seq<char>, i: int, kw: Seq<char>) -> bool {
    &&& 0 <= i
    &&& i + kw.len() <= cs.len()
    &&& cs.subrange(i, i + kw.len()) == kw
    &&& (i + kw.len() == cs.len() || !is_word_char(cs[i + kw.len()]))
}

/// The stack after a closing bracket: popping is a no-op when nothing is
/// open.
pub open spec fn pop1(stack: Seq<char>) -> Seq<char> {
    if stack.len() > 0 {
        stack.drop_last()
    } else {
        stack
    }
}

/// One pass of the scanner from position `i` to the end of input, with the
/// open-bracket stack and the expecting-key flag as carried state.
pub open spec fn hl(cs: Seq<char>, i: int, stack: Seq<char>, ek: bool) -> Seq<char>
    decreases cs.len() - i,
    via hl_decreases
{
    if i < 0 || i >= cs.len() {
        Seq::<char>::empty()
    } else {
        let c = cs[i];
        if c == ' ' || c == '\t' || c == '\n' || c == '\r' {
            seq![c] + hl(cs, i + 1, stack, ek)
        } else if c == '{' {
            span(color_bracket(), "{"@) + hl(cs, i + 1, stack.push('{'), true)
        } else if c == '}' {
            span(color_bracket(), "}"@) + hl(cs, i + 1, pop1(stack), false)
        } else if c == '[' {
            span(color_bracket(), "["@) + hl(cs, i + 1, stack.push('['), false)
        } else if c == ']' {
            span(color_bracket(), "]"@) + hl(cs, i + 1, pop1(stack), false)
        } else if c == ':' {
            span(color_punct(), ":"@) + hl(cs, i + 1, stack, false)
        } else if c == ',' {
            span(color_punct(), ","@) + hl(
                cs,
                i + 1,
                stack,
                stack.len() > 0 && stack.last() == '{',
            )
        } else if c == '"' {
            span(
                if ek {
                    color_key()
                } else {
                    color_string()
                },
                seq!['"'] + string_body(cs, i + 1).0,
            ) + hl(cs, string_body(cs, i + 1).1, stack, false)
        } else if c == '-' || is_digit(c) {
            span(color_number(), cs.subrange(i, num_end(cs, i))) + hl(
                cs,
                num_end(cs, i),
                stack,
                false,
            )
        } else if c == 't' && kw_at(cs, i, "true"@) {
            span(color_boolean(), "true"@) + hl(cs, i + 4, stack, false)
        } else if c == 'f' && kw_at(cs, i, "false"@) {
            span(color_boolean(), "false"@) + hl(cs, i + 5, stack, false)
        } else if c == 'n' && kw_at(cs, i, "null"@) {
            span(color_null(), "null"@) + hl(cs, i + 4, stack, false)
        } else {
            html_escape(c) + hl(cs, i + 1, stack, ek)
        }
    }
}

#[via_fn]
proof fn hl_decreases(cs: Seq<char>, i: int, stack: Seq<char>, ek: bool) {
    if 0 <= i < cs.len() {
        lemma_string_body_bounds(cs, i + 1);
        lemma_num_end_bounds(cs, i);
        reveal_strlit("true");
        reveal_strlit("false");
        reveal_strlit("null");
    }
}

/// The whole marked-up text for an input: empty input yields an empty
/// result with no wrapper at all; anything else is the scan wrapped in a
/// `<pre>` container.
pub open spec fn highlight_spec(cs: Seq<char>) -> Seq<char> {
    if cs.len() == 0 {
        Seq::<char>::empty()
    } else {
        "<pre style=\"margin:0;font-family:inherit;\">"@ + hl(cs, 0, Seq::<char>::empty(), false)
            + "</pre>"@
    }
}

/// Key/value distinction: a string token scanned while the expecting-key
/// flag is set is wrapped in the object-key style; one scanned while it is
/// clear, in the string-value style — and the two styles are distinct. The
/// flag is purely positional: it does not depend on whether a colon follows.
pub proof fn lemma_key_value_distinction(cs: Seq<char>, i: int, stack: Seq<char>)
    requires
        0 <= i < cs.len(),
        cs[i] == '"',
    ensures
        hl(cs, i, stack, true) == span(color_key(), seq!['"'] + string_body(cs, i + 1).0) + hl(
            cs,
            string_body(cs, i + 1).1,
            stack,
            false,
        ),
        hl(cs, i, stack, false) == span(color_string(), seq!['"'] + string_body(cs, i + 1).0) + hl(
            cs,
            string_body(cs, i + 1).1,
            stack,
            false,
        ),
        color_key() != color_string(),
{
    reveal_strlit("#9cdcfe");
    reveal_strlit("#ce9178");
    assert(color_key()[1] == '9');
    assert(color_string()[1] == 'c');
}

/// HTML safety of pass-through characters: the escaping function never
/// emits a literal angle bracket — `<` and `>` always leave as their
/// character references.
pub proof fn lemma_html_escape_no_angles(c: char)
    ensures
        forall|k: int|
            0 <= k < html_escape(c).len() ==> html_escape(c)[k] != '<' && html_escape(c)[k] != '>',
{
    reveal_strlit("&lt;");
    reveal_strlit("&gt;");
    reveal_strlit("&amp;");
}

/// HTML safety inside string tokens: an angle bracket stands in a scanned
/// string token only immediately after a backslash (which protects exactly
/// one character); every unprotected `<` or `>` of the input is emitted as
/// its character reference, so markup such as a script tag cannot pass
/// through a highlighted string literally.
pub proof fn lemma_string_token_angles(cs: Seq<char>, j: int)
    ensures
        forall|k: int|
            0 <= k < string_body(cs, j).0.len() && (#[trigger] string_body(cs, j).0[k] == '<'
                || string_body(cs, j).0[k] == '>') ==> k > 0 && string_body(cs, j).0[k - 1] == '\\',
    decreases cs.len() - j,
{
    let tok = string_body(cs, j).0;
    if j < 0 || j >= cs.len() {
    } else if cs[j] == '"' {
    } else if cs[j] == '\\' && j + 1 < cs.len() {
        let rest = string_body(cs, j + 2).0;
        lemma_string_token_angles(cs, j + 2);
        assert forall|k: int|
            0 <= k < tok.len() && (#[trigger] tok[k] == '<' || tok[k] == '>') implies k > 0 && tok[
                k - 1
            ] == '\\' by {
            if k >= 2 {
                assert(tok[k] == rest[k - 2]);
                if k - 2 > 0 {
                    assert(tok[k - 1] == rest[k - 3]);
                }
            }
        }
    } else {
        let esc = html_escape(cs[j]);
        let rest = string_body(cs, j + 1).0;
        lemma_string_token_angles(cs, j + 1);
        lemma_html_escape_no_angles(cs[j]);
        assert forall|k: int|
            0 <= k < tok.len() && (#[trigger] tok[k] == '<' || tok[k] == '>') implies k > 0 && tok[
                k - 1
            ] == '\\' by {
            if k >= esc.len() {
                assert(tok[k] == rest[k - esc.len()]);
                if k - esc.len() > 0 {
                    assert(tok[k - 1] == rest[k - esc.len() - 1]);
                }
            }
        }
    }
}

/// Push colored HTML span.
fn push_colored(output: &mut Vec<char>, text: &str, color: &str)
    ensures
        final(output)@ == old(output)@ + span(color@, text@),
{
    push_chars(output, "<span style=\"color:");
    push_chars(output, color);
    push_chars(output, "\">");
    push_chars(output, text);
    push_chars(output, "</span>");
    proof {
        assert(final(output)@ =~= old(output)@ + span(color@, text@));
    }
}

/// Push one character, escaped if HTML-sensitive.
fn push_escaped(output: &mut Vec<char>, c: char)
    ensures
        final(output)@ == old(output)@ + html_escape(c),
{
    if c == '<' {
        push_chars(output, "&lt;");
    } else if c == '>' {
        push_chars(output, "&gt;");
    } else if c == '&' {
        push_chars(output, "&amp;");
    } else {
        output.push(c);
        proof {
            assert(final(output)@ =~= old(output)@ + seq![c]);
        }
    }
}

/// Scan a string token beginning at the `"` at `start`; returns the token
/// text (HTML-escaped, closing quote included when present) and the
/// position after it.
pub fn parse_string(chars: &Vec<char>, start: usize) -> (r: (String, usize))
    requires
        start < chars@.len(),
        chars@[start as int] == '"',
    ensures
        r.0@ == seq!['"'] + string_body(chars@, start as int + 1).0,
        r.1 == string_body(chars@, start as int + 1).1,
        start < r.1 <= chars@.len(),
{
    let ghost cs: Seq<char> = chars@;
    let n: usize = chars.len();
    let mut buf: Vec<char> = Vec::new();
    buf.push('"');
    let mut i: usize = start + 1;
    proof {
        assert(buf@ =~= seq!['"']);
        lemma_string_body_bounds(cs, start as int + 1);
    }
    while i < n
        invariant
            start + 1 <= i <= n,
            n == cs.len(),
            chars@ == cs,
            buf@ + string_body(cs, i as int).0 == seq!['"'] + string_body(cs, start as int + 1).0,
            string_body(cs, i as int).1 == string_body(cs, start as int + 1).1,
            string_body(cs, i as int).1 >= i,
        decreases n - i,
    {
        let c = chars[i];
        if c == '"' {
            buf.push('"');
            proof {
                assert(buf@ =~= (seq!['"'] + string_body(cs, start as int + 1).0));
            }
            return (chars_to_string(&buf), i + 1);
        } else if c == '\\' && i + 1 < n {
            buf.push('\\');
            buf.push(chars[i + 1]);
            i = i + 2;
        } else if c == '<' {
            push_chars(&mut buf, "&lt;");
            i = i + 1;
        } else if c == '>' {
            push_chars(&mut buf, "&gt;");
            i = i + 1;
        } else if c == '&' {
            push_chars(&mut buf, "&amp;");
            i = i + 1;
        } else {
            buf.push(c);
            i = i + 1;
        }
        proof {
            lemma_string_body_bounds(cs, i as int);
            assert(buf@ + string_body(cs, i as int).0 =~= seq!['"'] + string_body(
                cs,
                start as int + 1,
            ).0);
        }
    }
    proof {
        assert(buf@ =~= seq!['"'] + string_body(cs, start as int + 1).0);
    }
    (chars_to_string(&buf), i)
}

/// Scan a number token from `start`, following the JSON number grammar
/// without validating it; returns the scanned text and the position after.
pub fn parse_number(chars: &Vec<char>, start: usize) -> (r: (String, usize))
    requires
        start < chars@.len(),
    ensures
        r.0@ == chars@.subrange(start as int, num_end(chars@, start as int)),
        r.1 == num_end(chars@, start as int),
        start <= r.1 <= chars@.len(),
{
    let ghost cs: Seq<char> = chars@;
    let n: usize = chars.len();
    let mut buf: Vec<char> = Vec::new();
    let mut i: usize = start;
    proof {
        lemma_num_end_bounds(cs, start as int);
    }
    if i < n && chars[i] == '-' {
        buf.push('-');
        i = i + 1;
    }
    let ghost j1: int = i as int;
    proof {
        assert(buf@ =~= cs.subrange(start as int, i as int));
    }
    while i < n && is_digit_char(chars[i])
        invariant
            start as int <= j1 <= i <= n,
            n == cs.len(),
            chars@ == cs,
            buf@ == cs.subrange(start as int, i as int),
            digits_end(cs, j1) == digits_end(cs, i as int),
        decreases n - i,
    {
        buf.push(chars[i]);
        i = i + 1;
        proof {
            assert(buf@ =~= cs.subrange(start as int, i as int));
        }
    }
    proof {
        assert(digits_end(cs, j1) == i as int);
    }
    if i < n && chars[i] == '.' {
        buf.push('.');
        i = i + 1;
        let ghost j2: int = i as int;
        proof {
            assert(buf@ =~= cs.subrange(start as int, i as int));
        }
        while i < n && is_digit_char(chars[i])
            invariant
                start as int <= j2 <= i <= n,
                n == cs.len(),
                chars@ == cs,
                buf@ == cs.subrange(start as int, i as int),
                digits_end(cs, j2) == digits_end(cs, i as int),
            decreases n - i,
        {
            buf.push(chars[i]);
            i = i + 1;
            proof {
                assert(buf@ =~= cs.subrange(start as int, i as int));
            }
        }
        proof {
            assert(digits_end(cs, j2) == i as int);
        }
    }
    if i < n && (chars[i] == 'e' || chars[i] == 'E') {
        buf.push(chars[i]);
        i = i + 1;
        if i < n && (chars[i] == '+' || chars[i] == '-') {
            buf.push(chars[i]);
            i = i + 1;
        }
        let ghost j4: int = i as int;
        proof {
            assert(buf@ =~= cs.subrange(start as int, i as int));
        }
        while i < n && is_digit_char(chars[i])
            invariant
                start as int <= j4 <= i <= n,
                n == cs.len(),
                chars@ == cs,
                buf@ == cs.subrange(start as int, i as int),
                digits_end(cs, j4) == digits_end(cs, i as int),
            decreases n - i,
        {
            buf.push(chars[i]);
            i = i + 1;
            proof {
                assert(buf@ =~= cs.subrange(start as int, i as int));
            }
        }
        proof {
            assert(digits_end(cs, j4) == i as int);
        }
    }
    proof {
        assert(buf@ =~= cs.subrange(start as int, num_end(cs, start as int)));
    }
    (chars_to_string(&buf), i)
}

fn is_digit_char(c: char) -> (r: bool)
    ensures
        r == is_digit(c),
{
    let code: u32 = c as u32;
    code >= 48 && code <= 57
}

/// Check whether `keyword` stands at position `start` without being a
/// prefix of a longer identifier-like run.
pub fn matches_keyword(chars: &Vec<char>, start: usize, keyword: &str) -> (r: bool)
    requires
        start <= chars@.len(),
    ensures
        r == kw_at(chars@, start as int, keyword@),
{
    let n: usize = chars.len();
    let klen: usize = keyword.unicode_len();
    if klen > n - start {
        return false;
    }
    let mut j: usize = 0;
    while j < klen
        invariant
            j <= klen,
            start + klen <= n,
            klen == keyword@.len(),
            n == chars@.len(),
            forall|k: int| 0 <= k < j ==> chars@[start + k] == keyword@[k],
        decreases klen - j,
    {
        if chars[start + j] != keyword.get_char(j) {
            proof {
                assert(chars@.subrange(start as int, start as int + klen)[j as int] == chars@[
                    start + j
                ]);
            }
            return false;
        }
        j = j + 1;
    }
    proof {
        assert(chars@.subrange(start as int, start as int + klen) =~= keyword@);
    }
    let end: usize = start + klen;
    if end < n {
        if alphanumeric(chars[end]) {
            return false;
        }
    }
    true
}

/// Highlights JSON string and returns HTML with inline styles.
///
/// Defined for every input, valid JSON or not, and never fails: the result
/// is exactly `highlight_spec` of the input, and empty input yields an
/// empty string with no wrapper at all.
#[verifier::rlimit(60)]
pub fn highlight_json(input: &str) -> (r: String)
    ensures
        r@ == highlight_spec(input@),
{
    if input.is_empty() {
        return String::new();
    }
    let chars: Vec<char> = str_chars(input);
    let ghost cs: Seq<char> = input@;
    let n: usize = chars.len();
    let mut output: Vec<char> = Vec::new();
    push_chars(&mut output, "<pre style=\"margin:0;font-family:inherit;\">");
    let mut i: usize = 0;
    let mut expect_key: bool = false;
    let mut brace_stack: Vec<char> = Vec::new();
    while i < n
        invariant
            i <= n,
            n == cs.len(),
            chars@ == cs,
            output@ + hl(cs, i as int, brace_stack@, expect_key) == "<pre style=\"margin:0;font-family:inherit;\">"@
                + hl(cs, 0, Seq::<char>::empty(), false),
        decreases n - i,
    {
        let ghost pos: int = i as int;
        let c = chars[i];
        if c == ' ' || c == '\t' || c == '\n' || c == '\r' {
            output.push(c);
            i = i + 1;
        } else if c == '{' {
            push_colored(&mut output, "{", "#ffd700");
            brace_stack.push('{');
            expect_key = true;
            i = i + 1;
        } else if c == '}' {
            push_colored(&mut output, "}", "#ffd700");
            brace_stack.pop();
            expect_key = false;
            i = i + 1;
        } else if c == '[' {
            push_colored(&mut output, "[", "#ffd700");
            brace_stack.push('[');
            expect_key = false;
            i = i + 1;
        } else if c == ']' {
            push_colored(&mut output, "]", "#ffd700");
            brace_stack.pop();
            expect_key = false;
            i = i + 1;
        } else if c == ':' {
            push_colored(&mut output, ":", "#d4d4d4");
            expect_key = false;
            i = i + 1;
        } else if c == ',' {
            push_colored(&mut output, ",", "#d4d4d4");
            expect_key = brace_stack.len() > 0 && brace_stack[brace_stack.len() - 1] == '{';
            i = i + 1;
        } else if c == '"' {
            let token = parse_string(&chars, i);
            let color = if expect_key {
                "#9cdcfe"
            } else {
                "#ce9178"
            };
            push_colored(&mut output, token.0.as_str(), color);
            expect_key = false;
            i = token.1;
        } else if c == '-' || is_digit_char(c) {
            let token = parse_number(&chars, i);
            proof {
                lemma_num_end_bounds(cs, pos);
            }
            push_colored(&mut output, token.0.as_str(), "#b5cea8");
            expect_key = false;
            i = token.1;
        } else if c == 't' && matches_keyword(&chars, i, "true") {
            push_colored(&mut output, "true", "#569cd6");
            expect_key = false;
            proof {
                reveal_strlit("true");
            }
            i = i + 4;
        } else if c == 'f' && matches_keyword(&chars, i, "false") {
            push_colored(&mut output, "false", "#569cd6");
            expect_key = false;
            proof {
                reveal_strlit("false");
            }
            i = i + 5;
        } else if c == 'n' && matches_keyword(&chars, i, "null") {
            push_colored(&mut output, "null", "#569cd6");
            expect_key = false;
            proof {
                reveal_strlit("null");
            }
            i = i + 4;
        } else {
            push_escaped(&mut output, c);
            i = i + 1;
        }
        proof {
            assert(output@ + hl(cs, i as int, brace_stack@, expect_key)
                =~= "<pre style=\"margin:0;font-family:inherit;\">"@ + hl(
                cs,
                0,
                Seq::<char>::empty(),
                false,
            ));
        }
    }
    push_chars(&mut output, "</pre>");
    proof {
        assert(output@ =~= highlight_spec(cs));
    }
    chars_to_string(&output)
}

} // verus!
