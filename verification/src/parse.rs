//! The boundary to the grammar-level JSON parser.
//!
//! Parsing text into a value tree is delegated to `serde_json`; everything
//! downstream of it (formatting, statistics, rendering rules) is this
//! crate's own verified logic. What the parser returns for a given text is
//! named by the otherwise unspecified function [`spec_parse`]; the contracts
//! of the formatter and validator are exact relative to that name.
//!
//! Known limitation: `serde_json` stores numbers as 64-bit integers or
//! floats, so a literal that fits neither exactly (very long integers,
//! fine-grained decimals, exponent notation) reaches this crate already
//! re-rendered — e.g. `1.23e10` arrives as `12300000000.0`. The formatter
//! preserves faithfully whatever decimal text the parser hands over.

use vstd::prelude::*;
use crate::types::FormatError;
use crate::value::JsonValue;

verus! {

#[verifier::external_type_specification]
#[verifier::external_body]
pub struct ExValue(serde_json::Value);

/// What parsing a text yields: either the value tree the grammar assigns to
/// it, or the error (message and one-based line/column) locating the first
/// offending token.
pub uninterp spec fn spec_parse(s: Seq<char>) -> Result<JsonValue, FormatError>;

/// Relies on `serde_json::Value`'s public variants: rebuilds the parsed tree
/// one node for one, keeping `serde_json`'s own decimal text for each number
/// and the iteration order of its `Map` (backed by `BTreeMap`, so entries
/// arrive strictly ascending by key) for each object.
#[verifier::external_body]
fn from_parsed(v: serde_json::Value) -> JsonValue {
    match v {
        serde_json::Value::Null => JsonValue::Null,
        serde_json::Value::Bool(b) => JsonValue::Bool(b),
        serde_json::Value::Number(n) => JsonValue::Number(n.to_string()),
        serde_json::Value::String(s) => JsonValue::Str(s),
        serde_json::Value::Array(a) => JsonValue::Array(a.into_iter().map(from_parsed).collect()),
        serde_json::Value::Object(m) => JsonValue::Object(
            m.into_iter().map(|(k, x)| (k, from_parsed(x))).collect(),
        ),
    }
}

/// Relies on `serde_json::from_str::<Value>` (and `Error::{line, column}`,
/// documented one-based): a deterministic function of the input text, so its
/// outcome is named `spec_parse`. A returned tree is well formed because the
/// `BTreeMap`-backed object map iterates in strictly ascending key order, and
/// its size is bounded by the input length because every parsed value node
/// and every object key consumes at least one character of the text. A
/// `&str`'s character count is bounded by its byte length, which is below
/// `usize::MAX`.
#[verifier::external_body]
pub(crate) fn parse_json(input: &str) -> (r: Result<JsonValue, FormatError>)
    ensures
        r == spec_parse(input@),
        r matches Ok(v) ==> v.wf() && v.size() <= input@.len() && input@.len() < usize::MAX,
{
    match serde_json::from_str::<serde_json::Value>(input) {
        Ok(v) => Ok(from_parsed(v)),
        Err(e) => Err(FormatError { message: e.to_string(), line: e.line(), column: e.column() }),
    }
}

} // verus!
