//! Core result types: indentation configuration, located errors,
//! document statistics, and the validation report.

use vstd::prelude::*;
use crate::text::{chars_to_string, dec_of, push_chars, push_decimal};

verus! {

/// Indentation style for JSON formatting.
#[derive(Clone, Copy, Debug, PartialEq, Eq, Structural)]
pub enum IndentStyle {
    /// Use spaces for indentation (typically 2 or 4)
    Spaces(u8),
    /// Use tabs for indentation
    Tabs,
}

impl IndentStyle {
    /// The characters of one level of indentation.
    pub open spec fn unit(self) -> Seq<char> {
        match self {
            IndentStyle::Spaces(n) => Seq::new(n as nat, |i: int| ' '),
            IndentStyle::Tabs => seq!['\t'],
        }
    }

    /// Get the string representation for one level of indentation.
    pub fn as_str(&self) -> (r: String)
        ensures
            r@ == self.unit(),
    {
        let mut buf: Vec<char> = Vec::new();
        match self {
            IndentStyle::Spaces(n) => {
                let count: u8 = *n;
                let mut i: u8 = 0;
                while i < count
                    invariant
                        i <= count,
                        buf@ == Seq::new(i as nat, |k: int| ' '),
                    decreases count - i,
                {
                    buf.push(' ');
                    i = i + 1;
                    proof {
                        assert(buf@ =~= Seq::new(i as nat, |k: int| ' '));
                    }
                }
            },
            IndentStyle::Tabs => {
                buf.push('\t');
                proof {
                    assert(buf@ =~= seq!['\t']);
                }
            },
        }
        chars_to_string(&buf)
    }
}

impl Default for IndentStyle {
    fn default() -> (r: Self)
        ensures
            r == IndentStyle::Spaces(4),
    {
        IndentStyle::Spaces(4)
    }
}

/// Error that occurs during JSON formatting or parsing.
#[derive(Clone, Debug, PartialEq)]
pub struct FormatError {
    pub message: String,
    pub line: usize,
    pub column: usize,
}

impl FormatError {
    pub fn new(message: &str, line: usize, column: usize) -> (r: Self)
        ensures
            r.message@ == message@,
            r.line == line,
            r.column == column,
    {
        FormatError { message: message.to_owned(), line, column }
    }

    /// The rendering of this error for people: the location, then the message.
    pub open spec fn display(self) -> Seq<char> {
        "Error at line "@ + dec_of(self.line as nat) + ", column "@ + dec_of(
            self.column as nat,
        ) + ": "@ + self.message@
    }

    /// Render this error as text.
    pub fn display_string(&self) -> (r: String)
        ensures
            r@ == self.display(),
    {
        let mut buf: Vec<char> = Vec::new();
        push_chars(&mut buf, "Error at line ");
        push_decimal(&mut buf, self.line);
        push_chars(&mut buf, ", column ");
        push_decimal(&mut buf, self.column);
        push_chars(&mut buf, ": ");
        push_chars(&mut buf, self.message.as_str());
        chars_to_string(&buf)
    }
}

/// Statistics about a JSON document's structure.
#[derive(Clone, Debug, PartialEq, Eq, Structural)]
pub struct JsonStats {
    pub object_count: usize,
    pub array_count: usize,
    pub string_count: usize,
    pub number_count: usize,
    pub boolean_count: usize,
    pub null_count: usize,
    pub max_depth: usize,
    pub total_keys: usize,
}

impl JsonStats {
    /// True when every statistic is zero.
    pub open spec fn is_zero(self) -> bool {
        self == (JsonStats {
            object_count: 0,
            array_count: 0,
            string_count: 0,
            number_count: 0,
            boolean_count: 0,
            null_count: 0,
            max_depth: 0,
            total_keys: 0,
        })
    }
}

impl Default for JsonStats {
    fn default() -> (r: Self)
        ensures
            r.is_zero(),
    {
        JsonStats {
            object_count: 0,
            array_count: 0,
            string_count: 0,
            number_count: 0,
            boolean_count: 0,
            null_count: 0,
            max_depth: 0,
            total_keys: 0,
        }
    }
}

/// Result of validating a JSON document.
#[derive(Clone, Debug)]
pub struct ValidationResult {
    pub is_valid: bool,
    pub error: Option<FormatError>,
    pub stats: JsonStats,
}

impl ValidationResult {
    /// Create a validation result for valid JSON.
    pub fn valid(stats: JsonStats) -> (r: Self)
        ensures
            r.is_valid,
            r.error is None,
            r.stats == stats,
    {
        ValidationResult { is_valid: true, error: None, stats }
    }

    /// Create a validation result for invalid JSON.
    pub fn invalid(error: FormatError) -> (r: Self)
        ensures
            !r.is_valid,
            r.error == Some(error),
            r.stats.is_zero(),
    {
        ValidationResult { is_valid: false, error: Some(error), stats: JsonStats::default() }
    }
}

} // verus!
