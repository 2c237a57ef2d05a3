//! A small JSON processing engine: canonical formatting (pretty-print and
//! minify), structural validation with statistics, and lenient syntax
//! highlighting for display.

use vstd::prelude::*;

pub mod text;
pub mod types;
pub mod value;
pub mod parse;
pub mod formatter;
pub mod validator;
pub mod highlighter;

verus! {

/// Banner reported by embedders to confirm the engine is linked in.
pub fn greet() -> (r: String)
    ensures
        r@ == "Airgap JSON Formatter loaded successfully!"@,
{
    "Airgap JSON Formatter loaded successfully!".to_owned()
}

} // verus!
