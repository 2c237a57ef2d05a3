//! The in-memory model of a parsed JSON document, together with the
//! spec-level measures (size, depth, well-formedness) that the formatter
//! and validator contracts are stated over.

use vstd::prelude::*;

verus! {

/// A parsed JSON value.
///
/// Numbers keep the decimal text the parser rendered for them, so formatting
/// re-emits them without any further numeric round trip. Object entries are
/// stored in the order the parser hands them over: strictly ascending by key
/// (see [`JsonValue::wf`]).
pub enum JsonValue {
    Null,
    Bool(bool),
    Number(String),
    Str(String),
    Array(Vec<JsonValue>),
    Object(Vec<(String, JsonValue)>),
}

/// Strict lexicographic order on character sequences, by code point.
pub open spec fn lex_lt(a: Seq<char>, b: Seq<char>) -> bool
    decreases a.len(),
{
    if b.len() == 0 {
        false
    } else if a.len() == 0 {
        true
    } else if a[0] != b[0] {
        (a[0] as u32) < (b[0] as u32)
    } else {
        lex_lt(a.drop_first(), b.drop_first())
    }
}

impl JsonValue {
    /// Well-formedness: in every object, keys are strictly ascending in
    /// code-point order (which also makes them unique).
    pub open spec fn wf(self) -> bool
        decreases self,
    {
        match self {
            JsonValue::Null => true,
            JsonValue::Bool(_) => true,
            JsonValue::Number(_) => true,
            JsonValue::Str(_) => true,
            JsonValue::Array(items) => forall|i: int|
                0 <= i < items@.len() ==> #[trigger] items@[i].wf(),
            JsonValue::Object(entries) => (forall|i: int|
                0 <= i < entries@.len() ==> #[trigger] entries@[i].1.wf()) && (forall|i: int, j: int|
                0 <= i < j < entries@.len() ==> lex_lt(
                    #[trigger] entries@[i].0@,
                    #[trigger] entries@[j].0@,
                )),
        }
    }

    /// A size measure: one for each value node and one more for each object
    /// key. Any JSON text that parses to a value spends at least one
    /// character per unit of size.
    pub open spec fn size(self) -> nat
        decreases self,
    {
        match self {
            JsonValue::Null => 1,
            JsonValue::Bool(_) => 1,
            JsonValue::Number(_) => 1,
            JsonValue::Str(_) => 1,
            JsonValue::Array(items) => 1 + size_items(items@),
            JsonValue::Object(entries) => 1 + size_entries(entries@),
        }
    }

    /// The number of value nodes in the tree, the root included.
    pub open spec fn node_count(self) -> nat
        decreases self,
    {
        match self {
            JsonValue::Null => 1,
            JsonValue::Bool(_) => 1,
            JsonValue::Number(_) => 1,
            JsonValue::Str(_) => 1,
            JsonValue::Array(items) => 1 + count_items(items@),
            JsonValue::Object(entries) => 1 + count_entries(entries@),
        }
    }

    /// How far below this value its deepest descendant sits: 0 for leaves
    /// and for empty containers, one more than the deepest child otherwise.
    pub open spec fn rel_depth(self) -> nat
        decreases self,
    {
        match self {
            JsonValue::Null => 0,
            JsonValue::Bool(_) => 0,
            JsonValue::Number(_) => 0,
            JsonValue::Str(_) => 0,
            JsonValue::Array(items) => if items@.len() == 0 {
                0
            } else {
                1 + depth_items(items@)
            },
            JsonValue::Object(entries) => if entries@.len() == 0 {
                0
            } else {
                1 + depth_entries(entries@)
            },
        }
    }
}

pub open spec fn size_items(s: Seq<JsonValue>) -> nat
    decreases s,
{
    if s.len() == 0 {
        0
    } else {
        size_items(s.drop_last()) + s.last().size()
    }
}

pub open spec fn size_entries(s: Seq<(String, JsonValue)>) -> nat
    decreases s,
{
    if s.len() == 0 {
        0
    } else {
        size_entries(s.drop_last()) + 1 + s.last().1.size()
    }
}

pub open spec fn count_items(s: Seq<JsonValue>) -> nat
    decreases s,
{
    if s.len() == 0 {
        0
    } else {
        count_items(s.drop_last()) + s.last().node_count()
    }
}

pub open spec fn count_entries(s: Seq<(String, JsonValue)>) -> nat
    decreases s,
{
    if s.len() == 0 {
        0
    } else {
        count_entries(s.drop_last()) + s.last().1.node_count()
    }
}

pub open spec fn depth_items(s: Seq<JsonValue>) -> nat
    decreases s,
{
    if s.len() == 0 {
        0
    } else {
        vstd::math::max(depth_items(s.drop_last()) as int, s.last().rel_depth() as int) as nat
    }
}

pub open spec fn depth_entries(s: Seq<(String, JsonValue)>) -> nat
    decreases s,
{
    if s.len() == 0 {
        0
    } else {
        vstd::math::max(depth_entries(s.drop_last()) as int, s.last().1.rel_depth() as int) as nat
    }
}

/// Every element's measures are bounded by the sequence's totals.
pub proof fn lemma_item_bounds(s: Seq<JsonValue>, i: int)
    requires
        0 <= i < s.len(),
    ensures
        s[i].size() <= size_items(s),
        s[i].node_count() <= count_items(s),
        s[i].rel_depth() <= depth_items(s),
    decreases s,
{
    if i == s.len() - 1 {
        assert(s.last() == s[i]);
    } else {
        lemma_item_bounds(s.drop_last(), i);
        assert(s.drop_last()[i] == s[i]);
    }
}

pub proof fn lemma_entry_bounds(s: Seq<(String, JsonValue)>, i: int)
    requires
        0 <= i < s.len(),
    ensures
        s[i].1.size() < size_entries(s),
        s[i].1.node_count() <= count_entries(s),
        s[i].1.rel_depth() <= depth_entries(s),
    decreases s,
{
    if i == s.len() - 1 {
        assert(s.last() == s[i]);
    } else {
        lemma_entry_bounds(s.drop_last(), i);
        assert(s.drop_last()[i] == s[i]);
    }
}

/// All measures of a value are bounded by its size; in particular a tree of
/// size at most `n` has node count, key count and depth at most `n`.
pub proof fn lemma_size_dominates(v: JsonValue)
    ensures
        v.node_count() <= v.size(),
        v.rel_depth() < v.size(),
    decreases v,
{
    match v {
        JsonValue::Array(items) => {
            lemma_size_dominates_items(items@);
        },
        JsonValue::Object(entries) => {
            lemma_size_dominates_entries(entries@);
        },
        _ => {},
    }
}

pub proof fn lemma_size_dominates_items(s: Seq<JsonValue>)
    ensures
        count_items(s) <= size_items(s),
        depth_items(s) <= size_items(s),
        s.len() > 0 ==> depth_items(s) < size_items(s),
    decreases s,
{
    if s.len() > 0 {
        lemma_size_dominates_items(s.drop_last());
        lemma_size_dominates(s.last());
    }
}

pub proof fn lemma_size_dominates_entries(s: Seq<(String, JsonValue)>)
    ensures
        count_entries(s) <= size_entries(s),
        depth_entries(s) <= size_entries(s),
        s.len() > 0 ==> depth_entries(s) < size_entries(s),
    decreases s,
{
    if s.len() > 0 {
        lemma_size_dominates_entries(s.drop_last());
        lemma_size_dominates(s.last().1);
    }
}

} // verus!
