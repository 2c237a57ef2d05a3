//! Structural validation: parse the text, then walk the tree once,
//! accumulating per-kind counts, the total key count and the maximum
//! nesting depth.

use vstd::prelude::*;
use crate::parse::{parse_json, spec_parse};
use crate::types::{FormatError, JsonStats, ValidationResult};
use crate::value::{
    count_entries, count_items, depth_entries, depth_items, lemma_entry_bounds, lemma_item_bounds,
    lemma_size_dominates, size_entries, size_items, JsonValue,
};

verus! {

/// The exact statistics of a value tree: how many values of each kind it
/// holds (the root included), and how many object keys in total.
pub struct TreeTally {
    pub objects: nat,
    pub arrays: nat,
    pub strings: nat,
    pub numbers: nat,
    pub booleans: nat,
    pub nulls: nat,
    pub keys: nat,
}

pub open spec fn tally_zero() -> TreeTally {
    TreeTally { objects: 0, arrays: 0, strings: 0, numbers: 0, booleans: 0, nulls: 0, keys: 0 }
}

pub open spec fn tally_sum(a: TreeTally, b: TreeTally) -> TreeTally {
    TreeTally {
        objects: a.objects + b.objects,
        arrays: a.arrays + b.arrays,
        strings: a.strings + b.strings,
        numbers: a.numbers + b.numbers,
        booleans: a.booleans + b.booleans,
        nulls: a.nulls + b.nulls,
        keys: a.keys + b.keys,
    }
}

/// The statistics of a single value tree.
pub open spec fn tally_of(v: JsonValue) -> TreeTally
    decreases v,
{
    match v {
        JsonValue::Null => TreeTally { nulls: 1, ..tally_zero() },
        JsonValue::Bool(_) => TreeTally { booleans: 1, ..tally_zero() },
        JsonValue::Number(_) => TreeTally { numbers: 1, ..tally_zero() },
        JsonValue::Str(_) => TreeTally { strings: 1, ..tally_zero() },
        JsonValue::Array(items) => tally_sum(
            TreeTally { arrays: 1, ..tally_zero() },
            tally_items(items@),
        ),
        JsonValue::Object(entries) => tally_sum(
            TreeTally { objects: 1, keys: entries@.len(), ..tally_zero() },
            tally_entries(entries@),
        ),
    }
}

pub open spec fn tally_items(s: Seq<JsonValue>) -> TreeTally
    decreases s,
{
    if s.len() == 0 {
        tally_zero()
    } else {
        tally_sum(tally_items(s.drop_last()), tally_of(s.last()))
    }
}

pub open spec fn tally_entries(s: Seq<(String, JsonValue)>) -> TreeTally
    decreases s,
{
    if s.len() == 0 {
        tally_zero()
    } else {
        tally_sum(tally_entries(s.drop_last()), tally_of(s.last().1))
    }
}

/// Every component of a tree's tally is bounded by its size measure.
proof fn lemma_tally_le_size(v: JsonValue)
    ensures
        tally_of(v).objects <= v.size(),
        tally_of(v).arrays <= v.size(),
        tally_of(v).strings <= v.size(),
        tally_of(v).numbers <= v.size(),
        tally_of(v).booleans <= v.size(),
        tally_of(v).nulls <= v.size(),
        tally_of(v).keys <= v.size(),
    decreases v,
{
    match v {
        JsonValue::Array(items) => {
            lemma_tally_items_le_size(items@);
        },
        JsonValue::Object(entries) => {
            lemma_tally_entries_le_size(entries@);
        },
        _ => {},
    }
}

proof fn lemma_tally_items_le_size(s: Seq<JsonValue>)
    ensures
        tally_items(s).objects <= size_items(s),
        tally_items(s).arrays <= size_items(s),
        tally_items(s).strings <= size_items(s),
        tally_items(s).numbers <= size_items(s),
        tally_items(s).booleans <= size_items(s),
        tally_items(s).nulls <= size_items(s),
        tally_items(s).keys <= size_items(s),
    decreases s,
{
    if s.len() > 0 {
        lemma_tally_items_le_size(s.drop_last());
        lemma_tally_le_size(s.last());
    }
}

proof fn lemma_tally_entries_le_size(s: Seq<(String, JsonValue)>)
    ensures
        tally_entries(s).objects <= size_entries(s),
        tally_entries(s).arrays <= size_entries(s),
        tally_entries(s).strings <= size_entries(s),
        tally_entries(s).numbers <= size_entries(s),
        tally_entries(s).booleans <= size_entries(s),
        tally_entries(s).nulls <= size_entries(s),
        tally_entries(s).keys + s.len() <= size_entries(s),
    decreases s,
{
    if s.len() > 0 {
        lemma_tally_entries_le_size(s.drop_last());
        lemma_tally_le_size(s.last().1);
    }
}

/// A tally over a prefix grows by exactly the next element's tally.
proof fn lemma_tally_items_step(s: Seq<JsonValue>, i: int)
    requires
        0 <= i < s.len(),
    ensures
        tally_items(s.subrange(0, i + 1)) == tally_sum(
            tally_items(s.subrange(0, i)),
            tally_of(s[i]),
        ),
{
    assert(s.subrange(0, i + 1).drop_last() =~= s.subrange(0, i));
    assert(s.subrange(0, i + 1).last() == s[i]);
}

proof fn lemma_tally_entries_step(s: Seq<(String, JsonValue)>, i: int)
    requires
        0 <= i < s.len(),
    ensures
        tally_entries(s.subrange(0, i + 1)) == tally_sum(
            tally_entries(s.subrange(0, i)),
            tally_of(s[i].1),
        ),
{
    assert(s.subrange(0, i + 1).drop_last() =~= s.subrange(0, i));
    assert(s.subrange(0, i + 1).last() == s[i]);
}

proof fn lemma_depth_items_step(s: Seq<JsonValue>, i: int)
    requires
        0 <= i < s.len(),
    ensures
        depth_items(s.subrange(0, i + 1)) == vstd::math::max(
            depth_items(s.subrange(0, i)) as int,
            s[i].rel_depth() as int,
        ),
{
    assert(s.subrange(0, i + 1).drop_last() =~= s.subrange(0, i));
    assert(s.subrange(0, i + 1).last() == s[i]);
}

proof fn lemma_depth_entries_step(s: Seq<(String, JsonValue)>, i: int)
    requires
        0 <= i < s.len(),
    ensures
        depth_entries(s.subrange(0, i + 1)) == vstd::math::max(
            depth_entries(s.subrange(0, i)) as int,
            s[i].1.rel_depth() as int,
        ),
{
    assert(s.subrange(0, i + 1).drop_last() =~= s.subrange(0, i));
    assert(s.subrange(0, i + 1).last() == s[i]);
}

/// Budget for the walk: what a prefix has tallied so far, plus what the next
/// element can still add, stays within the whole sequence's size measure.
proof fn lemma_tally_items_prefix(s: Seq<JsonValue>, i: int)
    requires
        0 <= i <= s.len(),
    ensures
        tally_items(s.subrange(0, i)).objects <= size_items(s.subrange(0, i)),
        tally_items(s.subrange(0, i)).arrays <= size_items(s.subrange(0, i)),
        tally_items(s.subrange(0, i)).strings <= size_items(s.subrange(0, i)),
        tally_items(s.subrange(0, i)).numbers <= size_items(s.subrange(0, i)),
        tally_items(s.subrange(0, i)).booleans <= size_items(s.subrange(0, i)),
        tally_items(s.subrange(0, i)).nulls <= size_items(s.subrange(0, i)),
        tally_items(s.subrange(0, i)).keys <= size_items(s.subrange(0, i)),
        size_items(s.subrange(0, i)) <= size_items(s),
        i < s.len() ==> size_items(s.subrange(0, i)) + s[i].size() <= size_items(s),
{
    lemma_tally_items_le_size(s.subrange(0, i));
    lemma_size_items_tail(s, i);
}

proof fn lemma_size_items_tail(s: Seq<JsonValue>, i: int)
    requires
        0 <= i <= s.len(),
    ensures
        size_items(s) >= size_items(s.subrange(0, i)),
        i < s.len() ==> size_items(s) >= size_items(s.subrange(0, i)) + s[i].size(),
    decreases s.len() - i,
{
    if i == s.len() {
        assert(s.subrange(0, i) =~= s);
    } else {
        lemma_size_items_step(s, i);
        lemma_size_items_tail(s, i + 1);
    }
}

proof fn lemma_size_items_step(s: Seq<JsonValue>, i: int)
    requires
        0 <= i < s.len(),
    ensures
        size_items(s.subrange(0, i + 1)) == size_items(s.subrange(0, i)) + s[i].size(),
{
    assert(s.subrange(0, i + 1).drop_last() =~= s.subrange(0, i));
    assert(s.subrange(0, i + 1).last() == s[i]);
}

proof fn lemma_size_entries_step(s: Seq<(String, JsonValue)>, i: int)
    requires
        0 <= i < s.len(),
    ensures
        size_entries(s.subrange(0, i + 1)) == size_entries(s.subrange(0, i)) + 1 + s[i].1.size(),
{
    assert(s.subrange(0, i + 1).drop_last() =~= s.subrange(0, i));
    assert(s.subrange(0, i + 1).last() == s[i]);
}

proof fn lemma_size_entries_tail(s: Seq<(String, JsonValue)>, i: int)
    requires
        0 <= i <= s.len(),
    ensures
        size_entries(s) >= size_entries(s.subrange(0, i)) + (s.len() - i),
        i < s.len() ==> size_entries(s) >= size_entries(s.subrange(0, i)) + (s.len() - i)
            + s[i].1.size(),
    decreases s.len() - i,
{
    if i == s.len() {
        assert(s.subrange(0, i) =~= s);
    } else {
        lemma_size_entries_step(s, i);
        lemma_size_entries_tail(s, i + 1);
    }
}

proof fn lemma_tally_entries_prefix(s: Seq<(String, JsonValue)>, i: int)
    requires
        0 <= i <= s.len(),
    ensures
        tally_entries(s.subrange(0, i)).objects <= size_entries(s.subrange(0, i)),
        tally_entries(s.subrange(0, i)).arrays <= size_entries(s.subrange(0, i)),
        tally_entries(s.subrange(0, i)).strings <= size_entries(s.subrange(0, i)),
        tally_entries(s.subrange(0, i)).numbers <= size_entries(s.subrange(0, i)),
        tally_entries(s.subrange(0, i)).booleans <= size_entries(s.subrange(0, i)),
        tally_entries(s.subrange(0, i)).nulls <= size_entries(s.subrange(0, i)),
        tally_entries(s.subrange(0, i)).keys + i <= size_entries(s.subrange(0, i)),
        size_entries(s.subrange(0, i)) <= size_entries(s),
        i < s.len() ==> size_entries(s.subrange(0, i)) + (s.len() - i) + s[i].1.size()
            <= size_entries(s),
{
    lemma_tally_entries_le_size(s.subrange(0, i));
    lemma_size_entries_tail(s, i);
}

/// Recursively collect statistics from a JSON value tree rooted at nesting
/// level `depth`: each counter grows by the subtree's exact tally, and
/// `max_depth` becomes at least `depth` and exactly covers the deepest
/// descendant.
fn collect_stats(value: &JsonValue, depth: usize, stats: &mut JsonStats)
    requires
        old(stats).object_count + value.size() <= usize::MAX,
        old(stats).array_count + value.size() <= usize::MAX,
        old(stats).string_count + value.size() <= usize::MAX,
        old(stats).number_count + value.size() <= usize::MAX,
        old(stats).boolean_count + value.size() <= usize::MAX,
        old(stats).null_count + value.size() <= usize::MAX,
        old(stats).total_keys + value.size() <= usize::MAX,
        depth + value.rel_depth() <= usize::MAX,
    ensures
        final(stats).object_count == old(stats).object_count + tally_of(*value).objects,
        final(stats).array_count == old(stats).array_count + tally_of(*value).arrays,
        final(stats).string_count == old(stats).string_count + tally_of(*value).strings,
        final(stats).number_count == old(stats).number_count + tally_of(*value).numbers,
        final(stats).boolean_count == old(stats).boolean_count + tally_of(*value).booleans,
        final(stats).null_count == old(stats).null_count + tally_of(*value).nulls,
        final(stats).total_keys == old(stats).total_keys + tally_of(*value).keys,
        final(stats).max_depth == vstd::math::max(
            old(stats).max_depth as int,
            depth + value.rel_depth(),
        ),
    decreases value.size(),
{
    proof {
        lemma_tally_le_size(*value);
    }
    if depth > stats.max_depth {
        stats.max_depth = depth;
    }
    match value {
        JsonValue::Object(entries) => {
            stats.object_count = stats.object_count + 1;
            stats.total_keys = stats.total_keys + entries.len();
            let n: usize = entries.len();
            let mut i: usize = 0;
            proof {
                assert(entries@.subrange(0, 0) =~= Seq::<(String, JsonValue)>::empty());
            }
            while i < n
                invariant
                    i <= n,
                    n == entries@.len(),
                    value == JsonValue::Object(*entries),
                    old(stats).object_count + value.size() <= usize::MAX,
                    old(stats).array_count + value.size() <= usize::MAX,
                    old(stats).string_count + value.size() <= usize::MAX,
                    old(stats).number_count + value.size() <= usize::MAX,
                    old(stats).boolean_count + value.size() <= usize::MAX,
                    old(stats).null_count + value.size() <= usize::MAX,
                    old(stats).total_keys + value.size() <= usize::MAX,
                    depth + value.rel_depth() <= usize::MAX,
                    stats.object_count == old(stats).object_count + 1 + tally_entries(
                        entries@.subrange(0, i as int),
                    ).objects,
                    stats.array_count == old(stats).array_count + tally_entries(
                        entries@.subrange(0, i as int),
                    ).arrays,
                    stats.string_count == old(stats).string_count + tally_entries(
                        entries@.subrange(0, i as int),
                    ).strings,
                    stats.number_count == old(stats).number_count + tally_entries(
                        entries@.subrange(0, i as int),
                    ).numbers,
                    stats.boolean_count == old(stats).boolean_count + tally_entries(
                        entries@.subrange(0, i as int),
                    ).booleans,
                    stats.null_count == old(stats).null_count + tally_entries(
                        entries@.subrange(0, i as int),
                    ).nulls,
                    stats.total_keys == old(stats).total_keys + entries@.len() + tally_entries(
                        entries@.subrange(0, i as int),
                    ).keys,
                    stats.max_depth == vstd::math::max(
                        old(stats).max_depth as int,
                        depth + (if i == 0 {
                            0int
                        } else {
                            1 + depth_entries(entries@.subrange(0, i as int)) as int
                        }),
                    ),
                decreases n - i,
            {
                proof {
                    lemma_entry_bounds(entries@, i as int);
                    lemma_tally_entries_prefix(entries@, i as int);
                    lemma_size_dominates(entries@[i as int].1);
                }
                collect_stats(&entries[i].1, depth + 1, stats);
                i = i + 1;
                proof {
                    lemma_tally_entries_step(entries@, i - 1);
                    lemma_depth_entries_step(entries@, i - 1);
                }
            }
            proof {
                assert(entries@.subrange(0, n as int) =~= entries@);
            }
        },
        JsonValue::Array(items) => {
            stats.array_count = stats.array_count + 1;
            let n: usize = items.len();
            let mut i: usize = 0;
            proof {
                assert(items@.subrange(0, 0) =~= Seq::<JsonValue>::empty());
            }
            while i < n
                invariant
                    i <= n,
                    n == items@.len(),
                    value == JsonValue::Array(*items),
                    old(stats).object_count + value.size() <= usize::MAX,
                    old(stats).array_count + value.size() <= usize::MAX,
                    old(stats).string_count + value.size() <= usize::MAX,
                    old(stats).number_count + value.size() <= usize::MAX,
                    old(stats).boolean_count + value.size() <= usize::MAX,
                    old(stats).null_count + value.size() <= usize::MAX,
                    old(stats).total_keys + value.size() <= usize::MAX,
                    depth + value.rel_depth() <= usize::MAX,
                    stats.object_count == old(stats).object_count + tally_items(
                        items@.subrange(0, i as int),
                    ).objects,
                    stats.array_count == old(stats).array_count + 1 + tally_items(
                        items@.subrange(0, i as int),
                    ).arrays,
                    stats.string_count == old(stats).string_count + tally_items(
                        items@.subrange(0, i as int),
                    ).strings,
                    stats.number_count == old(stats).number_count + tally_items(
                        items@.subrange(0, i as int),
                    ).numbers,
                    stats.boolean_count == old(stats).boolean_count + tally_items(
                        items@.subrange(0, i as int),
                    ).booleans,
                    stats.null_count == old(stats).null_count + tally_items(
                        items@.subrange(0, i as int),
                    ).nulls,
                    stats.total_keys == old(stats).total_keys + tally_items(
                        items@.subrange(0, i as int),
                    ).keys,
                    stats.max_depth == vstd::math::max(
                        old(stats).max_depth as int,
                        depth + (if i == 0 {
                            0int
                        } else {
                            1 + depth_items(items@.subrange(0, i as int)) as int
                        }),
                    ),
                decreases n - i,
            {
                proof {
                    lemma_item_bounds(items@, i as int);
                    lemma_tally_items_prefix(items@, i as int);
                    lemma_size_dominates(items@[i as int]);
                }
                collect_stats(&items[i], depth + 1, stats);
                i = i + 1;
                proof {
                    lemma_tally_items_step(items@, i - 1);
                    lemma_depth_items_step(items@, i - 1);
                }
            }
            proof {
                assert(items@.subrange(0, n as int) =~= items@);
            }
        },
        JsonValue::Str(_) => {
            stats.string_count = stats.string_count + 1;
        },
        JsonValue::Number(_) => {
            stats.number_count = stats.number_count + 1;
        },
        JsonValue::Bool(_) => {
            stats.boolean_count = stats.boolean_count + 1;
        },
        JsonValue::Null => {
            stats.null_count = stats.null_count + 1;
        },
    }
}

/// Validate JSON and return statistics about its structure.
///
/// Exactly when the text parses, the result is valid and carries the exact
/// tally of the parsed tree and its maximum nesting depth (root at depth 0);
/// otherwise it is invalid, carries the parser's error unchanged, and
/// all-zero statistics.
pub fn validate_json(input: &str) -> (r: ValidationResult)
    ensures
        spec_parse(input@) matches Ok(v) ==> r.is_valid && r.error is None && r.stats.object_count
            == tally_of(v).objects && r.stats.array_count == tally_of(v).arrays
            && r.stats.string_count == tally_of(v).strings && r.stats.number_count == tally_of(
            v,
        ).numbers && r.stats.boolean_count == tally_of(v).booleans && r.stats.null_count
            == tally_of(v).nulls && r.stats.total_keys == tally_of(v).keys && r.stats.max_depth
            == v.rel_depth(),
        spec_parse(input@) matches Err(e) ==> !r.is_valid && r.error == Some(e)
            && r.stats.is_zero(),
{
    match parse_json(input) {
        Ok(value) => {
            proof {
                lemma_size_dominates(value);
            }
            let mut stats = JsonStats::default();
            collect_stats(&value, 0, &mut stats);
            ValidationResult::valid(stats)
        },
        Err(e) => ValidationResult::invalid(e),
    }
}

/// Count conservation: the six per-kind counters add up to exactly the
/// number of value nodes in the tree — every node is counted once and
/// exactly once.
pub proof fn lemma_count_conservation(v: JsonValue)
    ensures
        tally_of(v).objects + tally_of(v).arrays + tally_of(v).strings + tally_of(v).numbers
            + tally_of(v).booleans + tally_of(v).nulls == v.node_count(),
    decreases v,
{
    match v {
        JsonValue::Array(items) => {
            lemma_count_conservation_items(items@);
        },
        JsonValue::Object(entries) => {
            lemma_count_conservation_entries(entries@);
        },
        _ => {},
    }
}

proof fn lemma_count_conservation_items(s: Seq<JsonValue>)
    ensures
        tally_items(s).objects + tally_items(s).arrays + tally_items(s).strings
            + tally_items(s).numbers + tally_items(s).booleans + tally_items(s).nulls
            == count_items(s),
    decreases s,
{
    if s.len() > 0 {
        lemma_count_conservation_items(s.drop_last());
        lemma_count_conservation(s.last());
    }
}

proof fn lemma_count_conservation_entries(s: Seq<(String, JsonValue)>)
    ensures
        tally_entries(s).objects + tally_entries(s).arrays + tally_entries(s).strings
            + tally_entries(s).numbers + tally_entries(s).booleans + tally_entries(s).nulls
            == count_entries(s),
    decreases s,
{
    if s.len() > 0 {
        lemma_count_conservation_entries(s.drop_last());
        lemma_count_conservation(s.last().1);
    }
}

} // verus!
