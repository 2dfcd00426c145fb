//! The log as a sequence of entries in index order, and how that sequence
//! corresponds to the rows of the log namespace.

use vstd::prelude::*;
use crate::raft::codec::{entry_bytes, lemma_entry_round_trip, parse_entry};
use crate::raft::index_key::{be_bytes, lemma_be_order};
use crate::raft::types::EntryView;
use crate::storage::order::lex_lt;
use crate::storage::rows::{
    ascending, key_above, key_below, key_is_not, key_outside, lemma_filter_ascending, rows_above,
    rows_below, rows_outside, rows_with, rows_without, RowView,
};

verus! {

/// The entry that a log row holds.
pub open spec fn row_entry(r: RowView) -> EntryView {
    parse_entry(r.1)->0
}

/// The function from a log row to its entry.
pub open spec fn to_entry() -> spec_fn(RowView) -> EntryView {
    |r: RowView| row_entry(r)
}

/// The entries that log rows hold, row by row.
pub open spec fn entries_of(rows: Seq<RowView>) -> Seq<EntryView> {
    rows.map_values(to_entry())
}

/// A log row holds an entry and is keyed by that entry's index.
pub open spec fn log_row_valid(r: RowView) -> bool {
    parse_entry(r.1) is Some && r.0 == be_bytes(row_entry(r).log_id.index)
}

/// Every row is a valid log row.
pub open spec fn log_rows_valid(rows: Seq<RowView>) -> bool {
    forall|i: int| 0 <= i < rows.len() ==> log_row_valid(#[trigger] rows[i])
}

/// Strictly ascending by index: no index occurs twice.
pub open spec fn index_ascending(log: Seq<EntryView>) -> bool {
    forall|i: int, j: int|
        0 <= i < j < log.len() ==> (#[trigger] log[i]).log_id.index < (#[trigger] log[j]).log_id.index
}

/// Selects the entries with an index below `k`.
pub open spec fn index_below(k: u64) -> spec_fn(EntryView) -> bool {
    |e: EntryView| e.log_id.index < k
}

/// Selects the entries with an index above `k`.
pub open spec fn index_above(k: u64) -> spec_fn(EntryView) -> bool {
    |e: EntryView| e.log_id.index > k
}

/// The log after `e` has been appended: `e` stands at its index, in place
/// of the entry that stood there, if one did.
pub open spec fn log_with(log: Seq<EntryView>, e: EntryView) -> Seq<EntryView> {
    log.filter(index_below(e.log_id.index)).push(e) + log.filter(index_above(e.log_id.index))
}

/// The log after the entries have been appended in their order.
pub open spec fn log_with_all(log: Seq<EntryView>, entries: Seq<EntryView>) -> Seq<EntryView>
    decreases entries.len(),
{
    if entries.len() == 0 {
        log
    } else {
        log_with(log_with_all(log, entries.drop_last()), entries.last())
    }
}

/// Selecting and then mapping is mapping and then selecting, where the two
/// selections agree item by item.
pub proof fn lemma_filter_map<A, B>(
    s: Seq<A>,
    f: spec_fn(A) -> B,
    p: spec_fn(A) -> bool,
    q: spec_fn(B) -> bool,
)
    requires
        forall|i: int| 0 <= i < s.len() ==> p(#[trigger] s[i]) == q(f(s[i])),
    ensures
        s.filter(p).map_values(f) == s.map_values(f).filter(q),
    decreases s.len(),
{
    reveal(Seq::filter);
    if s.len() == 0 {
        assert(s.filter(p).map_values(f) =~= s.map_values(f).filter(q));
    } else {
        let rest = s.drop_last();
        assert forall|i: int| 0 <= i < rest.len() implies p(#[trigger] rest[i]) == q(f(rest[i])) by {
            assert(rest[i] == s[i]);
        }
        lemma_filter_map(rest, f, p, q);
        assert(s.map_values(f).drop_last() =~= rest.map_values(f));
        assert(s.map_values(f).last() == f(s.last()));
        assert(p(s[s.len() - 1]) == q(f(s[s.len() - 1])));
        if p(s.last()) {
            assert(rest.filter(p).push(s.last()).map_values(f) =~= rest.filter(p).map_values(
                f,
            ).push(f(s.last())));
        }
    }
}

/// Two selections that agree item by item select the same.
pub proof fn lemma_filter_same<A>(s: Seq<A>, p: spec_fn(A) -> bool, q: spec_fn(A) -> bool)
    requires
        forall|i: int| 0 <= i < s.len() ==> p(#[trigger] s[i]) == q(s[i]),
    ensures
        s.filter(p) == s.filter(q),
    decreases s.len(),
{
    reveal(Seq::filter);
    if s.len() > 0 {
        let rest = s.drop_last();
        assert forall|i: int| 0 <= i < rest.len() implies p(#[trigger] rest[i]) == q(rest[i]) by {
            assert(rest[i] == s[i]);
        }
        lemma_filter_same(rest, p, q);
        assert(p(s[s.len() - 1]) == q(s[s.len() - 1]));
    }
}

/// Selecting twice is selecting once by both conditions.
pub proof fn lemma_filter_twice<A>(
    s: Seq<A>,
    p: spec_fn(A) -> bool,
    q: spec_fn(A) -> bool,
    both: spec_fn(A) -> bool,
)
    requires
        forall|i: int| 0 <= i < s.len() ==> both(#[trigger] s[i]) == (p(s[i]) && q(s[i])),
    ensures
        s.filter(p).filter(q) == s.filter(both),
    decreases s.len(),
{
    reveal(Seq::filter);
    if s.len() > 0 {
        let rest = s.drop_last();
        assert forall|i: int| 0 <= i < rest.len() implies both(#[trigger] rest[i]) == (p(rest[i])
            && q(rest[i])) by {
            assert(rest[i] == s[i]);
        }
        lemma_filter_twice(rest, p, q, both);
        assert(both(s[s.len() - 1]) == (p(s[s.len() - 1]) && q(s[s.len() - 1])));
        if p(s.last()) {
            assert(rest.filter(p).push(s.last()).drop_last() =~= rest.filter(p));
        }
    }
}

/// Valid log rows in key order hold entries in index order.
pub proof fn lemma_entries_ascending(rows: Seq<RowView>)
    requires
        ascending(rows),
        log_rows_valid(rows),
    ensures
        index_ascending(entries_of(rows)),
        entries_of(rows).len() == rows.len(),
{
    let log = entries_of(rows);
    assert forall|i: int, j: int| 0 <= i < j < log.len() implies (#[trigger] log[i]).log_id.index < (
    #[trigger] log[j]).log_id.index by {
        assert(log_row_valid(rows[i]));
        assert(log_row_valid(rows[j]));
        assert(lex_lt(rows[i].0, rows[j].0));
        lemma_be_order(log[i].log_id.index, log[j].log_id.index);
    }
}

/// A selection from valid log rows holds valid log rows.
pub proof fn lemma_selection_valid(rows: Seq<RowView>, pred: spec_fn(RowView) -> bool)
    requires
        ascending(rows),
        log_rows_valid(rows),
    ensures
        ascending(rows.filter(pred)),
        log_rows_valid(rows.filter(pred)),
{
    lemma_filter_ascending(rows, pred);
    let sel = rows.filter(pred);
    assert forall|i: int| 0 <= i < sel.len() implies log_row_valid(#[trigger] sel[i]) by {
        assert(rows.contains(sel[i]));
        let k = choose|k: int| 0 <= k < rows.len() && rows[k] == sel[i];
        assert(log_row_valid(rows[k]));
    }
}

/// Writing the row of an entry under the key of its index appends the entry
/// to the log.
pub proof fn lemma_append_row(rows: Seq<RowView>, e: EntryView)
    requires
        ascending(rows),
        log_rows_valid(rows),
    ensures
        log_rows_valid(rows_with(rows, be_bytes(e.log_id.index), entry_bytes(e))),
        entries_of(rows_with(rows, be_bytes(e.log_id.index), entry_bytes(e))) == log_with(
            entries_of(rows),
            e,
        ),
{
    let key = be_bytes(e.log_id.index);
    let k = e.log_id.index;
    let below = rows_below(rows, key);
    let above = rows_above(rows, key);
    let after = rows_with(rows, key, entry_bytes(e));
    lemma_entry_round_trip(e);
    lemma_selection_valid(rows, key_below(key));
    lemma_selection_valid(rows, key_above(key));
    assert forall|i: int| 0 <= i < after.len() implies log_row_valid(#[trigger] after[i]) by {
        if i < below.len() {
            assert(after[i] == below[i]);
        } else if i > below.len() {
            assert(after[i] == above[i - below.len() - 1]);
        }
    }
    assert forall|i: int| 0 <= i < rows.len() implies key_below(key)(#[trigger] rows[i])
        == index_below(k)(to_entry()(rows[i])) by {
        assert(log_row_valid(rows[i]));
        lemma_be_order(row_entry(rows[i]).log_id.index, k);
    }
    lemma_filter_map(rows, to_entry(), key_below(key), index_below(k));
    assert forall|i: int| 0 <= i < rows.len() implies key_above(key)(#[trigger] rows[i])
        == index_above(k)(to_entry()(rows[i])) by {
        assert(log_row_valid(rows[i]));
        lemma_be_order(k, row_entry(rows[i]).log_id.index);
    }
    lemma_filter_map(rows, to_entry(), key_above(key), index_above(k));
    assert(entries_of(after) =~= entries_of(below).push(e) + entries_of(above));
}

/// Removing the rows with keys from that of index `a` up to, and without,
/// that of index `b` removes the entries with `a <= index < b`.
pub proof fn lemma_remove_rows(rows: Seq<RowView>, a: u64, b: u64, keep: spec_fn(EntryView) -> bool)
    requires
        ascending(rows),
        log_rows_valid(rows),
        forall|e: EntryView| #[trigger] keep(e) == !(a <= e.log_id.index < b),
    ensures
        ascending(rows_outside(rows, be_bytes(a), be_bytes(b))),
        log_rows_valid(rows_outside(rows, be_bytes(a), be_bytes(b))),
        entries_of(rows_outside(rows, be_bytes(a), be_bytes(b))) == entries_of(rows).filter(keep),
{
    let from = be_bytes(a);
    let to = be_bytes(b);
    lemma_selection_valid(rows, key_outside(from, to));
    assert forall|i: int| 0 <= i < rows.len() implies key_outside(from, to)(#[trigger] rows[i])
        == keep(to_entry()(rows[i])) by {
        assert(log_row_valid(rows[i]));
        let x = row_entry(rows[i]).log_id.index;
        lemma_be_order(a, x);
        lemma_be_order(x, b);
    }
    lemma_filter_map(rows, to_entry(), key_outside(from, to), keep);
}

/// Removing the row with the key of index `k` removes the entry with that
/// index.
pub proof fn lemma_remove_row(rows: Seq<RowView>, k: u64, keep: spec_fn(EntryView) -> bool)
    requires
        ascending(rows),
        log_rows_valid(rows),
        forall|e: EntryView| #[trigger] keep(e) == (e.log_id.index != k),
    ensures
        ascending(rows_without(rows, be_bytes(k))),
        log_rows_valid(rows_without(rows, be_bytes(k))),
        entries_of(rows_without(rows, be_bytes(k))) == entries_of(rows).filter(keep),
{
    let key = be_bytes(k);
    lemma_selection_valid(rows, key_is_not(key));
    assert forall|i: int| 0 <= i < rows.len() implies key_is_not(key)(#[trigger] rows[i]) == keep(
        to_entry()(rows[i]),
    ) by {
        assert(log_row_valid(rows[i]));
        lemma_be_order(row_entry(rows[i]).log_id.index, k);
    }
    lemma_filter_map(rows, to_entry(), key_is_not(key), keep);
}

/// An append keeps the log in index order; the appended entry is in the
/// log, and so is every entry with another index that was in it.
pub proof fn lemma_log_with(log: Seq<EntryView>, e: EntryView)
    requires
        index_ascending(log),
    ensures
        index_ascending(log_with(log, e)),
        log_with(log, e).contains(e),
        forall|x: EntryView|
            x.log_id.index != e.log_id.index ==> (#[trigger] log_with(log, e).contains(x)
                <==> log.contains(x)),
        forall|x: EntryView|
            #[trigger] log_with(log, e).contains(x) && x.log_id.index == e.log_id.index ==> x == e,
{
    let k = e.log_id.index;
    let below = log.filter(index_below(k));
    let above = log.filter(index_above(k));
    let after = log_with(log, e);
    lemma_selection(log, index_below(k));
    lemma_selection(log, index_above(k));
    let at = below.len() as int;
    assert(after[at] == e);
    assert forall|i: int, j: int| 0 <= i < j < after.len() implies (#[trigger] after[i]).log_id.index
        < (#[trigger] after[j]).log_id.index by {
        if i < at {
            assert(after[i] == below[i]);
        } else if i > at {
            assert(after[i] == above[i - at - 1]);
        }
        if j < at {
            assert(after[j] == below[j]);
        } else if j > at {
            assert(after[j] == above[j - at - 1]);
        }
    }
    assert forall|x: EntryView| x.log_id.index != k implies (#[trigger] after.contains(x)
        <==> log.contains(x)) by {
        if log.contains(x) {
            let i = choose|i: int| 0 <= i < log.len() && log[i] == x;
            if x.log_id.index < k {
                assert(below.contains(log[i]));
                let j = choose|j: int| 0 <= j < below.len() && below[j] == x;
                assert(after[j] == x);
            } else {
                assert(above.contains(log[i]));
                let j = choose|j: int| 0 <= j < above.len() && above[j] == x;
                assert(after[j + at + 1] == x);
            }
        }
        if after.contains(x) {
            let i = choose|i: int| 0 <= i < after.len() && after[i] == x;
            if i < at {
                assert(after[i] == below[i]);
                assert(log.contains(below[i]));
            } else if i > at {
                assert(after[i] == above[i - at - 1]);
                assert(log.contains(above[i - at - 1]));
            }
        }
    }
    assert forall|x: EntryView| #[trigger]
        after.contains(x) && x.log_id.index == k implies x == e by {
        let i = choose|i: int| 0 <= i < after.len() && after[i] == x;
        if i < at {
            assert(after[i] == below[i]);
            assert(index_below(k)(below[i]));
        } else if i > at {
            assert(after[i] == above[i - at - 1]);
            assert(index_above(k)(above[i - at - 1]));
        }
    }
}

/// What a selection from a log in index order holds: exactly the selected
/// entries, in index order.
pub proof fn lemma_selection(log: Seq<EntryView>, pred: spec_fn(EntryView) -> bool)
    requires
        index_ascending(log),
    ensures
        index_ascending(log.filter(pred)),
        forall|i: int|
            0 <= i < log.filter(pred).len() ==> log.contains(#[trigger] log.filter(pred)[i])
                && pred(log.filter(pred)[i]),
        forall|i: int|
            0 <= i < log.len() && pred(log[i]) ==> log.filter(pred).contains(#[trigger] log[i]),
        forall|x: EntryView| #[trigger] log.filter(pred).contains(x) <==> log.contains(x) && pred(x),
    decreases log.len(),
{
    reveal(Seq::filter);
    if log.len() > 0 {
        let rest = log.drop_last();
        assert forall|i: int, j: int| 0 <= i < j < rest.len() implies (#[trigger] rest[i]).log_id.index
            < (#[trigger] rest[j]).log_id.index by {
            assert(rest[i] == log[i] && rest[j] == log[j]);
        }
        lemma_selection(rest, pred);
        let f = rest.filter(pred);
        let g = log.filter(pred);
        assert forall|i: int| 0 <= i < f.len() implies log.contains(#[trigger] f[i])
            && f[i].log_id.index < log.last().log_id.index by {
            assert(rest.contains(f[i]));
            let k = choose|k: int| 0 <= k < rest.len() && rest[k] == f[i];
            assert(log[k] == f[i]);
        }
        assert forall|i: int| 0 <= i < g.len() implies log.contains(#[trigger] g[i]) && pred(
            g[i],
        ) by {
            if i < f.len() {
                assert(g[i] == f[i]);
            } else {
                assert(g[i] == log[log.len() - 1]);
            }
        }
        assert forall|i: int| 0 <= i < log.len() && pred(log[i]) implies g.contains(
            #[trigger] log[i],
        ) by {
            if i < rest.len() {
                assert(rest[i] == log[i]);
                assert(f.contains(rest[i]));
                let k = choose|k: int| 0 <= k < f.len() && f[k] == rest[i];
                assert(g[k] == log[i]);
            } else {
                assert(g[g.len() - 1] == log[i]);
            }
        }
        assert forall|x: EntryView| #[trigger] g.contains(x) <==> log.contains(x) && pred(x) by {
            if g.contains(x) {
                let i = choose|i: int| 0 <= i < g.len() && g[i] == x;
                assert(log.contains(g[i]) && pred(g[i]));
            }
            if log.contains(x) && pred(x) {
                let i = choose|i: int| 0 <= i < log.len() && log[i] == x;
                assert(g.contains(log[i]));
            }
        }
    } else {
        assert forall|x: EntryView| #[trigger]
            log.filter(pred).contains(x) <==> log.contains(x) && pred(x) by {}
    }
}

/// What can be read of a log after a purge through index `k`: of the
/// entries that were in the log, exactly those with an index above `k`.
pub proof fn lemma_after_purge(log: Seq<EntryView>, k: u64)
    requires
        index_ascending(log),
    ensures
        index_ascending(log.filter(index_above(k))),
        forall|x: EntryView|
            #[trigger] log.filter(index_above(k)).contains(x) <==> log.contains(x)
                && x.log_id.index > k,
{
    lemma_selection(log, index_above(k));
}

/// What can be read of a log after a truncation from index `k` on: of the
/// entries that were in the log, exactly those with an index below `k`.
pub proof fn lemma_after_truncate(log: Seq<EntryView>, k: u64)
    requires
        index_ascending(log),
    ensures
        index_ascending(log.filter(index_below(k))),
        forall|x: EntryView|
            #[trigger] log.filter(index_below(k)).contains(x) <==> log.contains(x)
                && x.log_id.index < k,
{
    lemma_selection(log, index_below(k));
}

} // verus!
