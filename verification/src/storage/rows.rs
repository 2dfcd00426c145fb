//! One namespace of the engine: rows kept in key order.
//!
//! The rows are stated as a sequence of key/value pairs that is strictly
//! ascending by key. Every operation is stated as a selection from that
//! sequence, so that what a scan returns and what a write leaves behind are
//! given exactly.

use vstd::prelude::*;
use crate::storage::order::{
    bytes_eq, bytes_lt, bytes_start_with, has_prefix, lemma_lex_le_transitive,
    lemma_lex_transitive, lemma_lex_trichotomy, lemma_prefix_block, lemma_prefix_is_lower_bound,
    lex_le, lex_lt,
};

verus! {

/// A row as contracts see it: key and value.
pub type RowView = (Seq<u8>, Seq<u8>);

/// A stored row.
#[derive(Debug)]
pub struct Row {
    pub key: Vec<u8>,
    pub value: Vec<u8>,
}

impl View for Row {
    type V = RowView;

    open spec fn view(&self) -> RowView {
        (self.key@, self.value@)
    }
}

impl Clone for Row {
    fn clone(&self) -> (r: Self)
        ensures
            r@ == self@,
    {
        Row { key: self.key.clone(), value: self.value.clone() }
    }
}

/// The views of a list of rows.
pub open spec fn row_views(rows: Seq<Row>) -> Seq<RowView> {
    rows.map_values(|r: Row| r@)
}

/// Strictly ascending by key: no key occurs twice.
pub open spec fn ascending(rows: Seq<RowView>) -> bool {
    forall|i: int, j: int|
        0 <= i < j < rows.len() ==> lex_lt(#[trigger] rows[i].0, #[trigger] rows[j].0)
}

/// Selects the rows whose key sorts before `key`.
pub open spec fn key_below(key: Seq<u8>) -> spec_fn(RowView) -> bool {
    |r: RowView| lex_lt(r.0, key)
}

/// Selects the rows whose key sorts after `key`.
pub open spec fn key_above(key: Seq<u8>) -> spec_fn(RowView) -> bool {
    |r: RowView| lex_lt(key, r.0)
}

/// Selects the rows whose key is `key` or sorts after it.
pub open spec fn key_from(key: Seq<u8>) -> spec_fn(RowView) -> bool {
    |r: RowView| lex_le(key, r.0)
}

/// Selects the rows whose key starts with `prefix`.
pub open spec fn key_starts_with(prefix: Seq<u8>) -> spec_fn(RowView) -> bool {
    |r: RowView| has_prefix(r.0, prefix)
}

/// Selects the rows whose key is not `key`.
pub open spec fn key_is_not(key: Seq<u8>) -> spec_fn(RowView) -> bool {
    |r: RowView| r.0 != key
}

/// Selects the rows whose key lies outside of `from <= key < to`.
pub open spec fn key_outside(from: Seq<u8>, to: Seq<u8>) -> spec_fn(RowView) -> bool {
    |r: RowView| !(lex_le(from, r.0) && lex_lt(r.0, to))
}

/// The rows whose key sorts before `key`.
pub open spec fn rows_below(rows: Seq<RowView>, key: Seq<u8>) -> Seq<RowView> {
    rows.filter(key_below(key))
}

/// The rows whose key sorts after `key`.
pub open spec fn rows_above(rows: Seq<RowView>, key: Seq<u8>) -> Seq<RowView> {
    rows.filter(key_above(key))
}

/// The rows whose key is `key` or sorts after it.
pub open spec fn rows_from(rows: Seq<RowView>, key: Seq<u8>) -> Seq<RowView> {
    rows.filter(key_from(key))
}

/// The rows whose key starts with `prefix`.
pub open spec fn rows_with_prefix(rows: Seq<RowView>, prefix: Seq<u8>) -> Seq<RowView> {
    rows.filter(key_starts_with(prefix))
}

/// The rows whose key is not `key`.
pub open spec fn rows_without(rows: Seq<RowView>, key: Seq<u8>) -> Seq<RowView> {
    rows.filter(key_is_not(key))
}

/// The rows whose key lies outside of `from <= key < to`.
pub open spec fn rows_outside(rows: Seq<RowView>, from: Seq<u8>, to: Seq<u8>) -> Seq<RowView> {
    rows.filter(key_outside(from, to))
}

/// The rows after `key` has been set to `value`.
pub open spec fn rows_with(rows: Seq<RowView>, key: Seq<u8>, value: Seq<u8>) -> Seq<RowView> {
    rows_below(rows, key).push((key, value)) + rows_above(rows, key)
}

/// Whether some row has the key.
pub open spec fn has_key(rows: Seq<RowView>, key: Seq<u8>) -> bool {
    exists|i: int| 0 <= i < rows.len() && #[trigger] rows[i].0 == key
}

/// A position at which the key stands, where it is present.
pub open spec fn position_of(rows: Seq<RowView>, key: Seq<u8>) -> int {
    choose|i: int| 0 <= i < rows.len() && #[trigger] rows[i].0 == key
}

/// The value stored under `key`, if any.
pub open spec fn value_of(rows: Seq<RowView>, key: Seq<u8>) -> Option<Seq<u8>> {
    if has_key(rows, key) {
        Some(rows[position_of(rows, key)].1)
    } else {
        None
    }
}

/// A key that stands at `i` is present, and where the rows are ascending
/// `i` is its position.
pub proof fn lemma_position(rows: Seq<RowView>, key: Seq<u8>, i: int)
    requires
        0 <= i < rows.len(),
        rows[i].0 == key,
    ensures
        has_key(rows, key),
        0 <= position_of(rows, key) < rows.len(),
        rows[position_of(rows, key)].0 == key,
        ascending(rows) ==> position_of(rows, key) == i,
{
    if ascending(rows) {
        lemma_lex_trichotomy(rows[i].0, rows[position_of(rows, key)].0);
    }
}

/// Where the selected items are all but those at positions `p..q`, the
/// selection is the sequence with that stretch cut out.
pub proof fn lemma_filter_is_cut<A>(s: Seq<A>, pred: spec_fn(A) -> bool, p: int, q: int)
    requires
        0 <= p <= q <= s.len(),
        forall|i: int| 0 <= i < s.len() ==> (pred(#[trigger] s[i]) <==> (i < p || q <= i)),
    ensures
        s.filter(pred) == s.subrange(0, p) + s.subrange(q, s.len() as int),
    decreases s.len(),
{
    reveal(Seq::filter);
    let want = s.subrange(0, p) + s.subrange(q, s.len() as int);
    if s.len() == 0 {
        assert(want =~= s);
    } else {
        let rest = s.drop_last();
        let n = s.len() - 1;
        if q <= n {
            assert forall|i: int| 0 <= i < rest.len() implies (pred(#[trigger] rest[i]) <==> (i < p
                || q <= i)) by {
                assert(rest[i] == s[i]);
            }
            lemma_filter_is_cut(rest, pred, p, q);
            assert(pred(s[n]));
            assert((rest.subrange(0, p) + rest.subrange(q, n)).push(s.last()) =~= want);
        } else if p <= n {
            assert forall|i: int| 0 <= i < rest.len() implies (pred(#[trigger] rest[i]) <==> (i < p
                || n <= i)) by {
                assert(rest[i] == s[i]);
            }
            lemma_filter_is_cut(rest, pred, p, n);
            assert(!pred(s[n]));
            assert(rest.subrange(0, p) + rest.subrange(n, n) =~= want);
        } else {
            assert forall|i: int| 0 <= i < rest.len() implies (pred(#[trigger] rest[i]) <==> (i < n
                || n <= i)) by {
                assert(rest[i] == s[i]);
            }
            lemma_filter_is_cut(rest, pred, n, n);
            assert(pred(s[n]));
            assert((rest.subrange(0, n) + rest.subrange(n, n)).push(s.last()) =~= want);
        }
    }
}

/// Where the selected items are those at positions `a..b`, the selection is
/// that stretch of the sequence.
pub proof fn lemma_filter_is_block<A>(s: Seq<A>, pred: spec_fn(A) -> bool, a: int, b: int)
    requires
        0 <= a <= b <= s.len(),
        forall|i: int| 0 <= i < s.len() ==> (pred(#[trigger] s[i]) <==> a <= i < b),
    ensures
        s.filter(pred) == s.subrange(a, b),
    decreases s.len(),
{
    reveal(Seq::filter);
    if s.len() == 0 {
        assert(s.subrange(a, b) =~= s);
    } else {
        let rest = s.drop_last();
        let n = s.len() - 1;
        let b2 = if b > n {
            n
        } else {
            b
        };
        let a2 = if a > n {
            n
        } else {
            a
        };
        assert forall|i: int| 0 <= i < rest.len() implies (pred(#[trigger] rest[i]) <==> a2 <= i
            < b2) by {
            assert(rest[i] == s[i]);
        }
        lemma_filter_is_block(rest, pred, a2, b2);
        if b > n && a <= n {
            assert(pred(s[n]));
            assert(rest.subrange(a2, b2).push(s.last()) =~= s.subrange(a, b));
        } else {
            assert(!pred(s[n]));
            assert(rest.subrange(a2, b2) =~= s.subrange(a, b));
        }
    }
}

/// What a selection holds: exactly the selected items of the sequence; and a
/// selection from ascending rows is ascending.
pub proof fn lemma_filter_ascending(rows: Seq<RowView>, pred: spec_fn(RowView) -> bool)
    requires
        ascending(rows),
    ensures
        ascending(rows.filter(pred)),
        forall|i: int|
            0 <= i < rows.filter(pred).len() ==> rows.contains(#[trigger] rows.filter(pred)[i])
                && pred(rows.filter(pred)[i]),
        forall|i: int|
            0 <= i < rows.len() && pred(rows[i]) ==> rows.filter(pred).contains(#[trigger] rows[i]),
    decreases rows.len(),
{
    reveal(Seq::filter);
    if rows.len() > 0 {
        let rest = rows.drop_last();
        assert forall|i: int, j: int| 0 <= i < j < rest.len() implies lex_lt(
            #[trigger] rest[i].0,
            #[trigger] rest[j].0,
        ) by {
            assert(rest[i] == rows[i] && rest[j] == rows[j]);
        }
        lemma_filter_ascending(rest, pred);
        let f = rest.filter(pred);
        let g = rows.filter(pred);
        assert forall|i: int| 0 <= i < f.len() implies rows.contains(#[trigger] f[i]) && lex_lt(
            f[i].0,
            rows.last().0,
        ) by {
            assert(rest.contains(f[i]));
            let k = choose|k: int| 0 <= k < rest.len() && rest[k] == f[i];
            assert(rows[k] == f[i]);
        }
        assert forall|i: int| 0 <= i < g.len() implies rows.contains(#[trigger] g[i]) && pred(
            g[i],
        ) by {
            if i < f.len() {
                assert(g[i] == f[i]);
            } else {
                assert(g[i] == rows[rows.len() - 1]);
            }
        }
        assert forall|i: int| 0 <= i < rows.len() && pred(rows[i]) implies g.contains(
            #[trigger] rows[i],
        ) by {
            if i < rest.len() {
                assert(rest[i] == rows[i]);
                assert(f.contains(rest[i]));
                let k = choose|k: int| 0 <= k < f.len() && f[k] == rest[i];
                assert(g[k] == rows[i]);
            } else {
                assert(g[g.len() - 1] == rows[i]);
            }
        }
    }
}

/// Position `p` parts the rows into those below `key` and the others.
pub open spec fn parts_at(rows: Seq<RowView>, key: Seq<u8>, p: int) -> bool {
    &&& 0 <= p <= rows.len()
    &&& forall|i: int| 0 <= i < p ==> lex_lt(#[trigger] rows[i].0, key)
    &&& forall|i: int| p <= i < rows.len() ==> lex_le(key, #[trigger] rows[i].0)
}

/// Where the rows part at `p`, the two selections are the two parts.
pub proof fn lemma_parts(rows: Seq<RowView>, key: Seq<u8>, p: int)
    requires
        parts_at(rows, key, p),
    ensures
        rows_below(rows, key) == rows.subrange(0, p),
        rows_from(rows, key) == rows.subrange(p, rows.len() as int),
{
    assert forall|i: int| 0 <= i < rows.len() implies (key_below(key)(#[trigger] rows[i]) <==> 0
        <= i < p) by {
        lemma_lex_trichotomy(rows[i].0, key);
    }
    lemma_filter_is_block(rows, key_below(key), 0, p);
    assert forall|i: int| 0 <= i < rows.len() implies (key_from(key)(#[trigger] rows[i]) <==> p
        <= i < rows.len()) by {
        lemma_lex_trichotomy(rows[i].0, key);
    }
    lemma_filter_is_block(rows, key_from(key), p, rows.len() as int);
}

/// In ascending rows that part at `p`, the key is present exactly when it
/// stands at `p`, and the rows after it (or from `p`, where it is absent)
/// are those above the key.
pub proof fn lemma_hit(rows: Seq<RowView>, key: Seq<u8>, p: int)
    requires
        ascending(rows),
        parts_at(rows, key, p),
    ensures
        has_key(rows, key) == (p < rows.len() && rows[p].0 == key),
        has_key(rows, key) ==> value_of(rows, key) == Some(rows[p].1),
        rows_above(rows, key) == rows.subrange(
            if has_key(rows, key) {
                p + 1
            } else {
                p
            },
            rows.len() as int,
        ),
{
    if has_key(rows, key) {
        let i = position_of(rows, key);
        lemma_lex_trichotomy(rows[i].0, key);
        if i > p {
            lemma_lex_trichotomy(rows[p].0, key);
            lemma_lex_le_transitive(key, rows[p].0, rows[i].0);
        }
        assert(i == p);
    }
    let q = if has_key(rows, key) {
        p + 1
    } else {
        p
    };
    assert forall|i: int| 0 <= i < rows.len() implies (key_above(key)(#[trigger] rows[i]) <==> q
        <= i < rows.len()) by {
        lemma_lex_trichotomy(rows[i].0, key);
        if i >= q {
            if has_key(rows, key) {
                assert(lex_lt(rows[p].0, rows[i].0));
            }
        }
    }
    lemma_filter_is_block(rows, key_above(key), q, rows.len() as int);
}

/// The rows with the stretch `p..q` replaced by `middle` are ascending where
/// the keys of `middle` lie between those before `p` and those from `q` on.
proof fn lemma_spliced_ascending(rows: Seq<RowView>, key: Seq<u8>, value: Seq<u8>, p: int, q: int)
    requires
        ascending(rows),
        0 <= p <= q <= rows.len(),
        forall|i: int| 0 <= i < p ==> lex_lt(#[trigger] rows[i].0, key),
        forall|i: int| q <= i < rows.len() ==> lex_lt(key, #[trigger] rows[i].0),
    ensures
        ascending(rows.subrange(0, p).push((key, value)) + rows.subrange(q, rows.len() as int)),
{
    let after = rows.subrange(0, p).push((key, value)) + rows.subrange(q, rows.len() as int);
    assert forall|i: int, j: int| 0 <= i < j < after.len() implies lex_lt(
        #[trigger] after[i].0,
        #[trigger] after[j].0,
    ) by {
        if i < p {
            assert(after[i] == rows[i]);
        } else if i > p {
            assert(after[i] == rows[i - 1 - p + q]);
        }
        if j < p {
            assert(after[j] == rows[j]);
        } else if j > p {
            assert(after[j] == rows[j - 1 - p + q]);
        }
    }
}

/// The position of the first row whose key is `key` or sorts after it; the
/// number of rows where there is none.
pub(crate) fn seek(rows: &Vec<Row>, key: &[u8]) -> (p: usize)
    requires
        ascending(row_views(rows@)),
    ensures
        parts_at(row_views(rows@), key@, p as int),
        rows_below(row_views(rows@), key@) == row_views(rows@).subrange(0, p as int),
        rows_from(row_views(rows@), key@) == row_views(rows@).subrange(p as int, rows.len() as int),
{
    let ghost views = row_views(rows@);
    let mut lo: usize = 0;
    let mut hi: usize = rows.len();
    while lo < hi
        invariant
            views == row_views(rows@),
            ascending(views),
            lo <= hi <= rows.len(),
            forall|i: int| 0 <= i < lo ==> lex_lt(#[trigger] views[i].0, key@),
            forall|i: int| hi <= i < rows.len() ==> lex_le(key@, #[trigger] views[i].0),
        decreases hi - lo,
    {
        let mid: usize = lo + (hi - lo) / 2;
        assert(views[mid as int].0 == rows@[mid as int].key@);
        if bytes_lt(rows[mid].key.as_slice(), key) {
            assert forall|i: int| 0 <= i < mid + 1 implies lex_lt(#[trigger] views[i].0, key@) by {
                if i < mid {
                    lemma_lex_transitive(views[i].0, views[mid as int].0, key@);
                }
            }
            lo = mid + 1;
        } else {
            assert forall|i: int| mid <= i < rows.len() implies lex_le(
                key@,
                #[trigger] views[i].0,
            ) by {
                lemma_lex_trichotomy(views[mid as int].0, key@);
                if i > mid {
                    lemma_lex_le_transitive(key@, views[mid as int].0, views[i].0);
                }
            }
            hi = mid;
        }
    }
    proof {
        lemma_parts(views, key@, lo as int);
    }
    lo
}

/// Whether the row at position `p` has the key, where the rows part at `p`.
fn hit(rows: &Vec<Row>, p: usize, key: &[u8]) -> (r: bool)
    requires
        ascending(row_views(rows@)),
        parts_at(row_views(rows@), key@, p as int),
    ensures
        r == has_key(row_views(rows@), key@),
        r ==> p < rows.len() && row_views(rows@)[p as int].0 == key@,
{
    proof {
        lemma_hit(row_views(rows@), key@, p as int);
        if p < rows.len() {
            assert(row_views(rows@)[p as int].0 == rows@[p as int].key@);
        }
    }
    p < rows.len() && bytes_eq(rows[p].key.as_slice(), key)
}

/// The value stored under `key`, if any.
pub(crate) fn get(rows: &Vec<Row>, key: &[u8]) -> (r: Option<Vec<u8>>)
    requires
        ascending(row_views(rows@)),
    ensures
        r is Some == has_key(row_views(rows@), key@),
        r is Some ==> Some(r->0@) == value_of(row_views(rows@), key@),
{
    let p: usize = seek(rows, key);
    if hit(rows, p, key) {
        proof {
            lemma_hit(row_views(rows@), key@, p as int);
            assert(row_views(rows@)[p as int].1 == rows@[p as int].value@);
        }
        Some(rows[p].value.clone())
    } else {
        None
    }
}

/// Whether some row has the key.
pub(crate) fn contains(rows: &Vec<Row>, key: &[u8]) -> (r: bool)
    requires
        ascending(row_views(rows@)),
    ensures
        r == has_key(row_views(rows@), key@),
{
    let p: usize = seek(rows, key);
    hit(rows, p, key)
}

/// Sets `key` to `value`: the row is replaced where the key is present and
/// put in its place in the order where it is not.
pub(crate) fn put(rows: &mut Vec<Row>, key: Vec<u8>, value: Vec<u8>)
    requires
        ascending(row_views(old(rows)@)),
    ensures
        ascending(row_views(final(rows)@)),
        row_views(final(rows)@) == rows_with(row_views(old(rows)@), key@, value@),
{
    let ghost before = row_views(rows@);
    let p: usize = seek(rows, key.as_slice());
    let found: bool = hit(rows, p, key.as_slice());
    let ghost q: int = if found {
        p + 1
    } else {
        p as int
    };
    proof {
        lemma_hit(before, key@, p as int);
        lemma_spliced_ascending(before, key@, value@, p as int, q);
    }
    let row: Row = Row { key, value };
    if found {
        rows.set(p, row);
    } else {
        rows.insert(p, row);
    }
    proof {
        let after = row_views(rows@);
        let want = before.subrange(0, p as int).push((key@, value@)) + before.subrange(
            q,
            before.len() as int,
        );
        assert(after.len() == want.len());
        assert forall|i: int| 0 <= i < after.len() implies after[i] == want[i] by {
            assert(after[i] == rows@[i]@);
            if i < p {
                assert(before[i] == old(rows)@[i]@);
            } else if i > p {
                assert(before[i - 1 - p + q] == old(rows)@[i - 1 - p + q]@);
            }
        }
        assert(after =~= want);
    }
}

/// Removes the row with the key, if there is one.
pub(crate) fn remove(rows: &mut Vec<Row>, key: &[u8])
    requires
        ascending(row_views(old(rows)@)),
    ensures
        ascending(row_views(final(rows)@)),
        row_views(final(rows)@) == rows_without(row_views(old(rows)@), key@),
{
    let ghost before = row_views(rows@);
    let p: usize = seek(rows, key);
    let found: bool = hit(rows, p, key);
    let ghost q: int = if found {
        p + 1
    } else {
        p as int
    };
    proof {
        lemma_hit(before, key@, p as int);
        lemma_filter_ascending(before, key_is_not(key@));
        assert forall|i: int| 0 <= i < before.len() implies (key_is_not(key@)(#[trigger] before[i])
            <==> (i < p || q <= i)) by {
            lemma_lex_trichotomy(before[i].0, key@);
            if before[i].0 == key@ {
                lemma_position(before, key@, i);
            }
        }
        lemma_filter_is_cut(before, key_is_not(key@), p as int, q);
    }
    if found {
        rows.remove(p);
    }
    proof {
        let after = row_views(rows@);
        let want = before.subrange(0, p as int) + before.subrange(q, before.len() as int);
        assert(after.len() == want.len());
        assert forall|i: int| 0 <= i < after.len() implies after[i] == want[i] by {
            assert(after[i] == rows@[i]@);
            if i < p {
                assert(before[i] == old(rows)@[i]@);
            } else {
                assert(before[i - p + q] == old(rows)@[i - p + q]@);
            }
        }
        assert(after =~= want);
    }
}

/// Removes every row with `from <= key < to`.
pub(crate) fn remove_range(rows: &mut Vec<Row>, from: &[u8], to: &[u8])
    requires
        ascending(row_views(old(rows)@)),
    ensures
        ascending(row_views(final(rows)@)),
        row_views(final(rows)@) == rows_outside(row_views(old(rows)@), from@, to@),
{
    let ghost before = row_views(rows@);
    let p: usize = seek(rows, from);
    let q: usize = seek(rows, to);
    let ghost q2: int = if p < q {
        q as int
    } else {
        p as int
    };
    proof {
        lemma_filter_ascending(before, key_outside(from@, to@));
        assert forall|i: int| 0 <= i < before.len() implies (key_outside(from@, to@)(
            #[trigger] before[i],
        ) <==> (i < p || q2 <= i)) by {
            lemma_lex_trichotomy(before[i].0, from@);
            lemma_lex_trichotomy(before[i].0, to@);
        }
        lemma_filter_is_cut(before, key_outside(from@, to@), p as int, q2);
    }
    if p < q {
        let mut tail: Vec<Row> = rows.split_off(q);
        rows.truncate(p);
        rows.append(&mut tail);
    }
    proof {
        let after = row_views(rows@);
        let want = before.subrange(0, p as int) + before.subrange(q2, before.len() as int);
        assert(after.len() == want.len());
        assert forall|i: int| 0 <= i < after.len() implies after[i] == want[i] by {
            assert(after[i] == rows@[i]@);
            if i < p {
                assert(before[i] == old(rows)@[i]@);
            } else {
                assert(before[i - p + q2] == old(rows)@[i - p + q2]@);
            }
        }
        assert(after =~= want);
    }
}

/// The rows whose key starts with `prefix`, in key order. The walk begins at
/// the first key that is not below the prefix and ends at the first key that
/// does not start with it.
pub(crate) fn scan_prefix(rows: &Vec<Row>, prefix: &[u8]) -> (found: Vec<Row>)
    requires
        ascending(row_views(rows@)),
    ensures
        row_views(found@) == rows_with_prefix(row_views(rows@), prefix@),
{
    let ghost views = row_views(rows@);
    let start: usize = seek(rows, prefix);
    let mut found: Vec<Row> = Vec::new();
    let mut i: usize = start;
    while i < rows.len() && bytes_start_with(rows[i].key.as_slice(), prefix)
        invariant
            views == row_views(rows@),
            start <= i <= rows.len(),
            found@.len() == i - start,
            forall|k: int| 0 <= k < found@.len() ==> (#[trigger] found@[k])@ == views[start + k],
            forall|k: int| start <= k < i ==> has_prefix(#[trigger] views[k].0, prefix@),
        decreases rows.len() - i,
    {
        assert(views[i as int] == rows@[i as int]@);
        found.push(rows[i].clone());
        i += 1;
    }
    proof {
        if i < rows.len() {
            assert(views[i as int].0 == rows@[i as int].key@);
        }
        assert forall|k: int| 0 <= k < views.len() implies (key_starts_with(prefix@)(
            #[trigger] views[k],
        ) <==> start <= k < i) by {
            if has_prefix(views[k].0, prefix@) {
                lemma_prefix_is_lower_bound(views[k].0, prefix@);
                lemma_lex_trichotomy(views[k].0, prefix@);
                if k > i {
                    lemma_prefix_block(prefix@, views[i as int].0, views[k].0);
                }
            }
        }
        lemma_filter_is_block(views, key_starts_with(prefix@), start as int, i as int);
        assert(row_views(found@) =~= views.subrange(start as int, i as int));
    }
    found
}

/// A key that was set holds the value it was set to, and the other keys
/// hold what they held.
pub proof fn lemma_value_after_put(rows: Seq<RowView>, key: Seq<u8>, value: Seq<u8>, other: Seq<u8>)
    requires
        ascending(rows),
    ensures
        has_key(rows_with(rows, key, value), key),
        value_of(rows_with(rows, key, value), key) == Some(value),
        other != key ==> has_key(rows_with(rows, key, value), other) == has_key(rows, other),
        other != key ==> value_of(rows_with(rows, key, value), other) == value_of(rows, other),
{
    let below = rows_below(rows, key);
    let above = rows_above(rows, key);
    let after = rows_with(rows, key, value);
    let at = below.len() as int;
    lemma_filter_ascending(rows, key_below(key));
    lemma_filter_ascending(rows, key_above(key));
    assert(after[at].0 == key);
    assert forall|i: int| 0 <= i < after.len() && i != at implies #[trigger] after[i].0 != key
        && rows.contains(after[i]) by {
        if i < at {
            assert(after[i] == below[i]);
            lemma_lex_trichotomy(below[i].0, key);
        } else {
            assert(after[i] == above[i - at - 1]);
            lemma_lex_trichotomy(above[i - at - 1].0, key);
        }
    }
    lemma_position(after, key, at);
    assert(position_of(after, key) == at);
    if other != key {
        if has_key(rows, other) {
            let i = position_of(rows, other);
            lemma_lex_trichotomy(other, key);
            if lex_lt(other, key) {
                assert(below.contains(rows[i]));
                let k = choose|k: int| 0 <= k < below.len() && below[k] == rows[i];
                assert(after[k].0 == other);
                lemma_position(after, other, k);
            } else {
                assert(above.contains(rows[i]));
                let k = choose|k: int| 0 <= k < above.len() && above[k] == rows[i];
                assert(after[k + at + 1].0 == other);
                lemma_position(after, other, k + at + 1);
            }
            let a = position_of(after, other);
            assert(rows.contains(after[a]));
            let b = choose|b: int| 0 <= b < rows.len() && rows[b] == after[a];
            lemma_position(rows, other, b);
        } else {
            if has_key(after, other) {
                let a = position_of(after, other);
                assert(rows.contains(after[a]));
                let b = choose|b: int| 0 <= b < rows.len() && rows[b] == after[a];
                lemma_position(rows, other, b);
            }
        }
    }
}

/// What a selection holds under a key: what the rows held, where the
/// selection keeps the key at all.
pub proof fn lemma_value_in_selection(
    rows: Seq<RowView>,
    pred: spec_fn(RowView) -> bool,
    key: Seq<u8>,
)
    requires
        ascending(rows),
    ensures
        has_key(rows.filter(pred), key) ==> has_key(rows, key) && value_of(rows.filter(pred), key)
            == value_of(rows, key),
        has_key(rows, key) && (forall|r: RowView| r.0 == key ==> #[trigger] pred(r)) ==> has_key(
            rows.filter(pred),
            key,
        ),
        (forall|r: RowView| r.0 == key ==> !#[trigger] pred(r)) ==> !has_key(
            rows.filter(pred),
            key,
        ),
{
    let after = rows.filter(pred);
    lemma_filter_ascending(rows, pred);
    if has_key(after, key) {
        let a = position_of(after, key);
        assert(rows.contains(after[a]));
        let b = choose|b: int| 0 <= b < rows.len() && rows[b] == after[a];
        lemma_position(rows, key, b);
        assert(pred(after[a]));
    }
    if has_key(rows, key) && (forall|r: RowView| r.0 == key ==> #[trigger] pred(r)) {
        let i = position_of(rows, key);
        assert(pred(rows[i]));
        assert(after.contains(rows[i]));
        let k = choose|k: int| 0 <= k < after.len() && after[k] == rows[i];
        lemma_position(after, key, k);
    }
}

/// A key that was removed is gone, and the other keys hold what they held.
pub proof fn lemma_value_after_remove(rows: Seq<RowView>, key: Seq<u8>, other: Seq<u8>)
    requires
        ascending(rows),
    ensures
        !has_key(rows_without(rows, key), key),
        other != key ==> has_key(rows_without(rows, key), other) == has_key(rows, other),
        other != key ==> value_of(rows_without(rows, key), other) == value_of(rows, other),
{
    lemma_value_in_selection(rows, key_is_not(key), key);
    lemma_value_in_selection(rows, key_is_not(key), other);
}

} // verus!
