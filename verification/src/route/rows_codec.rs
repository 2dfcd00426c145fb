//! How the rows of the application are laid out in a snapshot: their
//! number, then each row as the length of its key, the key, the length of
//! its value, and the value.

use vstd::prelude::*;
use vstd::slice::{slice_subrange, slice_to_vec};
use crate::raft::codec::{append_u64, lemma_u64_after, read_u64, u64_at};
use crate::raft::index_key::{be_bytes, lemma_be_round_trip};
use crate::storage::rows::{row_views, Row, RowView};

verus! {

/// The bytes of one row.
pub open spec fn row_bytes(r: RowView) -> Seq<u8> {
    be_bytes(r.0.len() as u64) + r.0 + be_bytes(r.1.len() as u64) + r.1
}

/// The bytes of rows, one after the other.
pub open spec fn rows_body(rows: Seq<RowView>) -> Seq<u8>
    decreases rows.len(),
{
    if rows.len() == 0 {
        Seq::empty()
    } else {
        row_bytes(rows[0]) + rows_body(rows.drop_first())
    }
}

/// The bytes of a list of rows.
pub open spec fn rows_bytes(rows: Seq<RowView>) -> Seq<u8> {
    be_bytes(rows.len() as u64) + rows_body(rows)
}

/// The `n` rows that the bytes hold, one after the other and nothing else;
/// `None` where the bytes are cut short or go on.
pub open spec fn parse_body(b: Seq<u8>, n: nat) -> Option<Seq<RowView>>
    decreases n,
{
    if n == 0 {
        if b.len() == 0 {
            Some(Seq::empty())
        } else {
            None
        }
    } else if b.len() < 16 {
        None
    } else {
        let key_len = u64_at(b, 0) as int;
        if key_len > b.len() - 16 {
            None
        } else {
            let value_len = u64_at(b, 8 + key_len) as int;
            if value_len > b.len() - 16 - key_len {
                None
            } else {
                let row = (
                    b.subrange(8, 8 + key_len),
                    b.subrange(16 + key_len, 16 + key_len + value_len),
                );
                match parse_body(
                    b.subrange(16 + key_len + value_len, b.len() as int),
                    (n - 1) as nat,
                ) {
                    Some(rest) => Some(seq![row] + rest),
                    None => None,
                }
            }
        }
    }
}

/// The rows that a snapshot holds, if it holds a list of rows.
pub open spec fn parse_rows(b: Seq<u8>) -> Option<Seq<RowView>> {
    if b.len() < 8 {
        None
    } else {
        parse_body(b.subrange(8, b.len() as int), u64_at(b, 0) as nat)
    }
}

/// Whether the lengths of the rows can be written down. On a machine of 64
/// bits they always can.
pub open spec fn rows_fit(rows: Seq<RowView>) -> bool {
    &&& rows.len() <= u64::MAX
    &&& forall|i: int|
        0 <= i < rows.len() ==> (#[trigger] rows[i]).0.len() <= u64::MAX && rows[i].1.len()
            <= u64::MAX
}

/// The bytes of rows with one more row are the bytes of the rows and then
/// the bytes of the row.
pub proof fn lemma_body_push(rows: Seq<RowView>, r: RowView)
    ensures
        rows_body(rows.push(r)) == rows_body(rows) + row_bytes(r),
    decreases rows.len(),
{
    let more = rows.push(r);
    assert(more[0] == if rows.len() == 0 {
        r
    } else {
        rows[0]
    });
    if rows.len() == 0 {
        assert(more.drop_first() =~= Seq::<RowView>::empty());
        assert(rows_body(more.drop_first()) =~= Seq::<u8>::empty());
        assert(rows_body(rows) =~= Seq::<u8>::empty());
        assert(rows_body(more) =~= row_bytes(r) + Seq::<u8>::empty());
        assert(rows_body(more) =~= rows_body(rows) + row_bytes(r));
    } else {
        lemma_body_push(rows.drop_first(), r);
        assert(more.drop_first() =~= rows.drop_first().push(r));
        assert(rows_body(more) == row_bytes(rows[0]) + rows_body(more.drop_first()));
        assert(rows_body(rows) == row_bytes(rows[0]) + rows_body(rows.drop_first()));
        assert(rows_body(more) =~= rows_body(rows) + row_bytes(r));
    }
}

/// A row that was written before `tail` is read first, and then what `tail`
/// holds.
pub proof fn lemma_parse_first(r: RowView, tail: Seq<u8>, rest: Seq<RowView>, n: nat)
    requires
        r.0.len() <= u64::MAX,
        r.1.len() <= u64::MAX,
        parse_body(tail, n) == Some(rest),
    ensures
        parse_body(row_bytes(r) + tail, n + 1) == Some(seq![r] + rest),
{
    let b = row_bytes(r) + tail;
    let e = Seq::<u8>::empty();
    let key_len = r.0.len() as int;
    let value_len = r.1.len() as int;
    lemma_u64_after(e, r.0.len() as u64, r.0 + be_bytes(r.1.len() as u64) + r.1 + tail);
    assert(b =~= e + be_bytes(r.0.len() as u64) + (r.0 + be_bytes(r.1.len() as u64) + r.1 + tail));
    lemma_u64_after(be_bytes(r.0.len() as u64) + r.0, r.1.len() as u64, r.1 + tail);
    assert(b =~= (be_bytes(r.0.len() as u64) + r.0) + be_bytes(r.1.len() as u64) + (r.1 + tail));
    lemma_be_round_trip(r.0.len() as u64);
    lemma_be_round_trip(r.1.len() as u64);
    assert(b.len() == 16 + key_len + value_len + tail.len());
    assert(u64_at(b, 0) == key_len);
    assert(u64_at(b, 8 + key_len) == value_len);
    assert(b.subrange(8, 8 + key_len) =~= r.0);
    assert(b.subrange(16 + key_len, 16 + key_len + value_len) =~= r.1);
    assert(b.subrange(16 + key_len + value_len, b.len() as int) =~= tail);
    assert((n + 1 - 1) as nat == n);
}

/// Rows are read back from their bytes.
pub proof fn lemma_body_round_trip(rows: Seq<RowView>)
    requires
        rows_fit(rows),
    ensures
        parse_body(rows_body(rows), rows.len()) == Some(rows),
    decreases rows.len(),
{
    if rows.len() > 0 {
        let rest = rows.drop_first();
        assert forall|i: int| 0 <= i < rest.len() implies (#[trigger] rest[i]).0.len() <= u64::MAX
            && rest[i].1.len() <= u64::MAX by {
            assert(rest[i] == rows[i + 1]);
        }
        lemma_body_round_trip(rest);
        lemma_parse_first(rows[0], rows_body(rest), rest, rest.len());
        assert(seq![rows[0]] + rest =~= rows);
    } else {
        assert(rows =~= Seq::<RowView>::empty());
    }
}

/// A list of rows is read back from its bytes.
pub proof fn lemma_rows_round_trip(rows: Seq<RowView>)
    requires
        rows_fit(rows),
    ensures
        parse_rows(rows_bytes(rows)) == Some(rows),
{
    let b = rows_bytes(rows);
    lemma_body_round_trip(rows);
    lemma_be_round_trip(rows.len() as u64);
    assert(b.subrange(0, 8) =~= be_bytes(rows.len() as u64));
    assert(b.subrange(8, b.len() as int) =~= rows_body(rows));
}

/// The bytes of a list of rows.
pub fn encode_rows(rows: &Vec<Row>) -> (bytes: Vec<u8>)
    ensures
        bytes@ == rows_bytes(row_views(rows@)),
        rows_fit(row_views(rows@)),
{
    let ghost views = row_views(rows@);
    let mut bytes: Vec<u8> = Vec::new();
    append_u64(&mut bytes, rows.len() as u64);
    let ghost head = bytes@;
    let mut i: usize = 0;
    assert(views.subrange(0, 0) =~= Seq::<RowView>::empty());
    while i < rows.len()
        invariant
            i <= rows.len(),
            views == row_views(rows@),
            bytes@ == head + rows_body(views.subrange(0, i as int)),
        decreases rows.len() - i,
    {
        let ghost before = bytes@;
        append_u64(&mut bytes, rows[i].key.len() as u64);
        bytes.extend_from_slice(rows[i].key.as_slice());
        append_u64(&mut bytes, rows[i].value.len() as u64);
        bytes.extend_from_slice(rows[i].value.as_slice());
        proof {
            let done = views.subrange(0, i as int);
            assert(views[i as int] == rows@[i as int]@);
            lemma_body_push(done, views[i as int]);
            assert(done.push(views[i as int]) =~= views.subrange(0, i + 1));
            assert(bytes@ =~= before + row_bytes(views[i as int]));
        }
        i += 1;
    }
    proof {
        assert(views.subrange(0, i as int) =~= views);
        assert(bytes@ =~= rows_bytes(views));
        assert forall|k: int| 0 <= k < views.len() implies (#[trigger] views[k]).0.len() <= u64::MAX
            && views[k].1.len() <= u64::MAX by {
            assert(views[k] == rows@[k]@);
            assert(views[k].0.len() == rows@[k].key.len());
            assert(views[k].1.len() == rows@[k].value.len());
        }
    }
    bytes
}

/// What is left to read: `n` rows in the bytes from `at` on. Where they are
/// read, the rows read so far and these are what the whole snapshot holds.
spec fn rest_of(b: Seq<u8>, at: int, n: nat) -> Option<Seq<RowView>> {
    parse_body(b.subrange(at, b.len() as int), n)
}

/// The rows that a snapshot holds, if it holds a list of rows.
pub fn decode_rows(bytes: &[u8]) -> (r: Option<Vec<Row>>)
    ensures
        r is Some == parse_rows(bytes@) is Some,
        r is Some ==> Some(row_views(r->0@)) == parse_rows(bytes@),
{
    let len: usize = bytes.len();
    if len < 8 {
        return None;
    }
    let count: u64 = read_u64(bytes, 0);
    let mut rows: Vec<Row> = Vec::new();
    let mut at: usize = 8;
    let mut left: u64 = count;
    while left > 0
        invariant
            len == bytes@.len(),
            8 <= at <= len,
            parse_rows(bytes@) == (match rest_of(bytes@, at as int, left as nat) {
                Some(rest) => Some(row_views(rows@) + rest),
                None => None,
            }),
        decreases left,
    {
        let ghost b = bytes@.subrange(at as int, len as int);
        if len - at < 16 {
            return None;
        }
        let key_len: u64 = read_u64(bytes, at);
        assert(bytes@.subrange(at as int, at + 8) =~= b.subrange(0, 8));
        if key_len > (len - at - 16) as u64 {
            return None;
        }
        let key_len: usize = key_len as usize;
        let value_len: u64 = read_u64(bytes, at + 8 + key_len);
        assert(bytes@.subrange(at + 8 + key_len, at + 16 + key_len) =~= b.subrange(
            8 + key_len,
            16 + key_len,
        ));
        if value_len > (len - at - 16 - key_len) as u64 {
            return None;
        }
        let value_len: usize = value_len as usize;
        let key: Vec<u8> = slice_to_vec(slice_subrange(bytes, at + 8, at + 8 + key_len));
        let value: Vec<u8> = slice_to_vec(
            slice_subrange(bytes, at + 16 + key_len, at + 16 + key_len + value_len),
        );
        proof {
            let next = at + 16 + key_len + value_len;
            assert(key@ =~= b.subrange(8, 8 + key_len));
            assert(value@ =~= b.subrange(16 + key_len, 16 + key_len + value_len));
            assert(b.subrange(16 + key_len + value_len, b.len() as int) =~= bytes@.subrange(
                next,
                len as int,
            ));
            let row = (key@, value@);
            match rest_of(bytes@, next, (left - 1) as nat) {
                Some(rest) => {
                    assert(row_views(rows@.push(Row { key, value })) + rest =~= row_views(rows@) + (
                    seq![row] + rest));
                },
                None => {},
            }
        }
        rows.push(Row { key, value });
        at = at + 16 + key_len + value_len;
        left = left - 1;
    }
    if at != len {
        return None;
    }
    proof {
        assert(bytes@.subrange(at as int, len as int) =~= Seq::<u8>::empty());
        assert(row_views(rows@) + Seq::<RowView>::empty() =~= row_views(rows@));
    }
    Some(rows)
}

} // verus!
