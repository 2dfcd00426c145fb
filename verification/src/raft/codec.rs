//! How the records are laid out in the bytes of a row.
//!
//! Every number takes eight bytes, most significant first. An optional log
//! id takes a tag byte and a log id; a list takes its length and its items;
//! what has no fixed length and comes last takes the rest of the row.

use vstd::prelude::*;
use vstd::slice::{slice_subrange, slice_to_vec};
use vstd::utf8::{decode_utf8, encode_utf8, valid_utf8};
use crate::raft::index_key::{be_bytes, be_value, bin_to_id, lemma_be_round_trip};
use crate::raft::types::{
    Entry, EntryView, LeaderId, LogId, MembershipView, SnapshotMeta, SnapshotMetaView,
    SnapshotView, StoredMembership, StoredSnapshot, Vote,
};

verus! {

/// The number held by the eight bytes of `b` that start at `at`.
pub open spec fn u64_at(b: Seq<u8>, at: int) -> u64 {
    be_value(b.subrange(at, at + 8))
}

/// The bytes of a log id: term, node and index.
pub open spec fn log_id_bytes(id: LogId) -> Seq<u8> {
    be_bytes(id.leader_id.term) + be_bytes(id.leader_id.node_id) + be_bytes(id.index)
}

/// The log id held by the 24 bytes of `b` that start at `at`.
pub open spec fn log_id_at(b: Seq<u8>, at: int) -> LogId {
    LogId {
        leader_id: LeaderId { term: u64_at(b, at), node_id: u64_at(b, at + 8) },
        index: u64_at(b, at + 16),
    }
}

/// The log id that a row of 24 bytes holds.
pub open spec fn parse_log_id(b: Seq<u8>) -> Option<LogId> {
    if b.len() == 24 {
        Some(log_id_at(b, 0))
    } else {
        None
    }
}

/// The bytes of an optional log id: a tag, then the id, or zeros in its
/// place.
pub open spec fn opt_log_id_bytes(id: Option<LogId>) -> Seq<u8> {
    match id {
        Some(id) => seq![1u8] + log_id_bytes(id),
        None => seq![0u8] + Seq::new(24, |i: int| 0u8),
    }
}

/// The optional log id held by the 25 bytes of `b` that start at `at`;
/// `None` where the tag is neither 0 nor 1.
pub open spec fn opt_log_id_at(b: Seq<u8>, at: int) -> Option<Option<LogId>> {
    if b[at] == 0 {
        Some(None)
    } else if b[at] == 1 {
        Some(Some(log_id_at(b, at + 1)))
    } else {
        None
    }
}

/// The optional log id that a row of 25 bytes holds.
pub open spec fn parse_opt_log_id(b: Seq<u8>) -> Option<Option<LogId>> {
    if b.len() == 25 {
        opt_log_id_at(b, 0)
    } else {
        None
    }
}

/// The bytes of a vote: term, node, and one byte that tells whether the
/// leader is established.
pub open spec fn vote_bytes(vote: Vote) -> Seq<u8> {
    be_bytes(vote.leader_id.term) + be_bytes(vote.leader_id.node_id) + seq![
        if vote.committed {
            1u8
        } else {
            0u8
        },
    ]
}

/// The vote that a row of 17 bytes holds.
pub open spec fn parse_vote(b: Seq<u8>) -> Option<Vote> {
    if b.len() == 17 && b[16] <= 1 {
        Some(
            Vote {
                leader_id: LeaderId { term: u64_at(b, 0), node_id: u64_at(b, 8) },
                committed: b[16] == 1,
            },
        )
    } else {
        None
    }
}

/// The bytes of a log entry: its log id, then the payload.
pub open spec fn entry_bytes(e: EntryView) -> Seq<u8> {
    log_id_bytes(e.log_id) + e.payload
}

/// The log entry that a row holds.
pub open spec fn parse_entry(b: Seq<u8>) -> Option<EntryView> {
    if b.len() >= 24 {
        Some(EntryView { log_id: log_id_at(b, 0), payload: b.subrange(24, b.len() as int) })
    } else {
        None
    }
}

/// The bytes of a list of numbers, one after the other.
pub open spec fn u64s_bytes(v: Seq<u64>) -> Seq<u8>
    decreases v.len(),
{
    if v.len() == 0 {
        Seq::empty()
    } else {
        u64s_bytes(v.drop_last()) + be_bytes(v.last())
    }
}

/// The `n` numbers held by the bytes of `b` that start at `at`.
pub open spec fn u64s_at(b: Seq<u8>, at: int, n: nat) -> Seq<u64> {
    Seq::new(n, |i: int| u64_at(b, at + 8 * i))
}

/// The bytes of a snapshot: the last log id, the membership (its log id,
/// the number of voters, the voters), the id (its length in bytes, then its
/// UTF-8 bytes), and the data.
pub open spec fn snapshot_bytes(s: SnapshotView) -> Seq<u8> {
    opt_log_id_bytes(s.meta.last_log_id) + opt_log_id_bytes(s.meta.last_membership.log_id)
        + be_bytes(s.meta.last_membership.voters.len() as u64) + u64s_bytes(
        s.meta.last_membership.voters,
    ) + be_bytes(encode_utf8(s.meta.snapshot_id).len() as u64) + encode_utf8(s.meta.snapshot_id)
        + s.data
}

/// The snapshot that a row holds; `None` where the row is cut short, a tag
/// is unknown, or the id is not UTF-8.
pub open spec fn parse_snapshot(b: Seq<u8>) -> Option<SnapshotView> {
    if b.len() < 66 {
        None
    } else {
        let voters = u64_at(b, 50) as int;
        if voters > (b.len() - 66) / 8 {
            None
        } else {
            let id_at = 58 + 8 * voters;
            let id_len = u64_at(b, id_at) as int;
            if id_len > b.len() - id_at - 8 {
                None
            } else {
                let id = b.subrange(id_at + 8, id_at + 8 + id_len);
                match (opt_log_id_at(b, 0), opt_log_id_at(b, 25)) {
                    (Some(last_log_id), Some(log_id)) => if valid_utf8(id) {
                        Some(
                            SnapshotView {
                                meta: SnapshotMetaView {
                                    last_log_id,
                                    last_membership: MembershipView {
                                        log_id,
                                        voters: u64s_at(b, 58, voters as nat),
                                    },
                                    snapshot_id: decode_utf8(id),
                                },
                                data: b.subrange(id_at + 8 + id_len, b.len() as int),
                            },
                        )
                    } else {
                        None
                    },
                    _ => None,
                }
            }
        }
    }
}

/// A number that was written at the end of `head` is read back there.
pub proof fn lemma_u64_after(head: Seq<u8>, x: u64, tail: Seq<u8>)
    ensures
        u64_at(head + be_bytes(x) + tail, head.len() as int) == x,
        (head + be_bytes(x)).len() == head.len() + 8,
{
    lemma_be_round_trip(x);
    assert((head + be_bytes(x) + tail).subrange(head.len() as int, head.len() as int + 8) =~= be_bytes(
        x,
    ));
}

/// A log id that was written at the end of `head` is read back there.
pub proof fn lemma_log_id_after(head: Seq<u8>, id: LogId, tail: Seq<u8>)
    ensures
        log_id_at(head + log_id_bytes(id) + tail, head.len() as int) == id,
        log_id_bytes(id).len() == 24,
{
    let h = head.len() as int;
    let all = head + log_id_bytes(id) + tail;
    let t = be_bytes(id.leader_id.term);
    let n = be_bytes(id.leader_id.node_id);
    let i = be_bytes(id.index);
    lemma_be_round_trip(id.leader_id.term);
    lemma_be_round_trip(id.leader_id.node_id);
    lemma_be_round_trip(id.index);
    assert(all.subrange(h, h + 8) =~= t);
    assert(all.subrange(h + 8, h + 16) =~= n);
    assert(all.subrange(h + 16, h + 24) =~= i);
}

/// An optional log id that was written at the end of `head` is read back
/// there.
pub proof fn lemma_opt_log_id_after(head: Seq<u8>, id: Option<LogId>, tail: Seq<u8>)
    ensures
        opt_log_id_at(head + opt_log_id_bytes(id) + tail, head.len() as int) == Some(id),
        opt_log_id_bytes(id).len() == 25,
{
    let h = head.len() as int;
    let all = head + opt_log_id_bytes(id) + tail;
    match id {
        Some(id) => {
            lemma_log_id_after(head + seq![1u8], id, tail);
            assert(all =~= (head + seq![1u8]) + log_id_bytes(id) + tail);
            assert(all[h] == 1);
        },
        None => {
            assert(all[h] == 0);
        },
    }
}

/// The layout of a list of numbers: eight bytes each, in order.
pub proof fn lemma_u64s_layout(v: Seq<u64>)
    ensures
        u64s_bytes(v).len() == 8 * v.len(),
        forall|i: int|
            0 <= i < v.len() ==> #[trigger] u64s_bytes(v).subrange(8 * i, 8 * i + 8) == be_bytes(
                v[i],
            ),
    decreases v.len(),
{
    if v.len() > 0 {
        let rest = v.drop_last();
        lemma_u64s_layout(rest);
        lemma_be_round_trip(v.last());
        let all = u64s_bytes(v);
        assert forall|i: int| 0 <= i < v.len() implies #[trigger] all.subrange(8 * i, 8 * i + 8)
            == be_bytes(v[i]) by {
            if i < rest.len() {
                assert(all.subrange(8 * i, 8 * i + 8) =~= u64s_bytes(rest).subrange(
                    8 * i,
                    8 * i + 8,
                ));
                assert(rest[i] == v[i]);
            } else {
                assert(all.subrange(8 * i, 8 * i + 8) =~= be_bytes(v.last()));
            }
        }
    }
}

/// A list of numbers that was written at the end of `head` is read back
/// there.
pub proof fn lemma_u64s_after(head: Seq<u8>, v: Seq<u64>, tail: Seq<u8>)
    ensures
        u64s_at(head + u64s_bytes(v) + tail, head.len() as int, v.len()) == v,
{
    lemma_u64s_layout(v);
    let all = head + u64s_bytes(v) + tail;
    let h = head.len() as int;
    let got = u64s_at(all, h, v.len());
    assert forall|i: int| 0 <= i < v.len() implies got[i] == v[i] by {
        assert(all.subrange(h + 8 * i, h + 8 * i + 8) =~= u64s_bytes(v).subrange(8 * i, 8 * i + 8));
        lemma_be_round_trip(v[i]);
    }
    assert(got =~= v);
}

/// A log id is read back from its bytes.
pub proof fn lemma_log_id_round_trip(id: LogId)
    ensures
        parse_log_id(log_id_bytes(id)) == Some(id),
{
    lemma_log_id_after(Seq::empty(), id, Seq::empty());
    assert(Seq::<u8>::empty() + log_id_bytes(id) + Seq::<u8>::empty() =~= log_id_bytes(id));
}

/// An optional log id is read back from its bytes.
pub proof fn lemma_opt_log_id_round_trip(id: Option<LogId>)
    ensures
        parse_opt_log_id(opt_log_id_bytes(id)) == Some(id),
{
    lemma_opt_log_id_after(Seq::empty(), id, Seq::empty());
    assert(Seq::<u8>::empty() + opt_log_id_bytes(id) + Seq::<u8>::empty() =~= opt_log_id_bytes(id));
}

/// A vote is read back from its bytes.
pub proof fn lemma_vote_round_trip(vote: Vote)
    ensures
        parse_vote(vote_bytes(vote)) == Some(vote),
{
    let b = vote_bytes(vote);
    lemma_be_round_trip(vote.leader_id.term);
    lemma_be_round_trip(vote.leader_id.node_id);
    assert(b.subrange(0, 8) =~= be_bytes(vote.leader_id.term));
    assert(b.subrange(8, 16) =~= be_bytes(vote.leader_id.node_id));
}

/// A log entry is read back from its bytes.
pub proof fn lemma_entry_round_trip(e: EntryView)
    ensures
        parse_entry(entry_bytes(e)) == Some(e),
{
    lemma_log_id_after(Seq::empty(), e.log_id, e.payload);
    let b = entry_bytes(e);
    assert(Seq::<u8>::empty() + log_id_bytes(e.log_id) + e.payload =~= b);
    assert(b.subrange(24, b.len() as int) =~= e.payload);
}

/// A snapshot is read back from its bytes, where its lists are short enough
/// for their lengths to be written down.
pub proof fn lemma_snapshot_round_trip(s: SnapshotView)
    requires
        s.meta.last_membership.voters.len() <= u64::MAX,
        encode_utf8(s.meta.snapshot_id).len() <= u64::MAX,
    ensures
        parse_snapshot(snapshot_bytes(s)) == Some(s),
{
    let voters = s.meta.last_membership.voters;
    let id = encode_utf8(s.meta.snapshot_id);
    let last_part = opt_log_id_bytes(s.meta.last_log_id);
    let member_part = opt_log_id_bytes(s.meta.last_membership.log_id);
    let count_part = be_bytes(voters.len() as u64);
    let voters_part = u64s_bytes(voters);
    let id_len_part = be_bytes(id.len() as u64);
    let b = snapshot_bytes(s);
    let e = Seq::<u8>::empty();
    lemma_u64s_layout(voters);
    lemma_opt_log_id_after(e, s.meta.last_log_id, member_part + count_part + voters_part + id_len_part + id + s.data);
    assert(b =~= e + last_part + (member_part + count_part + voters_part + id_len_part + id + s.data));
    lemma_opt_log_id_after(last_part, s.meta.last_membership.log_id, count_part + voters_part + id_len_part + id + s.data);
    assert(b =~= last_part + member_part + (count_part + voters_part + id_len_part + id + s.data));
    lemma_u64_after(last_part + member_part, voters.len() as u64, voters_part + id_len_part + id + s.data);
    assert(b =~= (last_part + member_part) + count_part + (voters_part + id_len_part + id + s.data));
    lemma_u64s_after(last_part + member_part + count_part, voters, id_len_part + id + s.data);
    assert(b =~= (last_part + member_part + count_part) + voters_part + (id_len_part + id + s.data));
    lemma_u64_after(last_part + member_part + count_part + voters_part, id.len() as u64, id + s.data);
    assert(b =~= (last_part + member_part + count_part + voters_part) + id_len_part + (id + s.data));
    let id_at = 58 + 8 * voters.len() as int;
    let id_len = id.len() as int;
    assert(b.len() == 66 + 8 * voters.len() + id.len() + s.data.len());
    assert(b.subrange(id_at + 8, id_at + 8 + id_len) =~= id);
    assert(b.subrange(id_at + 8 + id_len, b.len() as int) =~= s.data);
    vstd::utf8::encode_utf8_valid_utf8(s.meta.snapshot_id);
    vstd::utf8::encode_utf8_decode_utf8(s.meta.snapshot_id);
}

/// `String::from_utf8`: the text that the bytes spell, where they are
/// well-formed UTF-8, and nothing where they are not.
#[verifier::external_body]
pub(crate) fn string_from_utf8(bytes: Vec<u8>) -> (r: Option<String>)
    ensures
        r is Some == valid_utf8(bytes@),
        r is Some ==> r->0@ == decode_utf8(bytes@),
{
    String::from_utf8(bytes).ok()
}

/// Writes `x` at the end of `buf`.
pub fn append_u64(buf: &mut Vec<u8>, x: u64)
    ensures
        final(buf)@ == old(buf)@ + be_bytes(x),
{
    buf.push(((x >> 56) & 0xff) as u8);
    buf.push(((x >> 48) & 0xff) as u8);
    buf.push(((x >> 40) & 0xff) as u8);
    buf.push(((x >> 32) & 0xff) as u8);
    buf.push(((x >> 24) & 0xff) as u8);
    buf.push(((x >> 16) & 0xff) as u8);
    buf.push(((x >> 8) & 0xff) as u8);
    buf.push(((x >> 0) & 0xff) as u8);
    assert(buf@ =~= old(buf)@ + be_bytes(x));
}

/// Reads the number that starts at `at`.
pub fn read_u64(buf: &[u8], at: usize) -> (x: u64)
    requires
        at + 8 <= buf@.len(),
    ensures
        x == u64_at(buf@, at as int),
{
    let len: usize = buf.len();
    assert(at + 8 <= len);
    bin_to_id(slice_subrange(buf, at, at + 8))
}

fn append_log_id(buf: &mut Vec<u8>, id: &LogId)
    ensures
        final(buf)@ == old(buf)@ + log_id_bytes(*id),
{
    append_u64(buf, id.leader_id.term);
    append_u64(buf, id.leader_id.node_id);
    append_u64(buf, id.index);
    assert(buf@ =~= old(buf)@ + log_id_bytes(*id));
}

fn read_log_id(buf: &[u8], at: usize) -> (id: LogId)
    requires
        at + 24 <= buf@.len(),
    ensures
        id == log_id_at(buf@, at as int),
{
    let len: usize = buf.len();
    assert(at + 24 <= len);
    LogId {
        leader_id: LeaderId { term: read_u64(buf, at), node_id: read_u64(buf, at + 8) },
        index: read_u64(buf, at + 16),
    }
}

fn append_opt_log_id(buf: &mut Vec<u8>, id: &Option<LogId>)
    ensures
        final(buf)@ == old(buf)@ + opt_log_id_bytes(*id),
{
    match id {
        Some(id) => {
            buf.push(1);
            append_log_id(buf, id);
            assert(buf@ =~= old(buf)@ + opt_log_id_bytes(Some(*id)));
        },
        None => {
            buf.push(0);
            let mut i: usize = 0;
            while i < 24
                invariant
                    i <= 24,
                    buf@ == old(buf)@ + seq![0u8] + Seq::new(i as nat, |k: int| 0u8),
                decreases 24 - i,
            {
                buf.push(0);
                i += 1;
                assert(buf@ =~= old(buf)@ + seq![0u8] + Seq::new(i as nat, |k: int| 0u8));
            }
            assert(buf@ =~= old(buf)@ + opt_log_id_bytes(None));
        },
    }
}

fn read_opt_log_id(buf: &[u8], at: usize) -> (r: Option<Option<LogId>>)
    requires
        at + 25 <= buf@.len(),
    ensures
        r == opt_log_id_at(buf@, at as int),
{
    if buf[at] == 0 {
        Some(None)
    } else if buf[at] == 1 {
        Some(Some(read_log_id(buf, at + 1)))
    } else {
        None
    }
}

/// The row for a log id.
pub fn encode_log_id(id: &LogId) -> (row: Vec<u8>)
    ensures
        row@ == log_id_bytes(*id),
{
    let mut row: Vec<u8> = Vec::new();
    append_log_id(&mut row, id);
    assert(row@ =~= log_id_bytes(*id));
    row
}

/// The log id that a row holds, if it holds one.
pub fn decode_log_id(row: &[u8]) -> (r: Option<LogId>)
    ensures
        r == parse_log_id(row@),
{
    if row.len() == 24 {
        Some(read_log_id(row, 0))
    } else {
        None
    }
}

/// The row for an optional log id.
pub fn encode_opt_log_id(id: &Option<LogId>) -> (row: Vec<u8>)
    ensures
        row@ == opt_log_id_bytes(*id),
{
    let mut row: Vec<u8> = Vec::new();
    append_opt_log_id(&mut row, id);
    assert(row@ =~= opt_log_id_bytes(*id));
    row
}

/// The optional log id that a row holds, if it holds one.
pub fn decode_opt_log_id(row: &[u8]) -> (r: Option<Option<LogId>>)
    ensures
        r == parse_opt_log_id(row@),
{
    if row.len() == 25 {
        read_opt_log_id(row, 0)
    } else {
        None
    }
}

/// The row for a vote.
pub fn encode_vote(vote: &Vote) -> (row: Vec<u8>)
    ensures
        row@ == vote_bytes(*vote),
{
    let mut row: Vec<u8> = Vec::new();
    append_u64(&mut row, vote.leader_id.term);
    append_u64(&mut row, vote.leader_id.node_id);
    row.push(if vote.committed {
        1
    } else {
        0
    });
    assert(row@ =~= vote_bytes(*vote));
    row
}

/// The vote that a row holds, if it holds one.
pub fn decode_vote(row: &[u8]) -> (r: Option<Vote>)
    ensures
        r == parse_vote(row@),
{
    if row.len() == 17 && row[16] <= 1 {
        Some(
            Vote {
                leader_id: LeaderId { term: read_u64(row, 0), node_id: read_u64(row, 8) },
                committed: row[16] == 1,
            },
        )
    } else {
        None
    }
}

/// The row for a log entry.
pub fn encode_entry(entry: &Entry) -> (row: Vec<u8>)
    ensures
        row@ == entry_bytes(entry@),
{
    let mut row: Vec<u8> = Vec::new();
    append_log_id(&mut row, &entry.log_id);
    row.extend_from_slice(entry.payload.as_slice());
    assert(row@ =~= entry_bytes(entry@));
    row
}

/// The log entry that a row holds, if it holds one.
pub fn decode_entry(row: &[u8]) -> (r: Option<Entry>)
    ensures
        r is Some == parse_entry(row@) is Some,
        r is Some ==> Some(r->0@) == parse_entry(row@),
{
    if row.len() >= 24 {
        Some(
            Entry {
                log_id: read_log_id(row, 0),
                payload: slice_to_vec(slice_subrange(row, 24, row.len())),
            },
        )
    } else {
        None
    }
}

/// Whether the lists of a snapshot are short enough for their lengths to be
/// written down. On a machine of 64 bits every snapshot is.
pub open spec fn snapshot_fits(s: SnapshotView) -> bool {
    s.meta.last_membership.voters.len() <= u64::MAX && encode_utf8(s.meta.snapshot_id).len()
        <= u64::MAX
}

/// The row for a snapshot.
pub fn encode_snapshot(snapshot: &StoredSnapshot) -> (row: Vec<u8>)
    ensures
        row@ == snapshot_bytes(snapshot@),
        snapshot_fits(snapshot@),
{
    let mut row: Vec<u8> = Vec::new();
    append_opt_log_id(&mut row, &snapshot.meta.last_log_id);
    append_opt_log_id(&mut row, &snapshot.meta.last_membership.log_id);
    let voters: &Vec<u64> = &snapshot.meta.last_membership.voters;
    append_u64(&mut row, voters.len() as u64);
    let ghost head = row@;
    let mut i: usize = 0;
    while i < voters.len()
        invariant
            i <= voters.len(),
            row@ == head + u64s_bytes(voters@.subrange(0, i as int)),
        decreases voters.len() - i,
    {
        append_u64(&mut row, voters[i]);
        proof {
            let next = voters@.subrange(0, i + 1);
            assert(next.drop_last() =~= voters@.subrange(0, i as int));
            assert(next.last() == voters@[i as int]);
            assert(row@ =~= head + u64s_bytes(next));
        }
        i += 1;
    }
    assert(voters@.subrange(0, i as int) =~= voters@);
    let id: Vec<u8> = snapshot.meta.snapshot_id.as_str().as_bytes_vec();
    append_u64(&mut row, id.len() as u64);
    row.extend_from_slice(id.as_slice());
    row.extend_from_slice(snapshot.data.as_slice());
    assert(row@ =~= snapshot_bytes(snapshot@));
    row
}

/// The snapshot that a row holds, if it holds one.
pub fn decode_snapshot(row: &[u8]) -> (r: Option<StoredSnapshot>)
    ensures
        r is Some == parse_snapshot(row@) is Some,
        r is Some ==> Some(r->0@) == parse_snapshot(row@),
{
    if row.len() < 66 {
        return None;
    }
    let count: u64 = read_u64(row, 50);
    if count > ((row.len() - 66) / 8) as u64 {
        return None;
    }
    let count: usize = count as usize;
    let id_at: usize = 58 + 8 * count;
    let id_len: u64 = read_u64(row, id_at);
    if id_len > (row.len() - id_at - 8) as u64 {
        return None;
    }
    let id_len: usize = id_len as usize;
    let last_log_id: Option<LogId> = match read_opt_log_id(row, 0) {
        Some(id) => id,
        None => {
            return None;
        },
    };
    let log_id: Option<LogId> = match read_opt_log_id(row, 25) {
        Some(id) => id,
        None => {
            return None;
        },
    };
    let snapshot_id: String = match string_from_utf8(
        slice_to_vec(slice_subrange(row, id_at + 8, id_at + 8 + id_len)),
    ) {
        Some(id) => id,
        None => {
            return None;
        },
    };
    let mut voters: Vec<u64> = Vec::new();
    let mut i: usize = 0;
    let len: usize = row.len();
    while i < count
        invariant
            i <= count,
            len == row@.len(),
            58 + 8 * count <= len,
            voters@ == u64s_at(row@, 58, i as nat),
        decreases count - i,
    {
        voters.push(read_u64(row, 58 + 8 * i));
        i += 1;
        assert(voters@ =~= u64s_at(row@, 58, i as nat));
    }
    let data: Vec<u8> = slice_to_vec(slice_subrange(row, id_at + 8 + id_len, row.len()));
    Some(
        StoredSnapshot {
            meta: SnapshotMeta {
                last_log_id,
                last_membership: StoredMembership { log_id, voters },
                snapshot_id,
            },
            data,
        },
    )
}

} // verus!
