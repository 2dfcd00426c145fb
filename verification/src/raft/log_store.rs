//! The log store: the Raft log, the vote, the commit watermark and the
//! purge marker, kept in two namespaces of the engine.

use vstd::prelude::*;
use crate::raft::codec::{
    decode_entry, decode_log_id, decode_opt_log_id, decode_vote, encode_entry, encode_log_id,
    encode_opt_log_id, encode_vote, entry_bytes, lemma_log_id_round_trip,
    lemma_opt_log_id_round_trip, lemma_vote_round_trip, parse_log_id, parse_opt_log_id, parse_vote,
};
use crate::raft::error::{ErrorSubject, ErrorVerb, StorageError, StorageResult};
use crate::raft::index_key::{be_bytes, id_to_bin, lemma_be_order};
use crate::raft::log_model::{
    entries_of, index_above, index_ascending, index_below, lemma_append_row,
    lemma_entries_ascending, lemma_filter_same, lemma_filter_twice, lemma_remove_row,
    lemma_selection, lemma_remove_rows, log_row_valid, log_rows_valid, log_with, log_with_all,
};
use crate::raft::types::{entry_views, Entry, EntryView, LogId, LogState, Vote};
use crate::storage::db::{
    lemma_family_position, lemma_rows_named_after, lemma_rows_named_with_family, ColumnFamily,
    DbView, DB,
};
use crate::storage::order::bytes_eq;
use crate::storage::order::lemma_lex_trichotomy;
use crate::storage::rows::{
    ascending, lemma_filter_is_block, lemma_value_after_put, Row, rows_outside, rows_with,
    rows_without, value_of,
};

verus! {

/// The namespace of the control records.
pub const CF_RAFT_STORE: &'static str = "store";

/// The namespace of the log entries.
pub const CF_RAFT_LOGS: &'static str = "logs";

/// The name of the namespace of the control records.
pub fn cf_raft_store() -> (name: String)
    ensures
        name@ == CF_RAFT_STORE@,
{
    String::from_str(CF_RAFT_STORE)
}

/// The name of the namespace of the log entries.
pub fn cf_raft_logs() -> (name: String)
    ensures
        name@ == CF_RAFT_LOGS@,
{
    String::from_str(CF_RAFT_LOGS)
}

/// The key of the vote: the bytes of `vote`.
pub open spec fn vote_key() -> Seq<u8> {
    seq![118u8, 111u8, 116u8, 101u8]
}

/// The key of the commit watermark: the bytes of `committed`.
pub open spec fn committed_key() -> Seq<u8> {
    seq![99u8, 111u8, 109u8, 109u8, 105u8, 116u8, 116u8, 101u8, 100u8]
}

/// The key of the purge marker: the bytes of `last_purged_log_id`.
pub open spec fn last_purged_key() -> Seq<u8> {
    seq![
        108u8, 97u8, 115u8, 116u8, 95u8, 112u8, 117u8, 114u8, 103u8, 101u8, 100u8, 95u8, 108u8,
        111u8, 103u8, 95u8, 105u8, 100u8,
    ]
}

fn vote_key_bytes() -> (key: Vec<u8>)
    ensures
        key@ == vote_key(),
{
    let key: Vec<u8> = vec![118u8, 111u8, 116u8, 101u8];
    assert(key@ =~= vote_key());
    key
}

fn committed_key_bytes() -> (key: Vec<u8>)
    ensures
        key@ == committed_key(),
{
    let key: Vec<u8> = vec![99u8, 111u8, 109u8, 109u8, 105u8, 116u8, 116u8, 101u8, 100u8];
    assert(key@ =~= committed_key());
    key
}

fn last_purged_key_bytes() -> (key: Vec<u8>)
    ensures
        key@ == last_purged_key(),
{
    let key: Vec<u8> = vec![
        108u8, 97u8, 115u8, 116u8, 95u8, 112u8, 117u8, 114u8, 103u8, 101u8, 100u8, 95u8, 108u8,
        111u8, 103u8, 95u8, 105u8, 100u8,
    ];
    assert(key@ =~= last_purged_key());
    key
}

/// The log that a store holds: the entries of its log namespace.
pub open spec fn log_in(v: DbView) -> Seq<EntryView> {
    entries_of(v.rows_named(CF_RAFT_LOGS@))
}

/// The control record under `key`, if a store holds one.
pub open spec fn record_in(v: DbView, key: Seq<u8>) -> Option<Seq<u8>> {
    value_of(v.rows_named(CF_RAFT_STORE@), key)
}

/// The vote that a store holds.
pub open spec fn vote_in(v: DbView) -> Option<Vote> {
    match record_in(v, vote_key()) {
        Some(b) => parse_vote(b),
        None => None,
    }
}

/// The commit watermark that a store holds.
pub open spec fn committed_in(v: DbView) -> Option<LogId> {
    match record_in(v, committed_key()) {
        Some(b) => match parse_opt_log_id(b) {
            Some(id) => id,
            None => None,
        },
        None => None,
    }
}

/// The purge marker that a store holds.
pub open spec fn last_purged_in(v: DbView) -> Option<LogId> {
    match record_in(v, last_purged_key()) {
        Some(b) => parse_log_id(b),
        None => None,
    }
}

/// Whether `value` can stand under `key`: the three control records hold
/// what their keys say.
pub open spec fn record_ok(key: Seq<u8>, value: Seq<u8>) -> bool {
    &&& key == vote_key() ==> parse_vote(value) is Some
    &&& key == committed_key() ==> parse_opt_log_id(value) is Some
    &&& key == last_purged_key() ==> parse_log_id(value) is Some
}

/// Every control record that is present can be read.
pub open spec fn records_valid(v: DbView) -> bool {
    &&& record_in(v, vote_key()) is Some ==> record_ok(vote_key(), record_in(v, vote_key())->0)
    &&& record_in(v, committed_key()) is Some ==> record_ok(
        committed_key(),
        record_in(v, committed_key())->0,
    )
    &&& record_in(v, last_purged_key()) is Some ==> record_ok(
        last_purged_key(),
        record_in(v, last_purged_key())->0,
    )
}

/// What a store must hold to serve as a log store: log rows that are
/// entries keyed by their index, and control records that can be read.
pub open spec fn store_valid(v: DbView) -> bool {
    log_rows_valid(v.rows_named(CF_RAFT_LOGS@)) && records_valid(v)
}

/// What a store that cannot serve as a log store is refused for: its log
/// where a log row is broken, else its vote where that cannot be read, else
/// one of the other control records.
pub open spec fn refusal_subject(v: DbView) -> ErrorSubject {
    if !log_rows_valid(v.rows_named(CF_RAFT_LOGS@)) {
        ErrorSubject::Logs
    } else if record_in(v, vote_key()) is Some && !record_ok(
        vote_key(),
        record_in(v, vote_key())->0,
    ) {
        ErrorSubject::Vote
    } else {
        ErrorSubject::Store
    }
}

/// The last entry of `log`; `fallback` where the log is empty.
pub open spec fn last_log_id(log: Seq<EntryView>, fallback: Option<LogId>) -> Option<LogId> {
    if log.len() > 0 {
        Some(log.last().log_id)
    } else {
        fallback
    }
}

/// One end of a range of log indices.
#[derive(Debug, Clone, Copy, PartialEq, Eq, Structural)]
pub enum RangeBound {
    /// The range reaches the index.
    Included(u64),
    /// The range stops short of the index.
    Excluded(u64),
    /// The range has no end on this side.
    Unbounded,
}

/// The first index of a range that starts at `start`; `u64::MAX + 1` where
/// no index is in it.
pub open spec fn first_index(start: RangeBound) -> int {
    match start {
        RangeBound::Included(x) => x as int,
        RangeBound::Excluded(x) => x + 1,
        RangeBound::Unbounded => 0,
    }
}

/// The first index past a range that ends at `end`.
pub open spec fn end_index(end: RangeBound) -> int {
    match end {
        RangeBound::Included(x) => x + 1,
        RangeBound::Excluded(x) => x as int,
        RangeBound::Unbounded => u64::MAX + 1,
    }
}

/// Selects the entries with an index in the range.
pub open spec fn index_in_range(start: RangeBound, end: RangeBound) -> spec_fn(EntryView) -> bool {
    |e: EntryView| first_index(start) <= e.log_id.index < end_index(end)
}

/// What a read of a range returns: of the entries of the log, exactly those
/// with an index in the range, in index order. For the range from `a` up
/// to, and without, `b` these are the entries with `a <= index < b`.
pub proof fn lemma_range_read(log: Seq<EntryView>, start: RangeBound, end: RangeBound)
    requires
        index_ascending(log),
    ensures
        index_ascending(log.filter(index_in_range(start, end))),
        forall|x: EntryView|
            #[trigger] log.filter(index_in_range(start, end)).contains(x) <==> log.contains(x)
                && first_index(start) <= x.log_id.index < end_index(end),
{
    lemma_selection(log, index_in_range(start, end));
}

/// The log store.
pub struct LogStore {
    db: DB,
    store: ColumnFamily,
    logs: ColumnFamily,
}

impl LogStore {
    /// What the engine under the store holds.
    pub closed spec fn db_view(&self) -> DbView {
        self.db@
    }

    /// The store stands on an engine that has its two namespaces, with log
    /// rows and control records that can be read.
    pub closed spec fn wf(&self) -> bool {
        &&& self.db@.well_formed()
        &&& self.db.serves(self.store)
        &&& self.db@.families[self.store.index as int].name == CF_RAFT_STORE@
        &&& self.db.serves(self.logs)
        &&& self.db@.families[self.logs.index as int].name == CF_RAFT_LOGS@
        &&& self.store.index != self.logs.index
        &&& store_valid(self.db@)
    }

    /// The log: the entries in index order.
    pub open spec fn log(&self) -> Seq<EntryView> {
        log_in(self.db_view())
    }

    /// The vote, if one was saved.
    pub open spec fn vote(&self) -> Option<Vote> {
        vote_in(self.db_view())
    }

    /// The commit watermark, if one was saved.
    pub open spec fn committed(&self) -> Option<LogId> {
        committed_in(self.db_view())
    }

    /// The last entry removed by compaction, if any was.
    pub open spec fn last_purged(&self) -> Option<LogId> {
        last_purged_in(self.db_view())
    }

    /// Whether everything written is durable.
    pub open spec fn synced(&self) -> bool {
        self.db_view().synced
    }

    proof fn lemma_handles(&self)
        requires
            self.wf(),
        ensures
            self.db@.rows_named(CF_RAFT_LOGS@) == self.db@.rows(self.logs.index as int),
            self.db@.rows_named(CF_RAFT_STORE@) == self.db@.rows(self.store.index as int),
            ascending(self.db@.rows(self.logs.index as int)),
            ascending(self.db@.rows(self.store.index as int)),
            log_rows_valid(self.db@.rows(self.logs.index as int)),
            CF_RAFT_LOGS@ != CF_RAFT_STORE@,
    {
        lemma_family_position(self.db@, CF_RAFT_LOGS@, self.logs.index as int);
        lemma_family_position(self.db@, CF_RAFT_STORE@, self.store.index as int);
    }

    /// The log is in index order: no index occurs twice.
    pub proof fn lemma_log_ascending(&self)
        requires
            self.wf(),
        ensures
            index_ascending(self.log()),
    {
        self.lemma_handles();
        lemma_entries_ascending(self.db@.rows(self.logs.index as int));
    }

    /// Opens the log store on an engine. The two namespaces are made where
    /// they are missing. The engine is refused where a log row is not an
    /// entry keyed by its index, or a control record cannot be read.
    pub fn new(db: DB) -> (r: StorageResult<LogStore>)
        ensures
            r is Ok == store_valid(db@),
            r is Ok ==> {
                &&& r->Ok_0.wf()
                &&& r->Ok_0.log() == log_in(db@)
                &&& r->Ok_0.vote() == vote_in(db@)
                &&& r->Ok_0.committed() == committed_in(db@)
                &&& r->Ok_0.last_purged() == last_purged_in(db@)
                &&& r->Ok_0.synced() == db@.synced
            },
            r is Ok && db@.has_family(CF_RAFT_STORE@) && db@.has_family(CF_RAFT_LOGS@)
                ==> r->Ok_0.db_view() == db@,
            r is Err ==> r->Err_0.verb == ErrorVerb::Read && r->Err_0.subject == refusal_subject(
                db@,
            ),
    {
        let ghost given = db@;
        let mut engine = db;
        engine.known_well_formed();
        let store: ColumnFamily = engine.create_cf(CF_RAFT_STORE);
        let ghost mid = engine@;
        engine.known_well_formed();
        let logs: ColumnFamily = engine.create_cf(CF_RAFT_LOGS);
        engine.known_well_formed();
        proof {
            if !given.has_family(CF_RAFT_STORE@) {
                lemma_rows_named_with_family(given, CF_RAFT_STORE@, CF_RAFT_STORE@);
                lemma_rows_named_with_family(given, CF_RAFT_STORE@, CF_RAFT_LOGS@);
            }
            if !mid.has_family(CF_RAFT_LOGS@) {
                lemma_rows_named_with_family(mid, CF_RAFT_LOGS@, CF_RAFT_STORE@);
                lemma_rows_named_with_family(mid, CF_RAFT_LOGS@, CF_RAFT_LOGS@);
            }
            reveal_strlit("store");
            reveal_strlit("logs");
            assert(CF_RAFT_STORE@.len() != CF_RAFT_LOGS@.len());
            lemma_family_position(engine@, CF_RAFT_LOGS@, logs.index as int);
            lemma_family_position(engine@, CF_RAFT_STORE@, store.index as int);
            assert(engine@.rows_named(CF_RAFT_LOGS@) == given.rows_named(CF_RAFT_LOGS@));
            assert(engine@.rows_named(CF_RAFT_STORE@) == given.rows_named(CF_RAFT_STORE@));
        }
        let ghost rows = engine@.rows(logs.index as int);
        let count: usize = engine.len_cf(&logs);
        let mut i: usize = 0;
        while i < count
            invariant
                engine.serves(logs),
                rows == engine@.rows(logs.index as int),
                given == db@,
                rows == given.rows_named(CF_RAFT_LOGS@),
                count == rows.len(),
                i <= count,
                forall|k: int| 0 <= k < i ==> log_row_valid(#[trigger] rows[k]),
            decreases count - i,
        {
            let valid: bool = match engine.row_cf(&logs, i) {
                Some(row) => match decode_entry(row.value.as_slice()) {
                    Some(entry) => bytes_eq(
                        row.key.as_slice(),
                        id_to_bin(entry.log_id.index).as_slice(),
                    ),
                    None => false,
                },
                None => false,
            };
            if !valid {
                assert(!log_row_valid(rows[i as int]));
                return Err(StorageError::read_logs(String::from_str("log row is not an entry")));
            }
            i += 1;
        }
        let vote_ok: bool = match engine.get_cf(&store, vote_key_bytes().as_slice()) {
            Ok(Some(bytes)) => decode_vote(bytes.as_slice()).is_some(),
            _ => true,
        };
        if !vote_ok {
            return Err(StorageError::read_vote(String::from_str("vote cannot be read")));
        }
        let committed_ok: bool = match engine.get_cf(&store, committed_key_bytes().as_slice()) {
            Ok(Some(bytes)) => decode_opt_log_id(bytes.as_slice()).is_some(),
            _ => true,
        };
        if !committed_ok {
            return Err(StorageError::read(String::from_str("commit watermark cannot be read")));
        }
        let purged_ok: bool = match engine.get_cf(&store, last_purged_key_bytes().as_slice()) {
            Ok(Some(bytes)) => decode_log_id(bytes.as_slice()).is_some(),
            _ => true,
        };
        if !purged_ok {
            return Err(StorageError::read(String::from_str("purge marker cannot be read")));
        }
        Ok(LogStore { db: engine, store, logs })
    }

    /// Opens the store anew on the engine it stands on, as after a restart:
    /// the new store holds the log, the vote, the commit watermark and the
    /// purge marker of the old one.
    pub fn reopen(self) -> (r: StorageResult<LogStore>)
        requires
            self.wf(),
        ensures
            r is Ok,
            r->Ok_0.wf(),
            r->Ok_0.db_view() == self.db_view(),
            r->Ok_0.log() == self.log(),
            r->Ok_0.vote() == self.vote(),
            r->Ok_0.committed() == self.committed(),
            r->Ok_0.last_purged() == self.last_purged(),
    {
        LogStore::new(self.into_db())
    }

    /// The handle of the namespace of the control records.
    pub fn store(&self) -> (cf: ColumnFamily)
        requires
            self.wf(),
        ensures
            cf.index < self.db_view().families.len(),
            self.db_view().families[cf.index as int].name == CF_RAFT_STORE@,
    {
        self.store
    }

    /// The handle of the namespace of the log entries.
    pub fn logs(&self) -> (cf: ColumnFamily)
        requires
            self.wf(),
        ensures
            cf.index < self.db_view().families.len(),
            self.db_view().families[cf.index as int].name == CF_RAFT_LOGS@,
    {
        self.logs
    }

    /// The engine under the store.
    pub fn db(&self) -> (db: &DB)
        ensures
            db@ == self.db_view(),
    {
        &self.db
    }

    /// Gives the engine back.
    pub fn into_db(self) -> (db: DB)
        requires
            self.wf(),
        ensures
            db@ == self.db_view(),
            db@.has_family(CF_RAFT_STORE@),
            db@.has_family(CF_RAFT_LOGS@),
            store_valid(db@),
    {
        proof {
            self.lemma_handles();
        }
        self.db
    }

    fn put_record(&mut self, key: Vec<u8>, value: Vec<u8>)
        requires
            old(self).wf(),
            record_ok(key@, value@),
        ensures
            final(self).wf(),
            record_in(final(self).db_view(), key@) == Some(value@),
            forall|other: Seq<u8>|
                other != key@ ==> record_in(final(self).db_view(), other) == record_in(
                    old(self).db_view(),
                    other,
                ),
            final(self).log() == old(self).log(),
            !final(self).synced(),
    {
        let ghost before = self.db@;
        let ghost rows = before.rows(self.store.index as int);
        let ghost key_view = key@;
        let ghost value_view = value@;
        proof {
            self.lemma_handles();
        }
        let store: ColumnFamily = self.store;
        let r = self.db.put_cf(&store, key, value);
        self.db.known_well_formed();
        proof {
            let after = rows_with(rows, key_view, value_view);
            lemma_rows_named_after(before, self.store.index as int, after, CF_RAFT_STORE@);
            lemma_rows_named_after(before, self.store.index as int, after, CF_RAFT_LOGS@);
            assert forall|other: Seq<u8>|
                #![trigger record_in(self.db@, other)]
                other != key_view implies record_in(self.db@, other) == record_in(
                before,
                other,
            ) by {
                lemma_value_after_put(rows, key_view, value_view, other);
            }
            lemma_value_after_put(rows, key_view, value_view, key_view);
            assert(record_in(self.db@, vote_key()) is Some ==> record_ok(
                vote_key(),
                record_in(self.db@, vote_key())->0,
            ));
            assert(record_in(self.db@, committed_key()) is Some ==> record_ok(
                committed_key(),
                record_in(self.db@, committed_key())->0,
            ));
            assert(record_in(self.db@, last_purged_key()) is Some ==> record_ok(
                last_purged_key(),
                record_in(self.db@, last_purged_key())->0,
            ));
        }
    }

    fn get_record(&self, key: &[u8]) -> (r: Option<Vec<u8>>)
        requires
            self.wf(),
        ensures
            r is Some == record_in(self.db_view(), key@) is Some,
            r is Some ==> Some(r->0@) == record_in(self.db_view(), key@),
    {
        proof {
            self.lemma_handles();
        }
        match self.db.get_cf(&self.store, key) {
            Ok(found) => found,
            Err(_) => None,
        }
    }

    /// Makes everything written durable.
    pub fn flush(&mut self)
        requires
            old(self).wf(),
        ensures
            final(self).wf(),
            final(self).db_view() == old(self).db_view().flushed(),
            final(self).log() == old(self).log(),
            final(self).vote() == old(self).vote(),
            final(self).committed() == old(self).committed(),
            final(self).last_purged() == old(self).last_purged(),
            final(self).synced(),
    {
        let ghost before = self.db@;
        let r = self.db.flush_wal(true);
        self.db.known_well_formed();
        proof {
            let i = self.store.index as int;
            lemma_rows_named_after(before, i, before.rows(i), CF_RAFT_STORE@);
            lemma_rows_named_after(before, i, before.rows(i), CF_RAFT_LOGS@);
        }
    }

    fn put_log(&mut self, entry: &Entry)
        requires
            old(self).wf(),
        ensures
            final(self).wf(),
            final(self).log() == log_with(old(self).log(), entry@),
            forall|key: Seq<u8>|
                record_in(final(self).db_view(), key) == record_in(old(self).db_view(), key),
    {
        let ghost before = self.db@;
        let ghost rows = before.rows(self.logs.index as int);
        proof {
            self.lemma_handles();
        }
        let logs: ColumnFamily = self.logs;
        let r = self.db.put_cf(&logs, id_to_bin(entry.log_id.index), encode_entry(entry));
        self.db.known_well_formed();
        proof {
            let after = rows_with(rows, be_bytes(entry.log_id.index), entry_bytes(entry@));
            lemma_rows_named_after(before, self.logs.index as int, after, CF_RAFT_STORE@);
            lemma_rows_named_after(before, self.logs.index as int, after, CF_RAFT_LOGS@);
            lemma_append_row(rows, entry@);
            assert forall|key: Seq<u8>| record_in(self.db@, key) == record_in(before, key) by {}
        }
    }

    fn remove_logs(&mut self, from: u64, to: u64, Ghost(keep): Ghost<spec_fn(EntryView) -> bool>)
        requires
            old(self).wf(),
            forall|e: EntryView| #[trigger] keep(e) == !(from <= e.log_id.index < to),
        ensures
            final(self).wf(),
            final(self).log() == old(self).log().filter(keep),
            forall|key: Seq<u8>|
                record_in(final(self).db_view(), key) == record_in(old(self).db_view(), key),
            final(self).synced() == false,
    {
        let ghost before = self.db@;
        let ghost rows = before.rows(self.logs.index as int);
        proof {
            self.lemma_handles();
        }
        let logs: ColumnFamily = self.logs;
        let r = self.db.delete_range_cf(
            &logs,
            id_to_bin(from).as_slice(),
            id_to_bin(to).as_slice(),
        );
        self.db.known_well_formed();
        proof {
            let after = rows_outside(rows, be_bytes(from), be_bytes(to));
            lemma_rows_named_after(before, self.logs.index as int, after, CF_RAFT_STORE@);
            lemma_rows_named_after(before, self.logs.index as int, after, CF_RAFT_LOGS@);
            lemma_remove_rows(rows, from, to, keep);
            assert forall|key: Seq<u8>| record_in(self.db@, key) == record_in(before, key) by {}
        }
    }

    fn remove_log(&mut self, index: u64, Ghost(keep): Ghost<spec_fn(EntryView) -> bool>)
        requires
            old(self).wf(),
            forall|e: EntryView| #[trigger] keep(e) == (e.log_id.index != index),
        ensures
            final(self).wf(),
            final(self).log() == old(self).log().filter(keep),
            forall|key: Seq<u8>|
                record_in(final(self).db_view(), key) == record_in(old(self).db_view(), key),
            final(self).synced() == false,
    {
        let ghost before = self.db@;
        let ghost rows = before.rows(self.logs.index as int);
        proof {
            self.lemma_handles();
        }
        let logs: ColumnFamily = self.logs;
        let r = self.db.delete_cf(&logs, id_to_bin(index).as_slice());
        self.db.known_well_formed();
        proof {
            let after = rows_without(rows, be_bytes(index));
            lemma_rows_named_after(before, self.logs.index as int, after, CF_RAFT_STORE@);
            lemma_rows_named_after(before, self.logs.index as int, after, CF_RAFT_LOGS@);
            lemma_remove_row(rows, index, keep);
            assert forall|key: Seq<u8>| record_in(self.db@, key) == record_in(before, key) by {}
        }
    }

    /// Saves the vote and makes it durable.
    pub fn save_vote(&mut self, vote: &Vote) -> (r: StorageResult<()>)
        requires
            old(self).wf(),
        ensures
            final(self).wf(),
            r is Ok,
            final(self).vote() == Some(*vote),
            final(self).synced(),
            final(self).log() == old(self).log(),
            final(self).committed() == old(self).committed(),
            final(self).last_purged() == old(self).last_purged(),
    {
        proof {
            lemma_vote_round_trip(*vote);
        }
        self.put_record(vote_key_bytes(), encode_vote(vote));
        self.flush();
        Ok(())
    }

    /// The vote that was saved last, if any was.
    pub fn read_vote(&self) -> (r: StorageResult<Option<Vote>>)
        requires
            self.wf(),
        ensures
            r is Ok,
            r->Ok_0 == self.vote(),
    {
        match self.get_record(vote_key_bytes().as_slice()) {
            Some(bytes) => Ok(decode_vote(bytes.as_slice())),
            None => Ok(None),
        }
    }

    /// Saves the commit watermark and makes it durable.
    pub fn save_committed(&mut self, committed: Option<LogId>) -> (r: StorageResult<()>)
        requires
            old(self).wf(),
        ensures
            final(self).wf(),
            r is Ok,
            final(self).committed() == committed,
            final(self).synced(),
            final(self).log() == old(self).log(),
            final(self).vote() == old(self).vote(),
            final(self).last_purged() == old(self).last_purged(),
    {
        proof {
            lemma_opt_log_id_round_trip(committed);
        }
        self.put_record(committed_key_bytes(), encode_opt_log_id(&committed));
        self.flush();
        Ok(())
    }

    /// The commit watermark that was saved last, if any was.
    pub fn read_committed(&self) -> (r: StorageResult<Option<LogId>>)
        requires
            self.wf(),
        ensures
            r is Ok,
            r->Ok_0 == self.committed(),
    {
        match self.get_record(committed_key_bytes().as_slice()) {
            Some(bytes) => match decode_opt_log_id(bytes.as_slice()) {
                Some(id) => Ok(id),
                None => Ok(None),
            },
            None => Ok(None),
        }
    }

    fn set_last_purged_(&mut self, log_id: LogId)
        requires
            old(self).wf(),
        ensures
            final(self).wf(),
            final(self).last_purged() == Some(log_id),
            final(self).synced(),
            final(self).log() == old(self).log(),
            final(self).vote() == old(self).vote(),
            final(self).committed() == old(self).committed(),
    {
        proof {
            lemma_log_id_round_trip(log_id);
        }
        self.put_record(last_purged_key_bytes(), encode_log_id(&log_id));
        self.flush();
    }

    fn get_last_purged_(&self) -> (r: Option<LogId>)
        requires
            self.wf(),
        ensures
            r == self.last_purged(),
    {
        match self.get_record(last_purged_key_bytes().as_slice()) {
            Some(bytes) => decode_log_id(bytes.as_slice()),
            None => None,
        }
    }

    /// Where the log stands: its last entry and the purge marker. Where the
    /// log is empty, the purge marker stands for the last entry.
    pub fn get_log_state(&self) -> (r: StorageResult<LogState>)
        requires
            self.wf(),
        ensures
            r is Ok,
            r->Ok_0.last_purged_log_id == self.last_purged(),
            r->Ok_0.last_log_id == last_log_id(self.log(), self.last_purged()),
    {
        proof {
            self.lemma_handles();
        }
        let ghost rows = self.db@.rows(self.logs.index as int);
        let count: usize = self.db.len_cf(&self.logs);
        let last: Option<LogId> = if count == 0 {
            None
        } else {
            match self.db.row_cf(&self.logs, count - 1) {
                Some(row) => {
                    assert(log_row_valid(rows[count - 1]));
                    match decode_entry(row.value.as_slice()) {
                        Some(entry) => Some(entry.log_id),
                        None => None,
                    }
                },
                None => None,
            }
        };
        let last_purged_log_id: Option<LogId> = self.get_last_purged_();
        let last_log_id: Option<LogId> = match last {
            None => last_purged_log_id,
            Some(x) => Some(x),
        };
        Ok(LogState { last_purged_log_id, last_log_id })
    }

    /// Appends the entries, each under the key of its index, and makes them
    /// durable. An entry takes the place of the entry that stood at its
    /// index.
    pub fn append(&mut self, entries: &Vec<Entry>) -> (r: StorageResult<()>)
        requires
            old(self).wf(),
        ensures
            final(self).wf(),
            r is Ok,
            final(self).log() == log_with_all(old(self).log(), entry_views(entries@)),
            final(self).synced(),
            final(self).vote() == old(self).vote(),
            final(self).committed() == old(self).committed(),
            final(self).last_purged() == old(self).last_purged(),
    {
        let ghost all = entry_views(entries@);
        let mut i: usize = 0;
        assert(all.subrange(0, 0) =~= Seq::<EntryView>::empty());
        while i < entries.len()
            invariant
                i <= entries.len(),
                all == entry_views(entries@),
                self.wf(),
                self.log() == log_with_all(old(self).log(), all.subrange(0, i as int)),
                forall|key: Seq<u8>|
                    record_in(self.db_view(), key) == record_in(old(self).db_view(), key),
            decreases entries.len() - i,
        {
            self.put_log(&entries[i]);
            proof {
                let next = all.subrange(0, i + 1);
                assert(next.drop_last() =~= all.subrange(0, i as int));
                assert(next.last() == entries@[i as int]@);
            }
            i += 1;
        }
        assert(all.subrange(0, i as int) =~= all);
        self.flush();
        Ok(())
    }

    /// The entries with an index in the range, in index order. The walk
    /// begins at the key of the first index of the range and ends at the
    /// first entry beyond it.
    pub fn try_get_log_entries(&self, start: RangeBound, end: RangeBound) -> (r: StorageResult<
        Vec<Entry>,
    >)
        requires
            self.wf(),
        ensures
            r is Ok,
            entry_views(r->Ok_0@) == self.log().filter(index_in_range(start, end)),
    {
        proof {
            self.lemma_handles();
            self.lemma_log_ascending();
        }
        let ghost rows = self.db@.rows(self.logs.index as int);
        let ghost log = self.log();
        let ghost pred = index_in_range(start, end);
        let mut found: Vec<Entry> = Vec::new();
        let first: u64 = match start {
            RangeBound::Included(x) => x,
            RangeBound::Excluded(x) => {
                if x == u64::MAX {
                    proof {
                        assert forall|i: int| 0 <= i < log.len() implies (pred(#[trigger] log[i])
                            <==> 0 <= i < 0) by {}
                        lemma_filter_is_block(log, pred, 0, 0);
                        assert(entry_views(found@) =~= log.subrange(0, 0));
                    }
                    return Ok(found);
                }
                x + 1
            },
            RangeBound::Unbounded => 0,
        };
        let from: usize = self.db.seek_cf(&self.logs, id_to_bin(first).as_slice());
        let count: usize = self.db.len_cf(&self.logs);
        let mut i: usize = from;
        proof {
            assert forall|k: int| 0 <= k < rows.len() implies (first <= (#[trigger] log[k]).log_id.index
                <==> from <= k) by {
                assert(log_row_valid(rows[k]));
                lemma_be_order(first, log[k].log_id.index);
                lemma_lex_trichotomy(rows[k].0, be_bytes(first));
            }
        }
        while i < count
            invariant
                self.wf(),
                rows == self.db@.rows(self.logs.index as int),
                log == entries_of(rows),
                log_rows_valid(rows),
                count == rows.len(),
                from <= i <= count,
                found@.len() == i - from,
                forall|k: int| 0 <= k < found@.len() ==> (#[trigger] found@[k])@ == log[from + k],
                forall|k: int| from <= k < i ==> (#[trigger] log[k]).log_id.index < end_index(end),
            ensures
                i == count || log[i as int].log_id.index >= end_index(end),
            decreases count - i,
        {
            assert(log_row_valid(rows[i as int]));
            let row: Row = match self.db.row_cf(&self.logs, i) {
                Some(row) => row,
                None => {
                    // There is a row at every position below the count.
                    assert(false);
                    break;
                },
            };
            let entry: Entry = match decode_entry(row.value.as_slice()) {
                Some(entry) => entry,
                None => {
                    // Every log row of a well-formed store holds an entry.
                    assert(false);
                    break;
                },
            };
            let inside: bool = match end {
                RangeBound::Included(x) => entry.log_id.index <= x,
                RangeBound::Excluded(x) => entry.log_id.index < x,
                RangeBound::Unbounded => true,
            };
            if !inside {
                break;
            }
            found.push(entry);
            i += 1;
        }
        proof {
            assert forall|k: int| 0 <= k < log.len() implies (pred(#[trigger] log[k]) <==> from <= k
                < i) by {
                if k > i && i < count {
                    assert(log[i as int].log_id.index < log[k].log_id.index);
                }
            }
            lemma_filter_is_block(log, pred, from as int, i as int);
            assert(entry_views(found@) =~= log.subrange(from as int, i as int));
        }
        Ok(found)
    }

    /// Removes every entry with an index of `log_id.index` or more.
    pub fn truncate(&mut self, log_id: LogId) -> (r: StorageResult<()>)
        requires
            old(self).wf(),
        ensures
            final(self).wf(),
            r is Ok,
            final(self).log() == old(self).log().filter(index_below(log_id.index)),
            final(self).vote() == old(self).vote(),
            final(self).committed() == old(self).committed(),
            final(self).last_purged() == old(self).last_purged(),
    {
        let ghost log = self.log();
        let ghost outside = |e: EntryView| !(log_id.index <= e.log_id.index < u64::MAX);
        let ghost not_last = |e: EntryView| e.log_id.index != u64::MAX;
        self.remove_logs(log_id.index, u64::MAX, Ghost(outside));
        self.remove_log(u64::MAX, Ghost(not_last));
        proof {
            lemma_filter_twice(log, outside, not_last, index_below(log_id.index));
        }
        Ok(())
    }

    /// Moves the purge marker to `log_id`, makes it durable, and removes
    /// every entry with an index of `log_id.index` or less.
    pub fn purge(&mut self, log_id: LogId) -> (r: StorageResult<()>)
        requires
            old(self).wf(),
        ensures
            final(self).wf(),
            r is Ok,
            final(self).last_purged() == Some(log_id),
            final(self).log() == old(self).log().filter(index_above(log_id.index)),
            final(self).vote() == old(self).vote(),
            final(self).committed() == old(self).committed(),
    {
        let ghost log = self.log();
        self.set_last_purged_(log_id);
        if log_id.index == u64::MAX {
            let ghost outside = |e: EntryView| !(0 <= e.log_id.index < u64::MAX);
            let ghost not_last = |e: EntryView| e.log_id.index != u64::MAX;
            self.remove_logs(0, u64::MAX, Ghost(outside));
            self.remove_log(u64::MAX, Ghost(not_last));
            proof {
                lemma_filter_twice(log, outside, not_last, index_above(log_id.index));
            }
        } else {
            let ghost outside = |e: EntryView| !(0 <= e.log_id.index < log_id.index + 1);
            self.remove_logs(0, log_id.index + 1, Ghost(outside));
            proof {
                lemma_filter_same(log, outside, index_above(log_id.index));
            }
        }
        Ok(())
    }
}

} // verus!
