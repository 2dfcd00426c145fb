//! The state machine store: what was applied last, the membership, the
//! application, and the current snapshot.

use vstd::prelude::*;
use crate::base::text::{concat2, decimal, u64_to_string};
use crate::base::tools::now_second;
use crate::raft::codec::{
    decode_snapshot, encode_snapshot, lemma_snapshot_round_trip, parse_snapshot,
};
use crate::raft::error::{ErrorSubject, ErrorVerb, StorageError, StorageResult};
use crate::raft::log_store::CF_RAFT_STORE;
use crate::storage::rocksdb::DB_COLUMN_FAMILY_CLUSTER;
use crate::raft::types::{
    AppResponseData, Entry, EntryView, LogId, MembershipView, Snapshot, SnapshotMeta,
    SnapshotMetaView, SnapshotView, StoredMembership, StoredSnapshot,
};
use crate::route::rows_codec::{lemma_rows_round_trip, parse_rows, rows_bytes, rows_fit};
use crate::route::{route_ok, route_rows, DataRoute};
use crate::raft::types::entry_views;
use crate::storage::db::{
    lemma_family_position, lemma_rows_named_after, lemma_rows_named_with_family, ColumnFamily,
    DbView, DB,
};
use crate::storage::rows::{ascending, lemma_value_after_put, rows_with, value_of, RowView};

verus! {

/// The key of the current snapshot: the bytes of `snapshot`.
pub open spec fn snapshot_key() -> Seq<u8> {
    seq![115u8, 110u8, 97u8, 112u8, 115u8, 104u8, 111u8, 116u8]
}

fn snapshot_key_bytes() -> (key: Vec<u8>)
    ensures
        key@ == snapshot_key(),
{
    let key: Vec<u8> = vec![115u8, 110u8, 97u8, 112u8, 115u8, 104u8, 111u8, 116u8];
    assert(key@ =~= snapshot_key());
    key
}

/// The bytes under the key of the current snapshot, if a store holds any.
pub open spec fn snapshot_record(v: DbView) -> Option<Seq<u8>> {
    value_of(v.rows_named(CF_RAFT_STORE@), snapshot_key())
}

/// The current snapshot that a store holds.
pub open spec fn snapshot_in(v: DbView) -> Option<SnapshotView> {
    match snapshot_record(v) {
        Some(b) => parse_snapshot(b),
        None => None,
    }
}

/// Whether the application can take its state from `data`: the data holds
/// rows in key order.
pub open spec fn restorable(data: Seq<u8>) -> bool {
    parse_rows(data) is Some && ascending(parse_rows(data)->0)
}

/// Whether what a store holds under the key of the current snapshot, if
/// anything, is a snapshot that the application can take its state from.
pub open spec fn snapshot_ok(v: DbView) -> bool {
    snapshot_record(v) is Some ==> snapshot_in(v) is Some && restorable(snapshot_in(v)->0.data)
}

/// The id of a snapshot: the term and the index of the last applied entry
/// and the number of the snapshot, joined by hyphens. The term and the
/// index are left out where nothing was applied.
pub open spec fn snapshot_id_of(last: Option<LogId>, number: u64) -> Seq<char> {
    match last {
        Some(last) => decimal(last.leader_id.term as nat) + "-"@ + decimal(last.index as nat)
            + "-"@ + decimal(number as nat),
        None => "--"@ + decimal(number as nat),
    }
}

/// The empty membership.
pub open spec fn no_members() -> MembershipView {
    MembershipView { log_id: None, voters: Seq::empty() }
}

/// The position of the first entry from `from` on that the application
/// refuses; the number of entries where it refuses none.
pub open spec fn first_refused(entries: Seq<EntryView>, from: int) -> int
    decreases entries.len() - from,
{
    if from < 0 || from >= entries.len() {
        entries.len() as int
    } else if !route_ok(entries[from].payload) {
        from
    } else {
        first_refused(entries, from + 1)
    }
}

/// The rows of the application after the first `n` entries have been
/// applied at second `now`.
pub open spec fn rows_through(rows: Seq<RowView>, entries: Seq<EntryView>, now: u64, n: nat) -> Seq<
    RowView,
>
    decreases n,
{
    if n == 0 {
        rows
    } else {
        route_rows(
            rows_through(rows, entries, now, (n - 1) as nat),
            entries[n - 1].payload,
            now,
        )
    }
}

/// The state machine after entries have been applied at second `now`: the
/// entries before the first that the application refuses are applied.
pub open spec fn applied(before: MachineView, entries: Seq<EntryView>, now: u64) -> MachineView {
    let n = first_refused(entries, 0);
    MachineView {
        last_applied: if n == 0 {
            before.last_applied
        } else {
            Some(entries[n - 1].log_id)
        },
        membership: before.membership,
        rows: rows_through(before.rows, entries, now, n as nat),
    }
}

/// The state machine as contracts see it.
pub struct MachineView {
    /// The entry applied last, if any was.
    pub last_applied: Option<LogId>,
    /// The membership.
    pub membership: MembershipView,
    /// The rows of the application.
    pub rows: Seq<RowView>,
}

/// The bookkeeping of the state machine.
pub struct StateMachineData {
    /// The entry applied last, if any was.
    pub last_applied_log_id: Option<LogId>,
    /// The membership.
    pub last_membership: StoredMembership,
    /// The application.
    pub route: DataRoute,
}

/// The state machine store.
pub struct StateMachineStore {
    pub data: StateMachineData,
    snapshot_idx: u64,
    db: DB,
    store: ColumnFamily,
}

impl StateMachineStore {
    /// What the engine under the store holds.
    pub closed spec fn db_view(&self) -> DbView {
        self.db@
    }

    /// How many snapshots the store has built.
    pub closed spec fn snapshots_built(&self) -> u64 {
        self.snapshot_idx
    }

    /// The store stands on an engine that has its namespace; what it holds
    /// as current snapshot can be restored; the application is well formed.
    pub closed spec fn wf(&self) -> bool {
        &&& self.db@.well_formed()
        &&& self.db.serves(self.store)
        &&& self.db@.families[self.store.index as int].name == CF_RAFT_STORE@
        &&& snapshot_ok(self.db@)
        &&& self.data.route.wf()
    }

    /// The state machine: what was applied last, the membership, and the
    /// rows of the application.
    pub closed spec fn view(&self) -> MachineView {
        MachineView {
            last_applied: self.data.last_applied_log_id,
            membership: self.data.last_membership@,
            rows: self.data.route.rows(),
        }
    }

    /// The current snapshot, if one is stored.
    pub open spec fn current_snapshot(&self) -> Option<SnapshotView> {
        snapshot_in(self.db_view())
    }

    /// Whether everything that the application wrote is durable.
    pub closed spec fn applied_durable(&self) -> bool {
        self.data.route.synced()
    }

    /// Whether everything written to the store is durable.
    pub open spec fn synced(&self) -> bool {
        self.db_view().synced
    }

    proof fn lemma_handle(&self)
        requires
            self.wf(),
        ensures
            self.db@.rows_named(CF_RAFT_STORE@) == self.db@.rows(self.store.index as int),
            ascending(self.db@.rows(self.store.index as int)),
    {
        lemma_family_position(self.db@, CF_RAFT_STORE@, self.store.index as int);
    }

    /// Opens the state machine store on an engine, with an application.
    /// Where the engine holds a snapshot, the state machine starts from it:
    /// the bookkeeping is that of the snapshot, and the application takes
    /// its state from the snapshot's data. Where it holds none, nothing has
    /// been applied. A snapshot that cannot be read or restored fails the
    /// opening.
    pub fn new(db: DB, route: DataRoute) -> (r: StorageResult<StateMachineStore>)
        requires
            route.wf(),
        ensures
            r is Ok == snapshot_ok(db@),
            r is Ok ==> {
                &&& r->Ok_0.wf()
                &&& r->Ok_0.snapshots_built() == 0
                &&& r->Ok_0.current_snapshot() == snapshot_in(db@)
                &&& r->Ok_0.synced() == db@.synced
            },
            r is Ok && snapshot_in(db@) is None ==> r->Ok_0@ == (MachineView {
                last_applied: None,
                membership: no_members(),
                rows: route.rows(),
            }),
            r is Ok && snapshot_in(db@) is Some ==> r->Ok_0@ == (MachineView {
                last_applied: snapshot_in(db@)->0.meta.last_log_id,
                membership: snapshot_in(db@)->0.meta.last_membership,
                rows: parse_rows(snapshot_in(db@)->0.data)->0,
            }),
            r is Ok && db@.has_family(CF_RAFT_STORE@) ==> r->Ok_0.db_view() == db@,
            r is Err ==> r->Err_0.verb == ErrorVerb::Read && r->Err_0.subject == (
            if snapshot_in(db@) is None {
                ErrorSubject::Snapshot
            } else {
                ErrorSubject::StateMachine
            }),
    {
        let ghost given = db@;
        let mut engine = db;
        engine.known_well_formed();
        let store: ColumnFamily = engine.create_cf(CF_RAFT_STORE);
        engine.known_well_formed();
        proof {
            if !given.has_family(CF_RAFT_STORE@) {
                lemma_rows_named_with_family(given, CF_RAFT_STORE@, CF_RAFT_STORE@);
            }
            lemma_family_position(engine@, CF_RAFT_STORE@, store.index as int);
            assert(engine@.rows_named(CF_RAFT_STORE@) == given.rows_named(CF_RAFT_STORE@));
        }
        let mut route = route;
        let stored: Option<Vec<u8>> = match engine.get_cf(&store, snapshot_key_bytes().as_slice()) {
            Ok(stored) => stored,
            Err(_) => None,
        };
        match stored {
            None => Ok(
                StateMachineStore {
                    data: StateMachineData {
                        last_applied_log_id: None,
                        last_membership: StoredMembership::default(),
                        route,
                    },
                    snapshot_idx: 0,
                    db: engine,
                    store,
                },
            ),
            Some(bytes) => {
                let snapshot: StoredSnapshot = match decode_snapshot(bytes.as_slice()) {
                    Some(snapshot) => snapshot,
                    None => {
                        return Err(
                            StorageError::read_snapshot(
                                String::from_str("stored snapshot cannot be read"),
                            ),
                        );
                    },
                };
                match route.recover_snapshot(snapshot.data) {
                    Ok(()) => Ok(
                        StateMachineStore {
                            data: StateMachineData {
                                last_applied_log_id: snapshot.meta.last_log_id,
                                last_membership: snapshot.meta.last_membership,
                                route,
                            },
                            snapshot_idx: 0,
                            db: engine,
                            store,
                        },
                    ),
                    Err(e) => Err(StorageError::state_machine(ErrorVerb::Read, e.to_string())),
                }
            },
        }
    }

    /// Opens the state machine store on an engine, with the application on
    /// a store of its own. See [`StateMachineStore::new`].
    pub fn open(db: DB, rows: DB) -> (r: StorageResult<StateMachineStore>)
        ensures
            r is Ok == snapshot_ok(db@),
            r is Ok ==> {
                &&& r->Ok_0.wf()
                &&& r->Ok_0.snapshots_built() == 0
                &&& r->Ok_0.current_snapshot() == snapshot_in(db@)
                &&& r->Ok_0.synced() == db@.synced
            },
            r is Ok && snapshot_in(db@) is None ==> r->Ok_0@ == (MachineView {
                last_applied: None,
                membership: no_members(),
                rows: rows@.rows_named(DB_COLUMN_FAMILY_CLUSTER@),
            }),
            r is Ok && snapshot_in(db@) is Some ==> r->Ok_0@ == (MachineView {
                last_applied: snapshot_in(db@)->0.meta.last_log_id,
                membership: snapshot_in(db@)->0.meta.last_membership,
                rows: parse_rows(snapshot_in(db@)->0.data)->0,
            }),
            r is Err ==> r->Err_0.verb == ErrorVerb::Read,
    {
        StateMachineStore::new(db, DataRoute::open(rows))
    }

    /// What was applied last, and the membership.
    pub fn applied_state(&self) -> (r: StorageResult<(Option<LogId>, StoredMembership)>)
        ensures
            r is Ok,
            r->Ok_0.0 == self@.last_applied,
            r->Ok_0.1@ == self@.membership,
    {
        Ok((self.data.last_applied_log_id, self.data.last_membership.clone()))
    }

    /// The current snapshot, if one is stored.
    pub fn get_current_snapshot(&self) -> (r: StorageResult<Option<Snapshot>>)
        requires
            self.wf(),
        ensures
            r is Ok,
            r->Ok_0 is Some == self.current_snapshot() is Some,
            r->Ok_0 is Some ==> Some(r->Ok_0->0@) == self.current_snapshot(),
    {
        match self.get_current_snapshot_() {
            Some(stored) => Ok(Some(Snapshot { meta: stored.meta, snapshot: stored.data })),
            None => Ok(None),
        }
    }

    fn get_current_snapshot_(&self) -> (r: Option<StoredSnapshot>)
        requires
            self.wf(),
        ensures
            r is Some == self.current_snapshot() is Some,
            r is Some ==> Some(r->0@) == self.current_snapshot(),
    {
        proof {
            self.lemma_handle();
        }
        match self.db.get_cf(&self.store, snapshot_key_bytes().as_slice()) {
            Ok(Some(bytes)) => decode_snapshot(bytes.as_slice()),
            _ => None,
        }
    }

    fn set_current_snapshot_(&mut self, snap: &StoredSnapshot)
        requires
            old(self).wf(),
            restorable(snap@.data),
        ensures
            final(self).wf(),
            final(self).current_snapshot() == Some(snap@),
            final(self).data == old(self).data,
            final(self).snapshots_built() == old(self).snapshots_built(),
            final(self).synced(),
    {
        let ghost before = self.db@;
        let ghost rows = before.rows(self.store.index as int);
        proof {
            self.lemma_handle();
        }
        let store: ColumnFamily = self.store;
        let bytes: Vec<u8> = encode_snapshot(snap);
        let ghost bytes_view = bytes@;
        let r = self.db.put_cf(&store, snapshot_key_bytes(), bytes);
        self.db.known_well_formed();
        let ghost mid = self.db@;
        let r = self.db.flush_wal(true);
        self.db.known_well_formed();
        proof {
            let after = rows_with(rows, snapshot_key(), bytes_view);
            lemma_rows_named_after(before, self.store.index as int, after, CF_RAFT_STORE@);
            lemma_rows_named_after(mid, self.store.index as int, after, CF_RAFT_STORE@);
            lemma_value_after_put(rows, snapshot_key(), bytes_view, snapshot_key());
            lemma_snapshot_round_trip(snap@);
        }
    }

    /// Applies the entries in their order, as of second `now`: the payload
    /// of each goes to the application, and the entry counts as applied
    /// when the application has carried it out. The first entry that the
    /// application refuses ends the call with a failure; the entries before
    /// it stay applied. On success there is one response per entry, and
    /// what was applied is durable.
    pub fn apply_at(&mut self, entries: &Vec<Entry>, now: u64) -> (r: StorageResult<
        Vec<AppResponseData>,
    >)
        requires
            old(self).wf(),
        ensures
            final(self).wf(),
            final(self)@ == applied(old(self)@, entry_views(entries@), now),
            r is Ok == (first_refused(entry_views(entries@), 0) == entries@.len()),
            r is Ok ==> r->Ok_0@.len() == entries@.len() && final(self).applied_durable(),
            r is Err ==> r->Err_0.subject == ErrorSubject::StateMachine && r->Err_0.verb
                == ErrorVerb::Write,
            final(self).current_snapshot() == old(self).current_snapshot(),
            final(self).snapshots_built() == old(self).snapshots_built(),
    {
        let ghost all = entry_views(entries@);
        let ghost before = self@;
        let mut responses: Vec<AppResponseData> = Vec::new();
        let mut i: usize = 0;
        while i < entries.len()
            invariant
                i <= entries.len(),
                all == entry_views(entries@),
                before == old(self)@,
                self.wf(),
                self.db == old(self).db,
                self.store == old(self).store,
                self.snapshot_idx == old(self).snapshot_idx,
                responses@.len() == i,
                first_refused(all, 0) == first_refused(all, i as int),
                self@.membership == before.membership,
                self@.rows == rows_through(before.rows, all, now, i as nat),
                self@.last_applied == (if i == 0 {
                    before.last_applied
                } else {
                    Some(all[i - 1].log_id)
                }),
            decreases entries.len() - i,
        {
            assert(all[i as int] == entries@[i as int]@);
            match self.data.route.route_at(entries[i].payload.as_slice(), now) {
                Ok(response) => {
                    responses.push(response);
                    self.data.last_applied_log_id = Some(entries[i].log_id);
                },
                Err(e) => {
                    assert(first_refused(all, i as int) == i);
                    return Err(StorageError::state_machine(ErrorVerb::Write, e.to_string()));
                },
            }
            i += 1;
        }
        self.data.route.flush();
        Ok(responses)
    }

    /// Applies the entries in their order, as of the time of the machine.
    pub fn apply(&mut self, entries: &Vec<Entry>) -> (r: StorageResult<Vec<AppResponseData>>)
        requires
            old(self).wf(),
        ensures
            final(self).wf(),
            exists|now: u64| final(self)@ == #[trigger] applied(old(self)@, entry_views(entries@), now),
            r is Ok == (first_refused(entry_views(entries@), 0) == entries@.len()),
            r is Ok ==> r->Ok_0@.len() == entries@.len(),
            final(self).current_snapshot() == old(self).current_snapshot(),
            final(self).snapshots_built() == old(self).snapshots_built(),
    {
        let now: u64 = now_second();
        let r = self.apply_at(entries, now);
        assert(self@ == applied(old(self)@, entry_views(entries@), now));
        r
    }

    /// The id of the next snapshot.
    fn next_snapshot_id(last: &Option<LogId>, number: u64) -> (id: String)
        ensures
            id@ == snapshot_id_of(*last, number),
    {
        let digits: String = u64_to_string(number);
        match last {
            Some(last) => {
                let mut id: String = u64_to_string(last.leader_id.term);
                id.append("-");
                let index: String = u64_to_string(last.index);
                id.append(index.as_str());
                id.append("-");
                id.append(digits.as_str());
                id
            },
            None => concat2("--", digits.as_str()),
        }
    }

    /// Captures the state machine: the application's state, whole, with
    /// what was applied last, the membership, and an id that no earlier
    /// snapshot of this store has. The snapshot becomes the current
    /// snapshot, durably, and is handed out. The call fails, and changes
    /// nothing, where the store has run out of snapshot numbers.
    pub fn build_snapshot(&mut self) -> (r: StorageResult<Snapshot>)
        requires
            old(self).wf(),
        ensures
            final(self).wf(),
            final(self)@ == old(self)@,
            r is Ok == (old(self).snapshots_built() < u64::MAX),
            r is Ok ==> {
                &&& final(self).snapshots_built() == old(self).snapshots_built() + 1
                &&& r->Ok_0@ == (SnapshotView {
                    meta: SnapshotMetaView {
                        last_log_id: old(self)@.last_applied,
                        last_membership: old(self)@.membership,
                        snapshot_id: snapshot_id_of(
                            old(self)@.last_applied,
                            final(self).snapshots_built(),
                        ),
                    },
                    data: rows_bytes(old(self)@.rows),
                })
                &&& final(self).current_snapshot() == Some(r->Ok_0@)
                &&& final(self).synced()
            },
            r is Err ==> {
                &&& final(self).current_snapshot() == old(self).current_snapshot()
                &&& final(self).snapshots_built() == old(self).snapshots_built()
                &&& r->Err_0.subject == ErrorSubject::Snapshot
                &&& r->Err_0.verb == ErrorVerb::Write
            },
    {
        if self.snapshot_idx == u64::MAX {
            return Err(
                StorageError::write_snapshot(String::from_str("snapshot numbers are used up")),
            );
        }
        self.snapshot_idx = self.snapshot_idx + 1;
        let last_applied_log: Option<LogId> = self.data.last_applied_log_id;
        let last_membership: StoredMembership = self.data.last_membership.clone();
        let kv_json: Vec<u8> = self.data.route.build_snapshot();
        let snapshot_id: String = Self::next_snapshot_id(&last_applied_log, self.snapshot_idx);
        let meta: SnapshotMeta = SnapshotMeta {
            last_log_id: last_applied_log,
            last_membership,
            snapshot_id,
        };
        let snapshot: StoredSnapshot = StoredSnapshot { meta: meta.clone(), data: kv_json.clone() };
        self.set_current_snapshot_(&snapshot);
        Ok(Snapshot { meta, snapshot: kv_json })
    }

    /// Takes in a snapshot: the application takes its state from the data,
    /// and the bookkeeping becomes that of the snapshot, which becomes the
    /// current snapshot, durably. Where the application cannot take its
    /// state from the data, the call fails and changes nothing.
    pub fn install_snapshot(&mut self, meta: &SnapshotMeta, snapshot: Vec<u8>) -> (r: StorageResult<
        (),
    >)
        requires
            old(self).wf(),
        ensures
            final(self).wf(),
            r is Ok == restorable(snapshot@),
            r is Ok ==> {
                &&& final(self)@ == (MachineView {
                    last_applied: meta@.last_log_id,
                    membership: meta@.last_membership,
                    rows: parse_rows(snapshot@)->0,
                })
                &&& final(self).current_snapshot() == Some(
                    SnapshotView { meta: meta@, data: snapshot@ },
                )
                &&& final(self).synced()
            },
            r is Err ==> {
                &&& final(self)@ == old(self)@
                &&& final(self).current_snapshot() == old(self).current_snapshot()
                &&& r->Err_0.subject == ErrorSubject::StateMachine
                &&& r->Err_0.verb == ErrorVerb::Read
            },
            final(self).snapshots_built() == old(self).snapshots_built(),
    {
        match self.data.route.recover_snapshot(snapshot.clone()) {
            Ok(()) => {},
            Err(e) => {
                return Err(StorageError::state_machine(ErrorVerb::Read, e.to_string()));
            },
        }
        self.data.last_applied_log_id = meta.last_log_id;
        self.data.last_membership = meta.last_membership.clone();
        let stored: StoredSnapshot = StoredSnapshot { meta: meta.clone(), data: snapshot };
        self.set_current_snapshot_(&stored);
        Ok(())
    }

    /// An empty buffer for a snapshot that is about to arrive.
    pub fn begin_receiving_snapshot(&self) -> (r: StorageResult<Vec<u8>>)
        ensures
            r is Ok,
            r->Ok_0@.len() == 0,
    {
        Ok(Vec::new())
    }

    /// The handle of the namespace of the control records.
    pub fn store(&self) -> (cf: ColumnFamily)
        requires
            self.wf(),
        ensures
            cf.index < self.db_view().families.len(),
            self.db_view().families[cf.index as int].name == CF_RAFT_STORE@,
    {
        self.store
    }

    /// Makes everything written to the store durable.
    pub fn flush(&mut self)
        requires
            old(self).wf(),
        ensures
            final(self).wf(),
            final(self).db_view() == old(self).db_view().flushed(),
            final(self).current_snapshot() == old(self).current_snapshot(),
            final(self)@ == old(self)@,
            final(self).snapshots_built() == old(self).snapshots_built(),
    {
        let ghost before = self.db@;
        let r = self.db.flush_wal(true);
        self.db.known_well_formed();
        proof {
            let i = self.store.index as int;
            lemma_rows_named_after(before, i, before.rows(i), CF_RAFT_STORE@);
        }
    }

    /// The engine under the store.
    pub fn db(&self) -> (db: &DB)
        ensures
            db@ == self.db_view(),
    {
        &self.db
    }

    /// Gives the engine and the application back.
    pub fn into_parts(self) -> (parts: (DB, DataRoute))
        requires
            self.wf(),
        ensures
            parts.0@ == self.db_view(),
            parts.0@.has_family(CF_RAFT_STORE@),
            snapshot_ok(parts.0@),
            parts.1.wf(),
            parts.1.rows() == self@.rows,
    {
        proof {
            self.lemma_handle();
        }
        (self.db, self.data.route)
    }

    /// Opens the store anew on the engine it stands on, as after a restart.
    /// Where a snapshot is stored, the new store stands where the snapshot
    /// was taken: what was applied last, the membership and the rows of the
    /// application are those of the snapshot. Where none is stored, nothing
    /// has been applied.
    pub fn reopen(self) -> (r: StorageResult<StateMachineStore>)
        requires
            self.wf(),
        ensures
            r is Ok,
            r->Ok_0.wf(),
            r->Ok_0.current_snapshot() == self.current_snapshot(),
            self.current_snapshot() is Some ==> r->Ok_0@ == (MachineView {
                last_applied: self.current_snapshot()->0.meta.last_log_id,
                membership: self.current_snapshot()->0.meta.last_membership,
                rows: parse_rows(self.current_snapshot()->0.data)->0,
            }),
            self.current_snapshot() is None ==> r->Ok_0@ == (MachineView {
                last_applied: None,
                membership: no_members(),
                rows: self@.rows,
            }),
    {
        let (db, route) = self.into_parts();
        StateMachineStore::new(db, route)
    }
}

/// The state machine that is opened on a snapshot stands where the state
/// machine stood of which the snapshot was built: what was applied last,
/// the membership and the rows of the application are the same.
pub proof fn lemma_built_snapshot_restores(
    at_capture: MachineView,
    built: SnapshotView,
    reopened: MachineView,
)
    requires
        ascending(at_capture.rows),
        rows_fit(at_capture.rows),
        built.meta.last_log_id == at_capture.last_applied,
        built.meta.last_membership == at_capture.membership,
        built.data == rows_bytes(at_capture.rows),
        reopened == (MachineView {
            last_applied: built.meta.last_log_id,
            membership: built.meta.last_membership,
            rows: parse_rows(built.data)->0,
        }),
    ensures
        restorable(built.data),
        reopened == at_capture,
{
    lemma_rows_round_trip(at_capture.rows);
}

} // verus!
