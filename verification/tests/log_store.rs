use placement_center::raft::codec::{
    decode_entry, decode_log_id, decode_opt_log_id, decode_snapshot, decode_vote, encode_entry,
    encode_log_id, encode_opt_log_id, encode_snapshot, encode_vote,
};
use placement_center::raft::error::{ErrorSubject, ErrorVerb};
use placement_center::raft::index_key::{bin_to_id, id_to_bin};
use placement_center::raft::log_store::{cf_raft_logs, cf_raft_store, LogStore, RangeBound};
use placement_center::raft::types::{
    Entry, LeaderId, LogId, LogState, SnapshotMeta, StoredMembership, StoredSnapshot, Vote,
};
use placement_center::storage::db::DB;

fn log_id(term: u64, index: u64) -> LogId {
    LogId { leader_id: LeaderId { term, node_id: 1 }, index }
}

fn entry(term: u64, index: u64, payload: &[u8]) -> Entry {
    Entry { log_id: log_id(term, index), payload: payload.to_vec() }
}

fn store_with(indices: &[u64]) -> LogStore {
    let mut store = LogStore::new(DB::new()).unwrap();
    let entries: Vec<Entry> =
        indices.iter().map(|i| entry(1, *i, format!("entry-{}", i).as_bytes())).collect();
    store.append(&entries).unwrap();
    store
}

fn indices(entries: &[Entry]) -> Vec<u64> {
    entries.iter().map(|e| e.log_id.index).collect()
}

fn all(store: &LogStore) -> Vec<u64> {
    indices(&store.try_get_log_entries(RangeBound::Unbounded, RangeBound::Unbounded).unwrap())
}

#[test]
fn index_key_is_big_endian() {
    assert_eq!(id_to_bin(0), vec![0, 0, 0, 0, 0, 0, 0, 0]);
    assert_eq!(id_to_bin(1), vec![0, 0, 0, 0, 0, 0, 0, 1]);
    assert_eq!(id_to_bin(258), vec![0, 0, 0, 0, 0, 0, 1, 2]);
    assert_eq!(
        id_to_bin(0x0102030405060708),
        vec![0x01, 0x02, 0x03, 0x04, 0x05, 0x06, 0x07, 0x08]
    );
    assert_eq!(id_to_bin(u64::MAX), vec![0xff; 8]);
}

#[test]
fn index_key_round_trip() {
    for i in [0u64, 1, 255, 256, 65535, 65536, 1 << 32, (1 << 56) + 3, u64::MAX - 1, u64::MAX] {
        assert_eq!(bin_to_id(&id_to_bin(i)), i);
    }
    // Only the first eight bytes count.
    assert_eq!(bin_to_id(&[0, 0, 0, 0, 0, 0, 0, 7, 9, 9]), 7);
}

#[test]
fn index_key_order_is_numeric_order() {
    let samples = [0u64, 1, 2, 255, 256, 257, 65535, 65536, 1 << 40, u64::MAX - 1, u64::MAX];
    for a in samples {
        for b in samples {
            assert_eq!(id_to_bin(a) < id_to_bin(b), a < b);
        }
    }
}

#[test]
fn records_round_trip() {
    let id = log_id(7, 42);
    assert_eq!(encode_log_id(&id).len(), 24);
    assert_eq!(decode_log_id(&encode_log_id(&id)), Some(id));
    assert_eq!(decode_log_id(&[0u8; 23]), None);

    assert_eq!(decode_opt_log_id(&encode_opt_log_id(&Some(id))), Some(Some(id)));
    assert_eq!(decode_opt_log_id(&encode_opt_log_id(&None)), Some(None));
    let mut bad = encode_opt_log_id(&Some(id));
    bad[0] = 2;
    assert_eq!(decode_opt_log_id(&bad), None);

    let vote = Vote { leader_id: LeaderId { term: 3, node_id: 9 }, committed: true };
    assert_eq!(encode_vote(&vote).len(), 17);
    assert_eq!(decode_vote(&encode_vote(&vote)), Some(vote));
    let mut bad = encode_vote(&vote);
    bad[16] = 2;
    assert_eq!(decode_vote(&bad), None);

    let e = entry(2, 5, b"payload");
    let row = encode_entry(&e);
    assert_eq!(&row[24..], b"payload");
    assert_eq!(decode_entry(&row), Some(e));
    assert_eq!(decode_entry(&[1u8; 10]), None);
}

#[test]
fn snapshot_round_trip() {
    let snapshot = StoredSnapshot {
        meta: SnapshotMeta {
            last_log_id: Some(log_id(4, 17)),
            last_membership: StoredMembership { log_id: Some(log_id(1, 2)), voters: vec![1, 2, 3] },
            snapshot_id: "4-17-1".to_string(),
        },
        data: vec![9, 8, 7],
    };
    let row = encode_snapshot(&snapshot);
    assert_eq!(decode_snapshot(&row), Some(snapshot));
    assert_eq!(decode_snapshot(&row[..row.len() - 4]).map(|s| s.data), None);
    assert_eq!(decode_snapshot(&[0u8; 10]), None);

    let empty = StoredSnapshot {
        meta: SnapshotMeta {
            last_log_id: None,
            last_membership: StoredMembership::default(),
            snapshot_id: "--1".to_string(),
        },
        data: Vec::new(),
    };
    assert_eq!(decode_snapshot(&encode_snapshot(&empty)), Some(empty));
}

#[test]
fn namespaces_are_named() {
    assert_eq!(cf_raft_store(), "store");
    assert_eq!(cf_raft_logs(), "logs");
}

#[test]
fn empty_store_has_no_state() {
    let store = LogStore::new(DB::new()).unwrap();
    assert_eq!(
        store.get_log_state().unwrap(),
        LogState { last_purged_log_id: None, last_log_id: None }
    );
    assert_eq!(store.read_vote().unwrap(), None);
    assert_eq!(store.read_committed().unwrap(), None);
    assert!(all(&store).is_empty());
}

#[test]
fn appended_entries_are_read_back_in_index_order() {
    let store = store_with(&[3, 1, 2, 300, 256, 255]);
    assert_eq!(all(&store), vec![1, 2, 3, 255, 256, 300]);
    let entries =
        store.try_get_log_entries(RangeBound::Included(2), RangeBound::Excluded(3)).unwrap();
    assert_eq!(entries, vec![entry(1, 2, b"entry-2")]);
}

#[test]
fn range_read_returns_exactly_the_range() {
    let store = store_with(&[1, 2, 3, 4, 5, 6, 7, 8, 9, 10]);
    let get = |s: RangeBound, e: RangeBound| indices(&store.try_get_log_entries(s, e).unwrap());
    // Half open.
    assert_eq!(get(RangeBound::Included(3), RangeBound::Excluded(7)), vec![3, 4, 5, 6]);
    // Closed.
    assert_eq!(get(RangeBound::Included(3), RangeBound::Included(7)), vec![3, 4, 5, 6, 7]);
    // An excluded start begins one later.
    assert_eq!(get(RangeBound::Excluded(3), RangeBound::Included(5)), vec![4, 5]);
    // Index 0 stands for the beginning.
    assert_eq!(get(RangeBound::Included(0), RangeBound::Excluded(3)), vec![1, 2]);
    assert_eq!(get(RangeBound::Unbounded, RangeBound::Excluded(3)), vec![1, 2]);
    assert_eq!(get(RangeBound::Included(9), RangeBound::Unbounded), vec![9, 10]);
    // Empty ranges.
    assert_eq!(get(RangeBound::Included(5), RangeBound::Excluded(5)), Vec::<u64>::new());
    assert_eq!(get(RangeBound::Included(7), RangeBound::Excluded(3)), Vec::<u64>::new());
    assert_eq!(get(RangeBound::Included(11), RangeBound::Unbounded), Vec::<u64>::new());
    assert_eq!(get(RangeBound::Excluded(u64::MAX), RangeBound::Unbounded), Vec::<u64>::new());
}

#[test]
fn range_read_skips_gaps() {
    let store = store_with(&[5, 10, 15, u64::MAX]);
    let get = |s: RangeBound, e: RangeBound| indices(&store.try_get_log_entries(s, e).unwrap());
    assert_eq!(get(RangeBound::Included(6), RangeBound::Excluded(15)), vec![10]);
    assert_eq!(get(RangeBound::Included(6), RangeBound::Included(15)), vec![10, 15]);
    assert_eq!(get(RangeBound::Included(16), RangeBound::Included(u64::MAX)), vec![u64::MAX]);
    assert_eq!(get(RangeBound::Included(16), RangeBound::Excluded(u64::MAX)), Vec::<u64>::new());
}

#[test]
fn append_replaces_the_entry_at_its_index() {
    let mut store = store_with(&[1, 2, 3]);
    store.append(&vec![entry(2, 2, b"new")]).unwrap();
    let entries = store
        .try_get_log_entries(RangeBound::Unbounded, RangeBound::Unbounded)
        .unwrap();
    assert_eq!(entries, vec![entry(1, 1, b"entry-1"), entry(2, 2, b"new"), entry(1, 3, b"entry-3")]);
}

#[test]
fn log_state_follows_the_last_entry() {
    let store = store_with(&[1, 2, 3]);
    assert_eq!(
        store.get_log_state().unwrap(),
        LogState { last_purged_log_id: None, last_log_id: Some(log_id(1, 3)) }
    );
}

#[test]
fn purge_removes_the_prefix_and_moves_the_marker() {
    let mut store = store_with(&[1, 2, 3, 4, 5]);
    store.purge(log_id(1, 3)).unwrap();
    assert_eq!(all(&store), vec![4, 5]);
    assert_eq!(
        store.get_log_state().unwrap(),
        LogState { last_purged_log_id: Some(log_id(1, 3)), last_log_id: Some(log_id(1, 5)) }
    );
    let low = store
        .try_get_log_entries(RangeBound::Included(0), RangeBound::Included(3))
        .unwrap();
    assert!(low.is_empty());
    // The entries above the marker are what they were.
    let high = store
        .try_get_log_entries(RangeBound::Included(4), RangeBound::Unbounded)
        .unwrap();
    assert_eq!(high, vec![entry(1, 4, b"entry-4"), entry(1, 5, b"entry-5")]);
}

#[test]
fn purge_of_everything_leaves_the_marker_as_last_entry() {
    let mut store = store_with(&[1, 2, 3]);
    store.purge(log_id(1, 3)).unwrap();
    assert!(all(&store).is_empty());
    assert_eq!(
        store.get_log_state().unwrap(),
        LogState { last_purged_log_id: Some(log_id(1, 3)), last_log_id: Some(log_id(1, 3)) }
    );
}

#[test]
fn purge_through_the_largest_index() {
    let mut store = store_with(&[1, u64::MAX - 1, u64::MAX]);
    store.purge(log_id(2, u64::MAX)).unwrap();
    assert!(all(&store).is_empty());
    assert_eq!(store.get_log_state().unwrap().last_purged_log_id, Some(log_id(2, u64::MAX)));
}

#[test]
fn truncate_removes_the_suffix() {
    let mut store = store_with(&[1, 2, 3, 4, 5]);
    store.truncate(log_id(1, 3)).unwrap();
    assert_eq!(all(&store), vec![1, 2]);
    let low = store
        .try_get_log_entries(RangeBound::Unbounded, RangeBound::Excluded(3))
        .unwrap();
    assert_eq!(low, vec![entry(1, 1, b"entry-1"), entry(1, 2, b"entry-2")]);
    assert_eq!(store.get_log_state().unwrap().last_log_id, Some(log_id(1, 2)));
}

#[test]
fn truncate_reaches_the_largest_index() {
    let mut store = store_with(&[1, 7, u64::MAX - 1, u64::MAX]);
    store.truncate(log_id(1, 7)).unwrap();
    assert_eq!(all(&store), vec![1]);
    let mut store = store_with(&[1, u64::MAX]);
    store.truncate(log_id(1, u64::MAX)).unwrap();
    assert_eq!(all(&store), vec![1]);
    store.truncate(log_id(1, 0)).unwrap();
    assert!(all(&store).is_empty());
}

#[test]
fn vote_is_read_back_and_overwritten() {
    let mut store = store_with(&[1, 2]);
    let first = Vote { leader_id: LeaderId { term: 1, node_id: 2 }, committed: false };
    let second = Vote { leader_id: LeaderId { term: 2, node_id: 3 }, committed: true };
    store.save_vote(&first).unwrap();
    assert_eq!(store.read_vote().unwrap(), Some(first));
    store.save_vote(&second).unwrap();
    assert_eq!(store.read_vote().unwrap(), Some(second));
    assert_eq!(all(&store), vec![1, 2]);
    assert_eq!(store.read_committed().unwrap(), None);
}

#[test]
fn committed_is_read_back_and_overwritten() {
    let mut store = store_with(&[1, 2]);
    store.save_committed(Some(log_id(1, 2))).unwrap();
    assert_eq!(store.read_committed().unwrap(), Some(log_id(1, 2)));
    store.save_committed(None).unwrap();
    assert_eq!(store.read_committed().unwrap(), None);
    assert_eq!(store.read_vote().unwrap(), None);
}

#[test]
fn reopened_store_holds_what_was_written() {
    let mut store = store_with(&[1, 2, 3, 4]);
    let vote = Vote { leader_id: LeaderId { term: 5, node_id: 6 }, committed: true };
    store.save_vote(&vote).unwrap();
    store.save_committed(Some(log_id(1, 3))).unwrap();
    store.purge(log_id(1, 1)).unwrap();

    let reopened = store.reopen().unwrap();
    assert_eq!(reopened.read_vote().unwrap(), Some(vote));
    assert_eq!(reopened.read_committed().unwrap(), Some(log_id(1, 3)));
    assert_eq!(all(&reopened), vec![2, 3, 4]);
    assert_eq!(
        reopened.get_log_state().unwrap(),
        LogState { last_purged_log_id: Some(log_id(1, 1)), last_log_id: Some(log_id(1, 4)) }
    );

    // A new store instance on the same engine.
    let again = LogStore::new(reopened.into_db()).unwrap();
    assert_eq!(again.read_vote().unwrap(), Some(vote));
    assert_eq!(all(&again), vec![2, 3, 4]);
}

#[test]
fn engine_with_a_broken_log_row_is_refused() {
    let mut db = DB::new();
    let logs = db.create_cf("logs");
    db.put_cf(&logs, id_to_bin(3), vec![1, 2, 3]).unwrap();
    let err = LogStore::new(db).err().unwrap();
    assert_eq!(err.subject, ErrorSubject::Logs);
    assert_eq!(err.verb, ErrorVerb::Read);

    // A row whose key is not the key of its entry's index.
    let mut db = DB::new();
    let logs = db.create_cf("logs");
    db.put_cf(&logs, id_to_bin(4), encode_entry(&entry(1, 3, b"x"))).unwrap();
    assert!(LogStore::new(db).is_err());
}

#[test]
fn engine_with_a_broken_vote_is_refused() {
    let mut db = DB::new();
    let store = db.create_cf("store");
    db.put_cf(&store, b"vote".to_vec(), vec![1, 2, 3]).unwrap();
    let err = LogStore::new(db).err().unwrap();
    assert_eq!(err.subject, ErrorSubject::Vote);
    assert_eq!(err.verb, ErrorVerb::Read);
}

#[test]
fn records_live_under_their_keys() {
    let mut store = LogStore::new(DB::new()).unwrap();
    let vote = Vote { leader_id: LeaderId { term: 1, node_id: 2 }, committed: false };
    store.save_vote(&vote).unwrap();
    store.save_committed(Some(log_id(1, 2))).unwrap();
    store.purge(log_id(1, 1)).unwrap();
    store.append(&vec![entry(1, 2, b"x")]).unwrap();
    let db = store.into_db();
    let cf = db.cf_handle("store").unwrap();
    assert_eq!(db.get_cf(&cf, b"vote").unwrap(), Some(encode_vote(&vote)));
    assert_eq!(
        db.get_cf(&cf, b"committed").unwrap(),
        Some(encode_opt_log_id(&Some(log_id(1, 2))))
    );
    assert_eq!(
        db.get_cf(&cf, b"last_purged_log_id").unwrap(),
        Some(encode_log_id(&log_id(1, 1)))
    );
    let logs = db.cf_handle("logs").unwrap();
    assert_eq!(db.get_cf(&logs, &id_to_bin(2)).unwrap(), Some(encode_entry(&entry(1, 2, b"x"))));
}

#[test]
fn engine_with_a_broken_control_record_is_refused() {
    for key in ["committed", "last_purged_log_id"] {
        let mut db = DB::new();
        let store = db.create_cf("store");
        db.put_cf(&store, key.as_bytes().to_vec(), vec![9]).unwrap();
        let err = LogStore::new(db).err().unwrap();
        assert_eq!(err.subject, ErrorSubject::Store);
        assert_eq!(err.verb, ErrorVerb::Read);
    }
}

#[test]
fn writes_are_durable_when_the_call_returns() {
    let mut store = LogStore::new(DB::new()).unwrap();
    store.append(&vec![entry(1, 1, b"x")]).unwrap();
    assert!(store.db().is_synced());
    store.truncate(log_id(1, 1)).unwrap();
    assert!(!store.db().is_synced());
    store.save_vote(&Vote { leader_id: LeaderId { term: 1, node_id: 1 }, committed: false }).unwrap();
    assert!(store.db().is_synced());
    store.truncate(log_id(1, 0)).unwrap();
    store.flush();
    assert!(store.db().is_synced());
    assert_eq!(store.db().cf_handle("store"), Some(store.store()));
    assert_eq!(store.db().cf_handle("logs"), Some(store.logs()));
}
