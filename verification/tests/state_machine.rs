use placement_center::raft::error::{ErrorSubject, ErrorVerb};
use placement_center::raft::codec::encode_snapshot;
use placement_center::raft::state_machine_store::StateMachineStore;
use placement_center::raft::types::{
    Entry, LeaderId, LogId, Node, SnapshotMeta, StoredMembership, StoredSnapshot,
};
use placement_center::route::data::{StorageData, StorageDataType};
use placement_center::route::rows_codec::{decode_rows, encode_rows};
use placement_center::route::DataRoute;
use placement_center::storage::db::DB;
use placement_center::storage::rocksdb::RocksDBEngine;
use placement_center::storage::rows::Row;

fn log_id(term: u64, index: u64) -> LogId {
    LogId { leader_id: LeaderId { term, node_id: 1 }, index }
}

fn route() -> DataRoute {
    DataRoute::new(RocksDBEngine::new(DB::new()))
}

fn set(index: u64, key: &str, value: &str) -> Entry {
    Entry { log_id: log_id(1, index), payload: DataRoute::set_request(key, value).encode() }
}

fn delete(index: u64, key: &str) -> Entry {
    Entry { log_id: log_id(1, index), payload: DataRoute::delete_request(key).encode() }
}

fn value_of(store: StateMachineStore, key: &str) -> Option<String> {
    let (_, route) = store.into_parts();
    let kv = placement_center::storage::kv::KvStorage::new(route.into_engine());
    kv.get(key.to_string()).unwrap()
}

#[test]
fn requests_round_trip() {
    let request = StorageData::new(StorageDataType::ClusterAddNode, vec![1, 2]);
    let bytes = request.encode();
    assert_eq!(bytes, vec![2, 1, 2]);
    assert_eq!(StorageData::decode(&bytes), Some(request));
    assert_eq!(StorageData::decode(&[]), None);
    assert_eq!(StorageData::decode(&[6, 0]), None);
    let set = DataRoute::set_request("k", "v");
    assert_eq!(set.data_type, StorageDataType::KvSet);
    assert_eq!(set.value, vec![0, 0, 0, 0, 0, 0, 0, 1, b'k', b'v']);
    let delete = DataRoute::delete_request("k");
    assert_eq!(delete.data_type, StorageDataType::KvDelete);
    assert_eq!(delete.value, b"k".to_vec());
}

#[test]
fn rows_round_trip() {
    let rows = vec![
        Row { key: b"a".to_vec(), value: vec![] },
        Row { key: vec![], value: b"xyz".to_vec() },
    ];
    let bytes = encode_rows(&rows);
    assert_eq!(
        bytes,
        vec![
            0, 0, 0, 0, 0, 0, 0, 2, // two rows
            0, 0, 0, 0, 0, 0, 0, 1, b'a', 0, 0, 0, 0, 0, 0, 0, 0, // "a" -> ""
            0, 0, 0, 0, 0, 0, 0, 0, 0, 0, 0, 0, 0, 0, 0, 3, b'x', b'y', b'z', // "" -> "xyz"
        ]
    );
    let back = decode_rows(&bytes).unwrap();
    assert_eq!(back.len(), 2);
    assert_eq!(back[0].key, b"a".to_vec());
    assert_eq!(back[1].value, b"xyz".to_vec());
    assert!(decode_rows(&bytes[..bytes.len() - 1]).is_none());
    let mut longer = bytes.clone();
    longer.push(0);
    assert!(decode_rows(&longer).is_none());
    assert!(decode_rows(&[0, 0, 0]).is_none());
    assert_eq!(decode_rows(&encode_rows(&Vec::new())).unwrap().len(), 0);
}

#[test]
fn route_carries_out_requests() {
    let mut route = route();
    route.route(&DataRoute::set_request("mq", "nezama").encode()).unwrap();
    route.route_at(&DataRoute::set_request("a", "1").encode(), 5).unwrap();
    route.route(&DataRoute::delete_request("mq").encode()).unwrap();
    let kv = placement_center::storage::kv::KvStorage::new(route.into_engine());
    assert_eq!(kv.get("a".to_string()).unwrap(), Some("1".to_string()));
    assert_eq!(kv.get("mq".to_string()).unwrap(), None);
}

#[test]
fn route_refuses_what_it_cannot_read() {
    let mut route = route();
    let err = route.route(&[]).unwrap_err();
    assert_eq!(err.to_string(), "entry payload is not a request");
    assert!(route.route(&[9, 1, 2]).is_err());
    // A set request whose key length runs past the payload.
    assert!(route.route(&[0, 0, 0, 0, 0, 0, 0, 0, 9, b'k']).is_err());
    // A key that is not UTF-8.
    assert!(route.route(&[1, 0xff, 0xfe]).is_err());
    let err = route
        .route(&StorageData::new(StorageDataType::ClusterAddNode, vec![]).encode())
        .unwrap_err();
    assert_eq!(err.to_string(), "request kind is not served");
    assert_eq!(route.build_snapshot(), encode_rows(&Vec::new()));
}

#[test]
fn fresh_store_has_applied_nothing() {
    let store = StateMachineStore::new(DB::new(), route()).unwrap();
    let (last, membership) = store.applied_state().unwrap();
    assert_eq!(last, None);
    assert_eq!(membership, StoredMembership::default());
    assert_eq!(store.get_current_snapshot().unwrap(), None);
    assert!(store.begin_receiving_snapshot().unwrap().is_empty());
}

#[test]
fn apply_answers_every_entry_and_moves_last_applied() {
    let mut store = StateMachineStore::new(DB::new(), route()).unwrap();
    let responses = store
        .apply(&vec![set(1, "a", "1"), set(2, "b", "2"), delete(3, "a")])
        .unwrap();
    assert_eq!(responses.len(), 3);
    assert_eq!(store.applied_state().unwrap().0, Some(log_id(1, 3)));
    let responses = store.apply(&Vec::new()).unwrap();
    assert!(responses.is_empty());
    assert_eq!(store.applied_state().unwrap().0, Some(log_id(1, 3)));
    assert_eq!(value_of(store, "b"), Some("2".to_string()));
}

#[test]
fn apply_stops_at_the_first_refused_entry() {
    let mut store = StateMachineStore::new(DB::new(), route()).unwrap();
    let broken = Entry { log_id: log_id(1, 2), payload: vec![77] };
    let err = store.apply(&vec![set(1, "a", "1"), broken, set(3, "c", "3")]).unwrap_err();
    assert_eq!(err.subject, ErrorSubject::StateMachine);
    assert_eq!(err.verb, ErrorVerb::Write);
    assert_eq!(err.source, "entry payload is not a request");
    assert_eq!(store.applied_state().unwrap().0, Some(log_id(1, 1)));
    let (_, route) = store.into_parts();
    let kv = placement_center::storage::kv::KvStorage::new(route.into_engine());
    assert_eq!(kv.get("a".to_string()).unwrap(), Some("1".to_string()));
    assert_eq!(kv.get("c".to_string()).unwrap(), None);
}

#[test]
fn snapshot_ids_are_made_of_term_index_and_number() {
    let mut store = StateMachineStore::new(DB::new(), route()).unwrap();
    let first = store.build_snapshot().unwrap();
    assert_eq!(first.meta.snapshot_id, "--1");
    assert_eq!(first.meta.last_log_id, None);
    store.apply(&vec![set(7, "a", "1")]).unwrap();
    let second = store.build_snapshot().unwrap();
    assert_eq!(second.meta.snapshot_id, "1-7-2");
    assert_eq!(second.meta.last_log_id, Some(log_id(1, 7)));
    // Two snapshots at the same place in the log differ by their number.
    let third = store.build_snapshot().unwrap();
    assert_eq!(third.meta.snapshot_id, "1-7-3");
    assert_eq!(third.snapshot, second.snapshot);
    assert_eq!(store.get_current_snapshot().unwrap(), Some(third));
}

#[test]
fn restart_restores_the_snapshot() {
    let mut store = StateMachineStore::new(DB::new(), route()).unwrap();
    store.apply(&vec![set(1, "a", "1"), set(2, "b", "2")]).unwrap();
    let snapshot = store.build_snapshot().unwrap();
    // What is applied after the snapshot is not in it.
    store.apply(&vec![set(3, "c", "3"), delete(4, "a")]).unwrap();
    assert_eq!(store.applied_state().unwrap().0, Some(log_id(1, 4)));

    let reopened = store.reopen().unwrap();
    let (last, membership) = reopened.applied_state().unwrap();
    assert_eq!(last, Some(log_id(1, 2)));
    assert_eq!(membership, StoredMembership::default());
    assert_eq!(reopened.get_current_snapshot().unwrap(), Some(snapshot));

    // A new store on the same engine, with an application that holds nothing.
    let (db, _) = reopened.into_parts();
    let fresh = StateMachineStore::new(db, route()).unwrap();
    assert_eq!(fresh.applied_state().unwrap().0, Some(log_id(1, 2)));
    let (_, route) = fresh.into_parts();
    let kv = placement_center::storage::kv::KvStorage::new(route.into_engine());
    assert_eq!(kv.get("a".to_string()).unwrap(), Some("1".to_string()));
    assert_eq!(kv.get("b".to_string()).unwrap(), Some("2".to_string()));
    assert_eq!(kv.get("c".to_string()).unwrap(), None);
}

#[test]
fn install_replaces_bookkeeping_and_state() {
    let mut source = StateMachineStore::new(DB::new(), route()).unwrap();
    source.apply(&vec![set(1, "a", "1")]).unwrap();
    let snapshot = source.build_snapshot().unwrap();

    let mut target = StateMachineStore::new(DB::new(), route()).unwrap();
    target.apply(&vec![set(1, "z", "26")]).unwrap();
    let meta = SnapshotMeta {
        last_log_id: Some(log_id(3, 9)),
        last_membership: StoredMembership { log_id: Some(log_id(2, 4)), voters: vec![1, 2, 3] },
        snapshot_id: "3-9-1".to_string(),
    };
    target.install_snapshot(&meta, snapshot.snapshot.clone()).unwrap();
    let (last, membership) = target.applied_state().unwrap();
    assert_eq!(last, Some(log_id(3, 9)));
    assert_eq!(membership.voters, vec![1, 2, 3]);
    let current = target.get_current_snapshot().unwrap().unwrap();
    assert_eq!(current.meta, meta);
    assert_eq!(current.snapshot, snapshot.snapshot);
    let reopened = target.reopen().unwrap();
    assert_eq!(reopened.applied_state().unwrap().0, Some(log_id(3, 9)));
    let (_, route) = reopened.into_parts();
    let kv = placement_center::storage::kv::KvStorage::new(route.into_engine());
    assert_eq!(kv.get("a".to_string()).unwrap(), Some("1".to_string()));
    assert_eq!(kv.get("z".to_string()).unwrap(), None);
}

#[test]
fn install_of_broken_data_changes_nothing() {
    let mut store = StateMachineStore::new(DB::new(), route()).unwrap();
    store.apply(&vec![set(1, "a", "1")]).unwrap();
    let meta = SnapshotMeta {
        last_log_id: Some(log_id(3, 9)),
        last_membership: StoredMembership::default(),
        snapshot_id: "3-9-1".to_string(),
    };
    let err = store.install_snapshot(&meta, vec![1, 2, 3]).unwrap_err();
    assert_eq!(err.subject, ErrorSubject::StateMachine);
    assert_eq!(err.verb, ErrorVerb::Read);
    assert_eq!(err.source, "snapshot data is not a list of rows in key order");
    assert_eq!(store.applied_state().unwrap().0, Some(log_id(1, 1)));
    assert_eq!(store.get_current_snapshot().unwrap(), None);
    assert_eq!(value_of(store, "a"), Some("1".to_string()));
}

#[test]
fn engine_with_a_broken_snapshot_is_refused() {
    let mut db = DB::new();
    let cf = db.create_cf("store");
    db.put_cf(&cf, b"snapshot".to_vec(), vec![1, 2, 3]).unwrap();
    let err = StateMachineStore::new(db, route()).err().unwrap();
    assert_eq!(err.subject, ErrorSubject::Snapshot);
    assert_eq!(err.verb, ErrorVerb::Read);
}

#[test]
fn node_as_text() {
    let node = Node { node_id: 3, rpc_addr: "127.0.0.1:1228".to_string() };
    assert_eq!(node.to_string(), "Node {rpc_addr: 127.0.0.1:1228,node_id: 3 }");
}

#[test]
fn engine_with_a_snapshot_that_cannot_be_restored_is_refused() {
    let snapshot = StoredSnapshot {
        meta: SnapshotMeta {
            last_log_id: Some(log_id(1, 1)),
            last_membership: StoredMembership::default(),
            snapshot_id: "1-1-1".to_string(),
        },
        data: vec![1, 2, 3],
    };
    let mut db = DB::new();
    let cf = db.create_cf("store");
    db.put_cf(&cf, b"snapshot".to_vec(), encode_snapshot(&snapshot)).unwrap();
    let err = StateMachineStore::new(db, route()).err().unwrap();
    assert_eq!(err.subject, ErrorSubject::StateMachine);
    assert_eq!(err.verb, ErrorVerb::Read);
}

#[test]
fn snapshots_are_durable_when_the_call_returns() {
    let mut store = StateMachineStore::new(DB::new(), route()).unwrap();
    store.apply(&vec![set(1, "a", "1")]).unwrap();
    store.build_snapshot().unwrap();
    assert!(store.db().is_synced());
    assert_eq!(store.db().cf_handle("store"), Some(store.store()));
    store.flush();
    assert!(store.db().is_synced());
}

#[test]
fn store_opens_on_plain_engines() {
    // The application finds the rows of its own engine.
    let mut rows = DB::new();
    let cluster = rows.create_cf("cluster");
    let mut engine = RocksDBEngine::new(rows);
    placement_center::storage::engine::engine_save_at(
        &mut engine,
        "cluster",
        "k".to_string(),
        b"\"v\"".to_vec(),
        3,
    )
    .unwrap();
    let rows = engine.into_db();
    assert_eq!(rows.len_cf(&cluster), 1);

    let store = StateMachineStore::open(DB::new(), rows).unwrap();
    assert_eq!(store.applied_state().unwrap().0, None);
    assert_eq!(store.data.route.engine().read_all(&cluster).len(), 1);
    assert_eq!(value_of(store, "k"), Some("v".to_string()));

    let route = DataRoute::open(DB::new());
    assert_eq!(route.build_snapshot(), encode_rows(&Vec::new()));
    assert!(route.engine().db().cf_handle("cluster").is_some());
}
