use placement_center::base::error::NezaMQError;
use placement_center::storage::db::{ColumnFamily, DB};
use placement_center::storage::engine::{
    engine_delete_by_cluster, engine_exists_by_cluster, engine_get_by_cluster,
    engine_prefix_list_by_cluster, engine_save_at, engine_save_by_cluster,
};
use placement_center::storage::keys::{
    key_name_by_conf_state, key_name_by_entry, key_name_by_first_index, key_name_by_hard_state,
    key_name_by_last_index, key_name_snapshot, key_name_uncommit, storage_key_mqtt_topic,
    storage_key_mqtt_topic_prefix, storage_key_mqtt_user, storage_key_mqtt_user_cluster_prefix,
};
use placement_center::storage::kv::KvStorage;
use placement_center::storage::order::{bytes_eq, bytes_lt, bytes_start_with};
use placement_center::storage::rocksdb::RocksDBEngine;
use placement_center::storage::rows::Row;
use placement_center::storage::StorageDataWrap;

fn keys(rows: &[Row]) -> Vec<Vec<u8>> {
    rows.iter().map(|r| r.key.clone()).collect()
}

#[test]
fn byte_order_is_lexicographic() {
    assert!(bytes_lt(b"", b"a"));
    assert!(!bytes_lt(b"a", b""));
    assert!(!bytes_lt(b"", b""));
    assert!(bytes_lt(b"a", b"ab"));
    assert!(bytes_lt(b"ab", b"b"));
    assert!(bytes_lt(&[1, 255], &[2]));
    assert!(!bytes_lt(b"abc", b"abc"));
    assert!(bytes_eq(b"abc", b"abc"));
    assert!(!bytes_eq(b"abc", b"abd"));
    assert!(!bytes_eq(b"abc", b"ab"));
    assert!(bytes_start_with(b"abc", b"ab"));
    assert!(bytes_start_with(b"abc", b""));
    assert!(!bytes_start_with(b"ab", b"abc"));
    assert!(!bytes_start_with(b"abc", b"b"));
}

#[test]
fn namespaces_are_made_once() {
    let mut db = DB::new();
    assert_eq!(db.cf_handle("a"), None);
    let a = db.create_cf("a");
    let b = db.create_cf("b");
    assert_ne!(a, b);
    assert_eq!(db.create_cf("a"), a);
    assert_eq!(db.cf_handle("a"), Some(a));
    assert_eq!(db.cf_handle("b"), Some(b));
}

#[test]
fn point_operations() {
    let mut db = DB::new();
    let cf = db.create_cf("a");
    let other = db.create_cf("b");
    assert_eq!(db.get_cf(&cf, b"k").unwrap(), None);
    assert!(!db.key_may_exist_cf(&cf, b"k"));
    db.put_cf(&cf, b"k".to_vec(), b"v1".to_vec()).unwrap();
    assert_eq!(db.get_cf(&cf, b"k").unwrap(), Some(b"v1".to_vec()));
    assert!(db.key_may_exist_cf(&cf, b"k"));
    // Namespaces are apart.
    assert_eq!(db.get_cf(&other, b"k").unwrap(), None);
    db.put_cf(&cf, b"k".to_vec(), b"v2".to_vec()).unwrap();
    assert_eq!(db.get_cf(&cf, b"k").unwrap(), Some(b"v2".to_vec()));
    assert_eq!(db.len_cf(&cf), 1);
    db.delete_cf(&cf, b"k").unwrap();
    assert_eq!(db.get_cf(&cf, b"k").unwrap(), None);
    db.delete_cf(&cf, b"k").unwrap();
    assert_eq!(db.len_cf(&cf), 0);
}

#[test]
fn unknown_handle_fails() {
    let mut db = DB::new();
    let mut wider = DB::new();
    wider.create_cf("a");
    let stranger: ColumnFamily = wider.create_cf("b");
    db.create_cf("a");
    let err = db.put_cf(&stranger, b"k".to_vec(), b"v".to_vec()).unwrap_err();
    assert_eq!(err.message, "Invalid column family");
    assert!(db.get_cf(&stranger, b"k").is_err());
    assert!(db.delete_cf(&stranger, b"k").is_err());
    assert!(db.delete_range_cf(&stranger, b"a", b"z").is_err());
    assert!(db.prefix_cf(&stranger, b"a").is_err());
    assert!(!db.key_may_exist_cf(&stranger, b"k"));
    assert_eq!(db.len_cf(&stranger), 0);
    assert!(db.row_cf(&stranger, 0).is_none());
}

#[test]
fn rows_are_kept_in_key_order() {
    let mut db = DB::new();
    let cf = db.create_cf("a");
    for k in ["m", "b", "zz", "a", "z", "ab", ""] {
        db.put_cf(&cf, k.as_bytes().to_vec(), k.to_uppercase().into_bytes()).unwrap();
    }
    let rows = db.rows_cf(&cf);
    assert_eq!(
        keys(&rows),
        vec![
            b"".to_vec(),
            b"a".to_vec(),
            b"ab".to_vec(),
            b"b".to_vec(),
            b"m".to_vec(),
            b"z".to_vec(),
            b"zz".to_vec()
        ]
    );
    assert_eq!(rows[2].value, b"AB".to_vec());
    assert_eq!(db.seek_cf(&cf, b"b"), 3);
    assert_eq!(db.seek_cf(&cf, b"c"), 4);
    assert_eq!(db.seek_cf(&cf, b"zzz"), 7);
    assert_eq!(db.row_cf(&cf, 4).unwrap().key, b"m".to_vec());
    assert!(db.row_cf(&cf, 7).is_none());
}

#[test]
fn range_delete_is_half_open() {
    let mut db = DB::new();
    let cf = db.create_cf("a");
    for k in ["a", "b", "c", "d", "e"] {
        db.put_cf(&cf, k.as_bytes().to_vec(), vec![1]).unwrap();
    }
    db.delete_range_cf(&cf, b"b", b"d").unwrap();
    assert_eq!(keys(&db.rows_cf(&cf)), vec![b"a".to_vec(), b"d".to_vec(), b"e".to_vec()]);
    // An empty or reversed range removes nothing.
    db.delete_range_cf(&cf, b"d", b"d").unwrap();
    db.delete_range_cf(&cf, b"e", b"a").unwrap();
    assert_eq!(db.len_cf(&cf), 3);
    db.delete_range_cf(&cf, b"", b"zz").unwrap();
    assert_eq!(db.len_cf(&cf), 0);
}

#[test]
fn prefix_scan_stops_at_the_first_other_key() {
    let mut db = DB::new();
    let cf = db.create_cf("a");
    for k in ["/a/1", "/a/2", "/ab", "/b/1", "/", "/a"] {
        db.put_cf(&cf, k.as_bytes().to_vec(), k.as_bytes().to_vec()).unwrap();
    }
    let found = db.prefix_cf(&cf, b"/a/").unwrap();
    assert_eq!(keys(&found), vec![b"/a/1".to_vec(), b"/a/2".to_vec()]);
    let found = db.prefix_cf(&cf, b"/a").unwrap();
    assert_eq!(
        keys(&found),
        vec![b"/a".to_vec(), b"/a/1".to_vec(), b"/a/2".to_vec(), b"/ab".to_vec()]
    );
    assert!(db.prefix_cf(&cf, b"/c").unwrap().is_empty());
    assert_eq!(db.prefix_cf(&cf, b"").unwrap().len(), 6);
}

#[test]
fn replace_takes_only_rows_in_key_order() {
    let mut db = DB::new();
    let cf = db.create_cf("a");
    db.put_cf(&cf, b"old".to_vec(), vec![0]).unwrap();
    let unordered = vec![
        Row { key: b"b".to_vec(), value: vec![1] },
        Row { key: b"a".to_vec(), value: vec![2] },
    ];
    let err = db.replace_cf(&cf, unordered).unwrap_err();
    assert_eq!(err.message, "Keys are not strictly ascending");
    assert_eq!(keys(&db.rows_cf(&cf)), vec![b"old".to_vec()]);
    let twice = vec![
        Row { key: b"a".to_vec(), value: vec![1] },
        Row { key: b"a".to_vec(), value: vec![2] },
    ];
    assert!(db.replace_cf(&cf, twice).is_err());
    let ordered = vec![
        Row { key: b"a".to_vec(), value: vec![1] },
        Row { key: b"b".to_vec(), value: vec![2] },
    ];
    db.replace_cf(&cf, ordered).unwrap();
    assert_eq!(keys(&db.rows_cf(&cf)), vec![b"a".to_vec(), b"b".to_vec()]);
}

#[test]
fn engine_opens_with_its_namespace() {
    let engine = RocksDBEngine::new(DB::new());
    let cf = engine.cf_cluster();
    let db = engine.into_db();
    assert_eq!(db.cf_handle("cluster"), Some(cf));
    // Opening again finds the namespace and its rows.
    let mut engine = RocksDBEngine::new(db);
    let cf = engine.cf_cluster();
    engine.write(&cf, "k", b"v").unwrap();
    let engine = RocksDBEngine::new(engine.into_db());
    assert_eq!(engine.read(&engine.cf_cluster(), "k").unwrap(), Some(b"v".to_vec()));
}

#[test]
fn engine_options() {
    let opts = RocksDBEngine::set_db_opts();
    assert!(opts.create_if_missing);
    assert!(opts.create_missing_column_families);
    assert_eq!(opts.max_open_files, 1000);
    assert_eq!(opts.bytes_per_sync, 8388608);
    assert_eq!(opts.write_buffer_size, 536870912);
    assert_eq!(opts.target_file_size_base, 1073741824);
    assert_eq!(opts.fixed_prefix_len, 10);
    assert_eq!(opts.memtable_prefix_bloom_percent, 20);
    assert_eq!(RocksDBEngine::storage_path("./data"), "./data/_storage_rocksdb");
}

#[test]
fn engine_text_keys() {
    let mut engine = RocksDBEngine::new(DB::new());
    let cf = engine.cf_cluster();
    assert!(!engine.exist(&cf, "/mqtt/user/c1/anna"));
    engine.write(&cf, "/mqtt/user/c1/anna", b"1").unwrap();
    engine.write(&cf, "/mqtt/user/c1/bob", b"2").unwrap();
    engine.write(&cf, "/mqtt/user/c2/carl", b"3").unwrap();
    engine.write(&cf, "/mqtt/topic/c1/t", b"4").unwrap();
    assert!(engine.exist(&cf, "/mqtt/user/c1/anna"));
    assert_eq!(engine.read(&cf, "/mqtt/user/c1/bob").unwrap(), Some(b"2".to_vec()));
    assert_eq!(engine.read(&cf, "/mqtt/user/c1/zed").unwrap(), None);
    let found = engine.read_prefix(&cf, "/mqtt/user/c1");
    assert_eq!(
        keys(&found),
        vec![b"/mqtt/user/c1/anna".to_vec(), b"/mqtt/user/c1/bob".to_vec()]
    );
    engine.delete(&cf, "/mqtt/user/c1/anna").unwrap();
    assert!(!engine.exist(&cf, "/mqtt/user/c1/anna"));
    assert_eq!(engine.read_all(&cf).len(), 3);
    let stranger = ColumnFamily { index: 99 };
    assert_eq!(
        engine.write(&stranger, "k", b"v").unwrap_err(),
        "Failed to put to ColumnFamily:Invalid column family"
    );
    assert!(engine.read(&stranger, "k").is_err());
    assert!(engine.delete(&stranger, "k").is_err());
    assert!(engine.read_prefix(&stranger, "k").is_empty());
}

#[test]
fn stored_values_carry_their_time() {
    let wrap = StorageDataWrap::at(vec![1, 2, 3], 0x0102);
    let row = wrap.encode();
    assert_eq!(row, vec![0, 0, 0, 0, 0, 0, 1, 2, 1, 2, 3]);
    assert_eq!(StorageDataWrap::decode(&row), Some(wrap));
    assert_eq!(StorageDataWrap::decode(&[0u8; 7]), None);
    let now = StorageDataWrap::new(vec![7]);
    assert_eq!(now.data, vec![7]);
    assert!(now.create_time > 1_600_000_000);
}

#[test]
fn cluster_rows_by_key() {
    let mut engine = RocksDBEngine::new(DB::new());
    assert_eq!(engine_get_by_cluster(&engine, "k".to_string()).unwrap(), None);
    assert!(!engine_exists_by_cluster(&engine, "k".to_string()).unwrap());
    engine_save_at(&mut engine, "cluster", "k".to_string(), vec![1, 2], 77).unwrap();
    assert_eq!(
        engine_get_by_cluster(&engine, "k".to_string()).unwrap(),
        Some(StorageDataWrap { data: vec![1, 2], create_time: 77 })
    );
    engine_save_by_cluster(&mut engine, "k".to_string(), vec![3]).unwrap();
    let got = engine_get_by_cluster(&engine, "k".to_string()).unwrap().unwrap();
    assert_eq!(got.data, vec![3]);
    assert!(engine_exists_by_cluster(&engine, "k".to_string()).unwrap());
    engine_delete_by_cluster(&mut engine, "k".to_string()).unwrap();
    assert_eq!(engine_get_by_cluster(&engine, "k".to_string()).unwrap(), None);
    // Only the application namespace is served.
    let err = engine_save_at(&mut engine, "other", "k".to_string(), vec![1], 1).unwrap_err();
    assert!(matches!(err, NezaMQError::ClusterNoAvailableNode));
}

#[test]
fn cluster_rows_by_prefix() {
    let mut engine = RocksDBEngine::new(DB::new());
    let c1 = "c1".to_string();
    let c2 = "c2".to_string();
    for (cluster, user, value) in [(&c1, "bob", 2u8), (&c2, "carl", 3), (&c1, "anna", 1)] {
        let key = storage_key_mqtt_user(cluster, &user.to_string());
        engine_save_at(&mut engine, "cluster", key, vec![value], 5).unwrap();
    }
    let listed =
        engine_prefix_list_by_cluster(&engine, storage_key_mqtt_user_cluster_prefix(&c1)).unwrap();
    assert_eq!(
        listed,
        vec![
            StorageDataWrap { data: vec![1], create_time: 5 },
            StorageDataWrap { data: vec![2], create_time: 5 }
        ]
    );
    assert!(engine_prefix_list_by_cluster(&engine, storage_key_mqtt_topic_prefix(&c1))
        .unwrap()
        .is_empty());
    // A row that holds no stored value fails the listing.
    let cf = engine.cf_cluster();
    engine.write(&cf, "/mqtt/user/c1/broken", b"short").unwrap();
    let err = engine_prefix_list_by_cluster(&engine, "/mqtt/user/c1".to_string()).unwrap_err();
    assert_eq!(err.to_string(), "Failed to deserialize: row is not a stored value");
    let err = engine_get_by_cluster(&engine, "/mqtt/user/c1/broken".to_string()).unwrap_err();
    assert_eq!(err.to_string(), "Failed to deserialize: row is not a stored value");
}

#[test]
fn key_names() {
    assert_eq!(key_name_by_first_index(), "/raft/first_index");
    assert_eq!(key_name_by_last_index(), "/raft/last_index");
    assert_eq!(key_name_by_hard_state(), "/raft/hard_state");
    assert_eq!(key_name_by_conf_state(), "/raft/conf_state");
    assert_eq!(key_name_by_entry(0), "/raft/entry/0");
    assert_eq!(key_name_by_entry(1207), "/raft/entry/1207");
    assert_eq!(key_name_by_entry(u64::MAX), "/raft/entry/18446744073709551615");
    assert_eq!(key_name_uncommit(), "/raft/uncommit_index");
    assert_eq!(key_name_snapshot(), "/raft/snapshot");
    let cluster = "c1".to_string();
    let name = "n1".to_string();
    assert_eq!(storage_key_mqtt_user(&cluster, &name), "/mqtt/user/c1/n1");
    assert_eq!(storage_key_mqtt_user_cluster_prefix(&cluster), "/mqtt/user/c1");
    assert_eq!(storage_key_mqtt_topic(&cluster, &name), "/mqtt/topic/c1/n1");
    assert_eq!(storage_key_mqtt_topic_prefix(&cluster), "/mqtt/topic/c1");
}

#[test]
fn kv_storage_round_trip() {
    let mut kv = KvStorage::new(RocksDBEngine::new(DB::new()));
    assert_eq!(kv.get("mq".to_string()).unwrap(), None);
    assert!(!kv.exist("mq".to_string()).unwrap());
    kv.set("mq".to_string(), "nezama".to_string()).unwrap();
    assert!(kv.exist("mq".to_string()).unwrap());
    assert_eq!(kv.get("mq".to_string()).unwrap(), Some("nezama".to_string()));
    kv.set("mq".to_string(), "say \"hi\"\n".to_string()).unwrap();
    assert_eq!(kv.get("mq".to_string()).unwrap(), Some("say \"hi\"\n".to_string()));
    kv.delete("mq".to_string()).unwrap();
    assert!(!kv.exist("mq".to_string()).unwrap());
    assert_eq!(kv.get("mq".to_string()).unwrap(), None);
}

#[test]
fn kv_storage_stores_json() {
    let mut kv = KvStorage::new(RocksDBEngine::new(DB::new()));
    kv.set_at("k".to_string(), "a\"b".to_string(), 9).unwrap();
    let engine = kv.into_engine();
    let stored = engine_get_by_cluster(&engine, "k".to_string()).unwrap().unwrap();
    assert_eq!(stored.create_time, 9);
    assert_eq!(stored.data, b"\"a\\\"b\"".to_vec());
    // What is stored but is no JSON string fails the read.
    let mut engine = engine;
    engine_save_at(&mut engine, "cluster", "raw".to_string(), b"not json".to_vec(), 1).unwrap();
    let kv = KvStorage::new(engine);
    assert!(kv.get("raw".to_string()).is_err());
}

#[test]
fn kv_storage_export_and_import() {
    let mut kv = KvStorage::new(RocksDBEngine::new(DB::new()));
    kv.set_at("b".to_string(), "2".to_string(), 1).unwrap();
    kv.set_at("a".to_string(), "1".to_string(), 1).unwrap();
    let rows = kv.export();
    assert_eq!(keys(&rows), vec![b"a".to_vec(), b"b".to_vec()]);
    let mut other = KvStorage::new(RocksDBEngine::new(DB::new()));
    other.set_at("z".to_string(), "gone".to_string(), 1).unwrap();
    other.import(rows).unwrap();
    assert_eq!(other.get("a".to_string()).unwrap(), Some("1".to_string()));
    assert_eq!(other.get("z".to_string()).unwrap(), None);
    let unordered = vec![
        Row { key: b"b".to_vec(), value: vec![] },
        Row { key: b"a".to_vec(), value: vec![] },
    ];
    assert!(other.import(unordered).is_err());
    assert_eq!(other.get("b".to_string()).unwrap(), Some("2".to_string()));
}
