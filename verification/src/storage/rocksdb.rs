//! The storage engine: the store with its application namespace, keyed by
//! text.

use vstd::prelude::*;
use vstd::utf8::encode_utf8;
use crate::base::error::NezaMQError;
use crate::base::text::concat2;
use crate::storage::db::{lemma_family_position, ColumnFamily, DbView, DB};
use crate::storage::rows::{
    ascending, has_key, row_views, rows_with, rows_with_prefix, rows_without, value_of, Row,
    RowView,
};

verus! {

/// The namespace of the application's rows.
pub const DB_COLUMN_FAMILY_CLUSTER: &'static str = "cluster";

/// The directory of the engine below the data path.
pub const STORAGE_DIR: &'static str = "_storage_rocksdb";

/// How the engine on disk is to be opened and tuned.
#[derive(Debug, Clone, Copy, PartialEq, Eq, Structural)]
pub struct DbOptions {
    pub create_if_missing: bool,
    pub create_missing_column_families: bool,
    pub max_open_files: i32,
    pub use_fsync: bool,
    pub bytes_per_sync: u64,
    pub point_lookup_block_cache_mb: u64,
    pub table_cache_num_shard_bits: i32,
    pub max_write_buffer_number: i32,
    pub write_buffer_size: usize,
    pub target_file_size_base: u64,
    pub min_write_buffer_number_to_merge: i32,
    pub level_zero_stop_writes_trigger: i32,
    pub level_zero_slowdown_writes_trigger: i32,
    pub universal_compaction: bool,
    pub disable_auto_compactions: bool,
    pub fixed_prefix_len: usize,
    /// The share of a write buffer given to the prefix filter, in percent.
    pub memtable_prefix_bloom_percent: u32,
}

/// The engine.
pub struct RocksDBEngine {
    db: DB,
    cluster: ColumnFamily,
}

impl RocksDBEngine {
    /// What the store under the engine holds.
    pub closed spec fn db_view(&self) -> DbView {
        self.db@
    }

    /// The handle of the application namespace.
    pub closed spec fn cluster(&self) -> ColumnFamily {
        self.cluster
    }

    /// The engine has its application namespace.
    pub closed spec fn wf(&self) -> bool {
        &&& self.db@.well_formed()
        &&& self.db.serves(self.cluster)
        &&& self.db@.families[self.cluster.index as int].name == DB_COLUMN_FAMILY_CLUSTER@
    }

    /// Whether the engine serves the handle.
    pub open spec fn serves(&self, cf: ColumnFamily) -> bool {
        cf.index < self.db_view().families.len()
    }

    /// The rows of the application namespace.
    pub open spec fn cluster_rows(&self) -> Seq<RowView> {
        self.db_view().rows_named(DB_COLUMN_FAMILY_CLUSTER@)
    }

    /// The rows of the namespace of a handle that the engine serves.
    pub open spec fn rows(&self, cf: ColumnFamily) -> Seq<RowView> {
        self.db_view().rows(cf.index as int)
    }

    /// The handle of the application namespace is served, and its rows are
    /// the application's rows.
    pub proof fn lemma_cluster(&self)
        requires
            self.wf(),
        ensures
            self.serves(self.cluster()),
            self.rows(self.cluster()) == self.cluster_rows(),
            self.db_view().well_formed(),
    {
        lemma_family_position(self.db@, DB_COLUMN_FAMILY_CLUSTER@, self.cluster.index as int);
    }

    /// The options with which the engine on disk is opened.
    pub fn set_db_opts() -> (opts: DbOptions)
        ensures
            opts.create_if_missing,
            opts.create_missing_column_families,
            opts.max_open_files == 1000,
            !opts.use_fsync,
            opts.bytes_per_sync == 8388608,
            opts.point_lookup_block_cache_mb == 1024,
            opts.table_cache_num_shard_bits == 6,
            opts.max_write_buffer_number == 32,
            opts.write_buffer_size == 536870912,
            opts.target_file_size_base == 1073741824,
            opts.min_write_buffer_number_to_merge == 4,
            opts.level_zero_stop_writes_trigger == 2000,
            opts.level_zero_slowdown_writes_trigger == 0,
            opts.universal_compaction,
            opts.disable_auto_compactions,
            opts.fixed_prefix_len == 10,
            opts.memtable_prefix_bloom_percent == 20,
    {
        DbOptions {
            create_if_missing: true,
            create_missing_column_families: true,
            max_open_files: 1000,
            use_fsync: false,
            bytes_per_sync: 8388608,
            point_lookup_block_cache_mb: 1024,
            table_cache_num_shard_bits: 6,
            max_write_buffer_number: 32,
            write_buffer_size: 536870912,
            target_file_size_base: 1073741824,
            min_write_buffer_number_to_merge: 4,
            level_zero_stop_writes_trigger: 2000,
            level_zero_slowdown_writes_trigger: 0,
            universal_compaction: true,
            disable_auto_compactions: true,
            fixed_prefix_len: 10,
            memtable_prefix_bloom_percent: 20,
        }
    }

    /// The directory in which the engine keeps its files, below `data_path`.
    pub fn storage_path(data_path: &str) -> (path: String)
        ensures
            path@ == data_path@ + "/"@ + STORAGE_DIR@,
    {
        let mut path: String = concat2(data_path, "/");
        path.append(STORAGE_DIR);
        path
    }

    /// Opens the engine on a store. The application namespace is made where
    /// it is missing; the rows of the store stay as they are.
    pub fn new(db: DB) -> (engine: Self)
        ensures
            engine.wf(),
            db@.has_family(DB_COLUMN_FAMILY_CLUSTER@) ==> engine.db_view() == db@,
            !db@.has_family(DB_COLUMN_FAMILY_CLUSTER@) ==> engine.db_view() == db@.with_family(
                DB_COLUMN_FAMILY_CLUSTER@,
            ),
    {
        let mut store = db;
        let cluster: ColumnFamily = store.create_cf(DB_COLUMN_FAMILY_CLUSTER);
        store.known_well_formed();
        RocksDBEngine { db: store, cluster }
    }

    /// The store under the engine.
    pub fn db(&self) -> (db: &DB)
        ensures
            db@ == self.db_view(),
    {
        &self.db
    }

    /// Gives the store back.
    pub fn into_db(self) -> (db: DB)
        ensures
            db@ == self.db_view(),
    {
        self.db
    }

    /// The handle of the application namespace.
    pub fn cf_cluster(&self) -> (cf: ColumnFamily)
        requires
            self.wf(),
        ensures
            cf == self.cluster(),
            self.serves(cf),
            self.rows(cf) == self.cluster_rows(),
    {
        proof {
            self.lemma_cluster();
        }
        self.cluster
    }

    /// Stores `value` under `key` in the namespace.
    pub fn write(&mut self, cf: &ColumnFamily, key: &str, value: &[u8]) -> (r: Result<(), String>)
        requires
            old(self).wf(),
        ensures
            final(self).wf(),
            final(self).cluster() == old(self).cluster(),
            old(self).serves(*cf) ==> r is Ok && final(self).db_view() == old(self).db_view().with_rows(
                cf.index as int,
                rows_with(old(self).rows(*cf), encode_utf8(key@), value@),
            ),
            !old(self).serves(*cf) ==> r is Err && final(self).db_view() == old(self).db_view(),
    {
        let r = self.db.put_cf(cf, vstd::slice::slice_to_vec(key.as_bytes()), vstd::slice::slice_to_vec(value));
        self.db.known_well_formed();
        match r {
            Ok(()) => Ok(()),
            Err(e) => Err(concat2("Failed to put to ColumnFamily:", e.message.as_str())),
        }
    }

    /// The value stored under `key` in the namespace, if any.
    pub fn read(&self, cf: &ColumnFamily, key: &str) -> (r: Result<Option<Vec<u8>>, String>)
        requires
            self.wf(),
        ensures
            self.serves(*cf) ==> r is Ok && (r->Ok_0 is Some == has_key(
                self.rows(*cf),
                encode_utf8(key@),
            )) && (r->Ok_0 is Some ==> Some(r->Ok_0->0@) == value_of(
                self.rows(*cf),
                encode_utf8(key@),
            )),
            !self.serves(*cf) ==> r is Err,
    {
        match self.db.get_cf(cf, key.as_bytes()) {
            Ok(found) => Ok(found),
            Err(e) => Err(concat2("Failed to get from ColumnFamily: ", e.message.as_str())),
        }
    }

    /// Removes `key` from the namespace.
    pub fn delete(&mut self, cf: &ColumnFamily, key: &str) -> (r: Result<(), NezaMQError>)
        requires
            old(self).wf(),
        ensures
            final(self).wf(),
            final(self).cluster() == old(self).cluster(),
            old(self).serves(*cf) ==> r is Ok && final(self).db_view() == old(self).db_view().with_rows(
                cf.index as int,
                rows_without(old(self).rows(*cf), encode_utf8(key@)),
            ),
            !old(self).serves(*cf) ==> r is Err && r->Err_0 is CommonError && final(self).db_view() == old(self).db_view(),
    {
        let r = self.db.delete_cf(cf, key.as_bytes());
        self.db.known_well_formed();
        match r {
            Ok(()) => Ok(()),
            Err(e) => Err(NezaMQError::CommonError(e.message)),
        }
    }

    /// Whether the namespace holds `key`.
    pub fn exist(&self, cf: &ColumnFamily, key: &str) -> (r: bool)
        requires
            self.wf(),
        ensures
            r == (self.serves(*cf) && has_key(self.rows(*cf), encode_utf8(key@))),
    {
        self.db.key_may_exist_cf(cf, key.as_bytes())
    }

    /// The rows of the namespace whose key starts with `search_key`, in key
    /// order; none for a handle that the engine does not serve.
    pub fn read_prefix(&self, cf: &ColumnFamily, search_key: &str) -> (found: Vec<Row>)
        requires
            self.wf(),
        ensures
            self.serves(*cf) ==> row_views(found@) == rows_with_prefix(
                self.rows(*cf),
                encode_utf8(search_key@),
            ),
            !self.serves(*cf) ==> found@.len() == 0,
    {
        match self.db.prefix_cf(cf, search_key.as_bytes()) {
            Ok(found) => found,
            Err(_) => Vec::new(),
        }
    }

    /// All rows of the namespace, in key order; none for a handle that the
    /// engine does not serve.
    pub fn read_all(&self, cf: &ColumnFamily) -> (found: Vec<Row>)
        requires
            self.wf(),
        ensures
            self.serves(*cf) ==> row_views(found@) == self.rows(*cf),
            !self.serves(*cf) ==> found@.len() == 0,
    {
        self.db.rows_cf(cf)
    }

    /// Gives the namespace the rows `rows` in place of those it holds. Rows
    /// that are not strictly ascending by key are refused, and nothing
    /// changes.
    pub fn replace(&mut self, cf: &ColumnFamily, rows: Vec<Row>) -> (r: Result<(), String>)
        requires
            old(self).wf(),
        ensures
            final(self).wf(),
            final(self).cluster() == old(self).cluster(),
            r is Ok == (old(self).serves(*cf) && ascending(row_views(rows@))),
            r is Ok ==> final(self).db_view() == old(self).db_view().with_rows(
                cf.index as int,
                row_views(rows@),
            ),
            r is Err ==> final(self).db_view() == old(self).db_view(),
    {
        let r = self.db.replace_cf(cf, rows);
        self.db.known_well_formed();
        match r {
            Ok(()) => Ok(()),
            Err(e) => Err(concat2("Failed to put to ColumnFamily:", e.message.as_str())),
        }
    }

    /// Syncs the write-ahead log of the store.
    pub fn flush(&mut self)
        requires
            old(self).wf(),
        ensures
            final(self).wf(),
            final(self).cluster() == old(self).cluster(),
            final(self).db_view() == old(self).db_view().flushed(),
    {
        let r = self.db.flush_wal(true);
        self.db.known_well_formed();
    }
}

} // verus!
