//! The key/value store of the application: text under text.

use vstd::prelude::*;
use vstd::utf8::encode_utf8;
use crate::base::error::NezaMQError;
use crate::base::json::{json_of_text, json_to_text, text_of_json, text_to_json};
use crate::base::tools::now_second;
use crate::storage::engine::{
    engine_delete_by_cluster, engine_exists_by_cluster, engine_get_by_cluster, engine_save_at,
    saved_rows, NOT_A_STORED_VALUE,
};
use crate::storage::parse_wrap;
use crate::storage::rocksdb::RocksDBEngine;
use crate::storage::db::{lemma_rows_named_after, ColumnFamily};
use crate::storage::rocksdb::DB_COLUMN_FAMILY_CLUSTER;
use crate::storage::rows::{ascending, has_key, row_views, rows_without, value_of, Row, RowView};

verus! {

/// The key/value store.
pub struct KvStorage {
    rocksdb_engine_handler: RocksDBEngine,
}

/// What a read of `key` finds in the rows: the text that the stored value
/// spells in JSON.
pub open spec fn kv_value(rows: Seq<RowView>, key: Seq<char>, r: Result<Option<String>, NezaMQError>) -> bool {
    match value_of(rows, encode_utf8(key)) {
        None => r is Ok && r->Ok_0 is None,
        Some(bytes) => match parse_wrap(bytes) {
            Some(wrap) => match text_of_json(wrap.data) {
                Some(text) => r is Ok && r->Ok_0 is Some && r->Ok_0->0@ == text,
                None => r is Err && r->Err_0 is CommonError,
            },
            None => r is Err && r->Err_0 is CommonError && r->Err_0.message()
                == NOT_A_STORED_VALUE@,
        },
    }
}

impl KvStorage {
    /// The rows of the store.
    pub closed spec fn rows(&self) -> Seq<RowView> {
        self.rocksdb_engine_handler.cluster_rows()
    }

    /// Whether everything written is durable.
    pub closed spec fn synced(&self) -> bool {
        self.rocksdb_engine_handler.db_view().synced
    }

    /// The store stands on a well-formed engine.
    pub closed spec fn wf(&self) -> bool {
        self.rocksdb_engine_handler.wf()
    }

    pub fn new(rocksdb_engine_handler: RocksDBEngine) -> (kv: Self)
        requires
            rocksdb_engine_handler.wf(),
        ensures
            kv.wf(),
            kv.rows() == rocksdb_engine_handler.cluster_rows(),
    {
        KvStorage { rocksdb_engine_handler }
    }

    /// The engine under the store.
    pub fn engine(&self) -> (engine: &RocksDBEngine)
        ensures
            engine.cluster_rows() == self.rows(),
            engine.wf() == self.wf(),
            engine.db_view().synced == self.synced(),
    {
        &self.rocksdb_engine_handler
    }

    /// Gives the engine back.
    pub fn into_engine(self) -> (engine: RocksDBEngine)
        requires
            self.wf(),
        ensures
            engine.wf(),
            engine.cluster_rows() == self.rows(),
    {
        self.rocksdb_engine_handler
    }

    /// Stores `value` under `key`, as JSON, wrapped with `create_time`.
    pub fn set_at(&mut self, key: String, value: String, create_time: u64) -> (r: Result<
        (),
        NezaMQError,
    >)
        requires
            old(self).wf(),
        ensures
            final(self).wf(),
            r is Ok == json_of_text(value@) is Some,
            r is Ok ==> final(self).rows() == saved_rows(
                old(self).rows(),
                key@,
                encode_utf8(json_of_text(value@)->0),
                create_time,
            ),
            r is Err ==> final(self).rows() == old(self).rows() && r->Err_0 is CommonError,
    {
        match text_to_json(value.as_str()) {
            Ok(json) => engine_save_at(
                &mut self.rocksdb_engine_handler,
                DB_COLUMN_FAMILY_CLUSTER,
                key,
                json.as_str().as_bytes_vec(),
                create_time,
            ),
            Err(e) => Err(NezaMQError::CommonError(e)),
        }
    }

    /// Stores `value` under `key`, as JSON, wrapped with the time of the
    /// machine.
    pub fn set(&mut self, key: String, value: String) -> (r: Result<(), NezaMQError>)
        requires
            old(self).wf(),
        ensures
            final(self).wf(),
            r is Ok == json_of_text(value@) is Some,
            r is Ok ==> exists|create_time: u64|
                final(self).rows() == #[trigger] saved_rows(
                    old(self).rows(),
                    key@,
                    encode_utf8(json_of_text(value@)->0),
                    create_time,
                ),
            r is Err ==> final(self).rows() == old(self).rows() && r->Err_0 is CommonError,
    {
        let create_time: u64 = now_second();
        let ghost key_view = key@;
        let r = self.set_at(key, value, create_time);
        proof {
            if r is Ok {
                assert(self.rows() == saved_rows(
                    old(self).rows(),
                    key_view,
                    encode_utf8(json_of_text(value@)->0),
                    create_time,
                ));
            }
        }
        r
    }

    /// Removes `key`.
    pub fn delete(&mut self, key: String) -> (r: Result<(), NezaMQError>)
        requires
            old(self).wf(),
        ensures
            final(self).wf(),
            r is Ok,
            final(self).rows() == rows_without(old(self).rows(), encode_utf8(key@)),
    {
        engine_delete_by_cluster(&mut self.rocksdb_engine_handler, key)
    }

    /// The text stored under `key`, if any.
    pub fn get(&self, key: String) -> (r: Result<Option<String>, NezaMQError>)
        requires
            self.wf(),
        ensures
            kv_value(self.rows(), key@, r),
    {
        match engine_get_by_cluster(&self.rocksdb_engine_handler, key) {
            Ok(Some(data)) => match json_to_text(data.data.as_slice()) {
                Ok(text) => Ok(Some(text)),
                Err(e) => Err(NezaMQError::CommonError(e)),
            },
            Ok(None) => Ok(None),
            Err(e) => Err(e),
        }
    }

    /// Whether `key` is present.
    pub fn exist(&self, key: String) -> (r: Result<bool, NezaMQError>)
        requires
            self.wf(),
        ensures
            r is Ok,
            r->Ok_0 == has_key(self.rows(), encode_utf8(key@)),
    {
        engine_exists_by_cluster(&self.rocksdb_engine_handler, key)
    }

    /// All rows of the store, in key order.
    pub fn export(&self) -> (rows: Vec<Row>)
        requires
            self.wf(),
        ensures
            row_views(rows@) == self.rows(),
            ascending(self.rows()),
    {
        let cf: ColumnFamily = self.rocksdb_engine_handler.cf_cluster();
        proof {
            self.rocksdb_engine_handler.lemma_cluster();
        }
        self.rocksdb_engine_handler.read_all(&cf)
    }

    /// Gives the store the rows `rows` in place of those it holds. Rows that
    /// are not strictly ascending by key are refused, and nothing changes.
    pub fn import(&mut self, rows: Vec<Row>) -> (r: Result<(), NezaMQError>)
        requires
            old(self).wf(),
        ensures
            final(self).wf(),
            r is Ok == ascending(row_views(rows@)),
            r is Ok ==> final(self).rows() == row_views(rows@),
            r is Err ==> final(self).rows() == old(self).rows() && r->Err_0 is CommonError,
    {
        let cf: ColumnFamily = self.rocksdb_engine_handler.cf_cluster();
        let ghost views = row_views(rows@);
        proof {
            self.rocksdb_engine_handler.lemma_cluster();
        }
        let r = self.rocksdb_engine_handler.replace(&cf, rows);
        proof {
            self.rocksdb_engine_handler.lemma_cluster();
        }
        match r {
            Ok(()) => Ok(()),
            Err(e) => Err(NezaMQError::CommonError(e)),
        }
    }

    /// Makes everything written durable.
    pub fn flush(&mut self)
        requires
            old(self).wf(),
        ensures
            final(self).wf(),
            final(self).rows() == old(self).rows(),
            final(self).synced(),
    {
        let ghost before = self.rocksdb_engine_handler.db_view();
        proof {
            self.rocksdb_engine_handler.lemma_cluster();
        }
        self.rocksdb_engine_handler.flush();
        proof {
            let i = self.rocksdb_engine_handler.cluster().index as int;
            lemma_rows_named_after(before, i, before.rows(i), DB_COLUMN_FAMILY_CLUSTER@);
        }
    }
}

} // verus!
