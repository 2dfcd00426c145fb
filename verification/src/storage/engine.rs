//! The application's rows: values wrapped with the time of their storing,
//! under text keys, in the application namespace of the engine.

use vstd::prelude::*;
use vstd::utf8::encode_utf8;
use crate::base::error::NezaMQError;
use crate::base::text::str_eq;
use crate::base::tools::now_second;
use crate::storage::db::ColumnFamily;
use crate::storage::rocksdb::{RocksDBEngine, DB_COLUMN_FAMILY_CLUSTER};
use crate::storage::rows::{
    has_key, row_views, rows_with, rows_with_prefix, rows_without, value_of, Row, RowView,
};
use crate::storage::{parse_wrap, wrap_bytes, DataWrapView, StorageDataWrap};

verus! {

/// The text of the failure for a row that holds no stored value.
pub const NOT_A_STORED_VALUE: &'static str = "Failed to deserialize: row is not a stored value";

/// The stored value that a row holds.
pub open spec fn row_wrap(r: RowView) -> DataWrapView {
    parse_wrap(r.1)->0
}

/// The stored values that rows hold, row by row.
pub open spec fn wraps_of(rows: Seq<RowView>) -> Seq<DataWrapView> {
    rows.map_values(|r: RowView| row_wrap(r))
}

/// Every row holds a stored value.
pub open spec fn all_wraps(rows: Seq<RowView>) -> bool {
    forall|i: int| 0 <= i < rows.len() ==> parse_wrap((#[trigger] rows[i]).1) is Some
}

/// The views of a list of stored values.
pub open spec fn wrap_views(wraps: Seq<StorageDataWrap>) -> Seq<DataWrapView> {
    wraps.map_values(|w: StorageDataWrap| w@)
}

/// The application's rows after `value`, stored at `create_time`, has been
/// saved under `key_name`.
pub open spec fn saved_rows(
    rows: Seq<RowView>,
    key_name: Seq<char>,
    value: Seq<u8>,
    create_time: u64,
) -> Seq<RowView> {
    rows_with(rows, encode_utf8(key_name), wrap_bytes(DataWrapView { data: value, create_time }))
}

/// Saves `value` under `key_name` in the application namespace, wrapped with
/// the time of the machine.
pub fn engine_save_by_cluster(
    rocksdb_engine_handler: &mut RocksDBEngine,
    key_name: String,
    value: Vec<u8>,
) -> (r: Result<(), NezaMQError>)
    requires
        old(rocksdb_engine_handler).wf(),
    ensures
        final(rocksdb_engine_handler).wf(),
        r is Ok,
        exists|create_time: u64|
            final(rocksdb_engine_handler).cluster_rows() == #[trigger] saved_rows(
                old(rocksdb_engine_handler).cluster_rows(),
                key_name@,
                value@,
                create_time,
            ),
{
    engine_save(rocksdb_engine_handler, DB_COLUMN_FAMILY_CLUSTER, key_name, value)
}

/// The value stored under `key_name` in the application namespace, if any.
pub fn engine_get_by_cluster(rocksdb_engine_handler: &RocksDBEngine, key_name: String) -> (r: Result<
    Option<StorageDataWrap>,
    NezaMQError,
>)
    requires
        rocksdb_engine_handler.wf(),
    ensures
        stored_value(rocksdb_engine_handler.cluster_rows(), key_name@, r),
{
    engine_get(rocksdb_engine_handler, DB_COLUMN_FAMILY_CLUSTER, key_name)
}

/// Removes `key_name` from the application namespace.
pub fn engine_delete_by_cluster(rocksdb_engine_handler: &mut RocksDBEngine, key_name: String) -> (r:
    Result<(), NezaMQError>)
    requires
        old(rocksdb_engine_handler).wf(),
    ensures
        final(rocksdb_engine_handler).wf(),
        r is Ok,
        final(rocksdb_engine_handler).cluster_rows() == rows_without(
            old(rocksdb_engine_handler).cluster_rows(),
            encode_utf8(key_name@),
        ),
{
    engine_delete(rocksdb_engine_handler, DB_COLUMN_FAMILY_CLUSTER, key_name)
}

/// Whether the application namespace holds `key_name`.
pub fn engine_exists_by_cluster(rocksdb_engine_handler: &RocksDBEngine, key_name: String) -> (r:
    Result<bool, NezaMQError>)
    requires
        rocksdb_engine_handler.wf(),
    ensures
        r is Ok,
        r->Ok_0 == has_key(rocksdb_engine_handler.cluster_rows(), encode_utf8(key_name@)),
{
    engine_exists(rocksdb_engine_handler, DB_COLUMN_FAMILY_CLUSTER, key_name)
}

/// The values of the application namespace whose key starts with
/// `prefix_key_name`, in key order. A row that holds no stored value fails
/// the listing.
pub fn engine_prefix_list_by_cluster(
    rocksdb_engine_handler: &RocksDBEngine,
    prefix_key_name: String,
) -> (r: Result<Vec<StorageDataWrap>, NezaMQError>)
    requires
        rocksdb_engine_handler.wf(),
    ensures
        listed_values(rocksdb_engine_handler.cluster_rows(), prefix_key_name@, r),
{
    engine_prefix_list(rocksdb_engine_handler, DB_COLUMN_FAMILY_CLUSTER, prefix_key_name)
}

/// What a read of `key_name` returns on the rows: the stored value, nothing
/// where the key is absent, and a failure where its row holds no stored
/// value.
pub open spec fn stored_value(
    rows: Seq<RowView>,
    key_name: Seq<char>,
    r: Result<Option<StorageDataWrap>, NezaMQError>,
) -> bool {
    match value_of(rows, encode_utf8(key_name)) {
        None => r is Ok && r->Ok_0 is None,
        Some(bytes) => match parse_wrap(bytes) {
            Some(wrap) => r is Ok && r->Ok_0 is Some && r->Ok_0->0@ == wrap,
            None => r is Err && r->Err_0 is CommonError && r->Err_0.message()
                == NOT_A_STORED_VALUE@,
        },
    }
}

/// What a listing by `prefix` returns on the rows: the stored values of the
/// rows with the prefix, or a failure where one of them holds none.
pub open spec fn listed_values(
    rows: Seq<RowView>,
    prefix: Seq<char>,
    r: Result<Vec<StorageDataWrap>, NezaMQError>,
) -> bool {
    if all_wraps(rows_with_prefix(rows, encode_utf8(prefix))) {
        r is Ok && wrap_views(r->Ok_0@) == wraps_of(rows_with_prefix(rows, encode_utf8(prefix)))
    } else {
        r is Err && r->Err_0 is CommonError && r->Err_0.message() == NOT_A_STORED_VALUE@
    }
}

/// The handle of the namespace called `rocksdb_cluster`: only the
/// application namespace is served.
fn cluster_handle(rocksdb_engine_handler: &RocksDBEngine, rocksdb_cluster: &str) -> (r: Result<
    ColumnFamily,
    NezaMQError,
>)
    requires
        rocksdb_engine_handler.wf(),
    ensures
        rocksdb_cluster@ == DB_COLUMN_FAMILY_CLUSTER@ ==> r is Ok && r->Ok_0
            == rocksdb_engine_handler.cluster() && rocksdb_engine_handler.serves(r->Ok_0)
            && rocksdb_engine_handler.rows(r->Ok_0) == rocksdb_engine_handler.cluster_rows(),
        rocksdb_cluster@ != DB_COLUMN_FAMILY_CLUSTER@ ==> r is Err && r->Err_0
            is ClusterNoAvailableNode,
{
    if str_eq(rocksdb_cluster, DB_COLUMN_FAMILY_CLUSTER) {
        Ok(rocksdb_engine_handler.cf_cluster())
    } else {
        Err(NezaMQError::ClusterNoAvailableNode)
    }
}

/// Saves `value` under `key_name`, wrapped with `create_time`.
pub fn engine_save_at(
    rocksdb_engine_handler: &mut RocksDBEngine,
    rocksdb_cluster: &str,
    key_name: String,
    value: Vec<u8>,
    create_time: u64,
) -> (r: Result<(), NezaMQError>)
    requires
        old(rocksdb_engine_handler).wf(),
    ensures
        final(rocksdb_engine_handler).wf(),
        rocksdb_cluster@ == DB_COLUMN_FAMILY_CLUSTER@ ==> r is Ok && final(rocksdb_engine_handler).cluster_rows() == saved_rows(
            old(rocksdb_engine_handler).cluster_rows(),
            key_name@,
            value@,
            create_time,
        ),
        rocksdb_cluster@ != DB_COLUMN_FAMILY_CLUSTER@ ==> r is Err && r->Err_0
            is ClusterNoAvailableNode && final(rocksdb_engine_handler).db_view() == old(rocksdb_engine_handler).db_view(),
{
    let cf: ColumnFamily = match cluster_handle(rocksdb_engine_handler, rocksdb_cluster) {
        Ok(cf) => cf,
        Err(e) => {
            return Err(e);
        },
    };
    let data: StorageDataWrap = StorageDataWrap::at(value, create_time);
    let ghost before = rocksdb_engine_handler.db_view();
    proof {
        rocksdb_engine_handler.lemma_cluster();
    }
    let r = rocksdb_engine_handler.write(&cf, key_name.as_str(), data.encode().as_slice());
    proof {
        rocksdb_engine_handler.lemma_cluster();
        lemma_family_rows(before, cf, rocksdb_engine_handler.rows(cf));
    }
    match r {
        Ok(()) => Ok(()),
        Err(e) => Err(NezaMQError::CommonError(e)),
    }
}

/// New rows for the namespace of a handle are the rows of that namespace
/// afterwards.
proof fn lemma_family_rows(v: crate::storage::db::DbView, cf: ColumnFamily, rows: Seq<RowView>)
    requires
        cf.index < v.families.len(),
    ensures
        v.with_rows(cf.index as int, rows).rows(cf.index as int) == rows,
{
}

fn engine_save(
    rocksdb_engine_handler: &mut RocksDBEngine,
    rocksdb_cluster: &str,
    key_name: String,
    value: Vec<u8>,
) -> (r: Result<(), NezaMQError>)
    requires
        old(rocksdb_engine_handler).wf(),
    ensures
        final(rocksdb_engine_handler).wf(),
        rocksdb_cluster@ == DB_COLUMN_FAMILY_CLUSTER@ ==> r is Ok && exists|create_time: u64|
            final(rocksdb_engine_handler).cluster_rows() == #[trigger] saved_rows(
                old(rocksdb_engine_handler).cluster_rows(),
                key_name@,
                value@,
                create_time,
            ),
        rocksdb_cluster@ != DB_COLUMN_FAMILY_CLUSTER@ ==> r is Err && r->Err_0
            is ClusterNoAvailableNode && final(rocksdb_engine_handler).db_view() == old(rocksdb_engine_handler).db_view(),
{
    let create_time: u64 = now_second();
    let ghost key = key_name@;
    let ghost bytes = value@;
    let r = engine_save_at(rocksdb_engine_handler, rocksdb_cluster, key_name, value, create_time);
    proof {
        if rocksdb_cluster@ == DB_COLUMN_FAMILY_CLUSTER@ {
            assert(rocksdb_engine_handler.cluster_rows() == saved_rows(
                old(rocksdb_engine_handler).cluster_rows(),
                key,
                bytes,
                create_time,
            ));
        }
    }
    r
}

fn engine_get(rocksdb_engine_handler: &RocksDBEngine, rocksdb_cluster: &str, key_name: String) -> (r:
    Result<Option<StorageDataWrap>, NezaMQError>)
    requires
        rocksdb_engine_handler.wf(),
    ensures
        rocksdb_cluster@ == DB_COLUMN_FAMILY_CLUSTER@ ==> stored_value(
            rocksdb_engine_handler.cluster_rows(),
            key_name@,
            r,
        ),
        rocksdb_cluster@ != DB_COLUMN_FAMILY_CLUSTER@ ==> r is Err && r->Err_0
            is ClusterNoAvailableNode,
{
    let cf: ColumnFamily = match cluster_handle(rocksdb_engine_handler, rocksdb_cluster) {
        Ok(cf) => cf,
        Err(e) => {
            return Err(e);
        },
    };
    match rocksdb_engine_handler.read(&cf, key_name.as_str()) {
        Ok(Some(bytes)) => match StorageDataWrap::decode(bytes.as_slice()) {
            Some(data) => Ok(Some(data)),
            None => Err(NezaMQError::CommonError(String::from_str(NOT_A_STORED_VALUE))),
        },
        Ok(None) => Ok(None),
        Err(e) => Err(NezaMQError::CommonError(e)),
    }
}

fn engine_delete(rocksdb_engine_handler: &mut RocksDBEngine, rocksdb_cluster: &str, key_name: String) -> (r:
    Result<(), NezaMQError>)
    requires
        old(rocksdb_engine_handler).wf(),
    ensures
        final(rocksdb_engine_handler).wf(),
        rocksdb_cluster@ == DB_COLUMN_FAMILY_CLUSTER@ ==> r is Ok && final(rocksdb_engine_handler).cluster_rows() == rows_without(
            old(rocksdb_engine_handler).cluster_rows(),
            encode_utf8(key_name@),
        ),
        rocksdb_cluster@ != DB_COLUMN_FAMILY_CLUSTER@ ==> r is Err && r->Err_0
            is ClusterNoAvailableNode && final(rocksdb_engine_handler).db_view() == old(rocksdb_engine_handler).db_view(),
{
    let cf: ColumnFamily = match cluster_handle(rocksdb_engine_handler, rocksdb_cluster) {
        Ok(cf) => cf,
        Err(e) => {
            return Err(e);
        },
    };
    let ghost before = rocksdb_engine_handler.db_view();
    proof {
        rocksdb_engine_handler.lemma_cluster();
    }
    let r = rocksdb_engine_handler.delete(&cf, key_name.as_str());
    proof {
        rocksdb_engine_handler.lemma_cluster();
        lemma_family_rows(before, cf, rocksdb_engine_handler.rows(cf));
    }
    r
}

fn engine_exists(rocksdb_engine_handler: &RocksDBEngine, rocksdb_cluster: &str, key_name: String) -> (r:
    Result<bool, NezaMQError>)
    requires
        rocksdb_engine_handler.wf(),
    ensures
        rocksdb_cluster@ == DB_COLUMN_FAMILY_CLUSTER@ ==> r is Ok && r->Ok_0 == has_key(
            rocksdb_engine_handler.cluster_rows(),
            encode_utf8(key_name@),
        ),
        rocksdb_cluster@ != DB_COLUMN_FAMILY_CLUSTER@ ==> r is Err && r->Err_0
            is ClusterNoAvailableNode,
{
    let cf: ColumnFamily = match cluster_handle(rocksdb_engine_handler, rocksdb_cluster) {
        Ok(cf) => cf,
        Err(e) => {
            return Err(e);
        },
    };
    Ok(rocksdb_engine_handler.exist(&cf, key_name.as_str()))
}

fn engine_prefix_list(
    rocksdb_engine_handler: &RocksDBEngine,
    rocksdb_cluster: &str,
    prefix_key_name: String,
) -> (r: Result<Vec<StorageDataWrap>, NezaMQError>)
    requires
        rocksdb_engine_handler.wf(),
    ensures
        rocksdb_cluster@ == DB_COLUMN_FAMILY_CLUSTER@ ==> listed_values(
            rocksdb_engine_handler.cluster_rows(),
            prefix_key_name@,
            r,
        ),
        rocksdb_cluster@ != DB_COLUMN_FAMILY_CLUSTER@ ==> r is Err && r->Err_0
            is ClusterNoAvailableNode,
{
    let cf: ColumnFamily = match cluster_handle(rocksdb_engine_handler, rocksdb_cluster) {
        Ok(cf) => cf,
        Err(e) => {
            return Err(e);
        },
    };
    let data_list: Vec<Row> = rocksdb_engine_handler.read_prefix(&cf, prefix_key_name.as_str());
    let ghost rows = row_views(data_list@);
    let mut results: Vec<StorageDataWrap> = Vec::new();
    let mut i: usize = 0;
    while i < data_list.len()
        invariant
            i <= data_list.len(),
            rows == row_views(data_list@),
            rocksdb_cluster@ == DB_COLUMN_FAMILY_CLUSTER@,
            rows == rows_with_prefix(
                rocksdb_engine_handler.cluster_rows(),
                encode_utf8(prefix_key_name@),
            ),
            results@.len() == i,
            forall|k: int| 0 <= k < i ==> parse_wrap((#[trigger] rows[k]).1) is Some,
            forall|k: int| 0 <= k < i ==> (#[trigger] results@[k])@ == row_wrap(rows[k]),
        decreases data_list.len() - i,
    {
        assert(rows[i as int] == data_list@[i as int]@);
        match StorageDataWrap::decode(data_list[i].value.as_slice()) {
            Some(v) => {
                results.push(v);
            },
            None => {
                return Err(NezaMQError::CommonError(String::from_str(NOT_A_STORED_VALUE)));
            },
        }
        i += 1;
    }
    assert(wrap_views(results@) =~= wraps_of(rows));
    Ok(results)
}

} // verus!
