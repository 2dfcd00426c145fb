//! The application behind the state machine: it takes the requests of
//! applied log entries, and its state can be captured and restored whole.

use vstd::prelude::*;
use vstd::slice::{slice_subrange, slice_to_vec};
use vstd::utf8::{decode_utf8, encode_utf8, valid_utf8};
use crate::base::error::CommonError;
use crate::base::json::json_of_text;
use crate::base::tools::now_second;
use crate::raft::codec::{append_u64, lemma_u64_after, read_u64, string_from_utf8, u64_at};
use crate::raft::index_key::be_bytes;
use crate::raft::types::AppResponseData;
use crate::route::data::{parse_storage_data, StorageData, StorageDataType};
use crate::route::rows_codec::{
    decode_rows, encode_rows, lemma_rows_round_trip, parse_rows, rows_bytes, rows_fit,
};
use crate::storage::engine::saved_rows;
use crate::storage::kv::KvStorage;
use crate::storage::db::{lemma_rows_named_with_family, DB};
use crate::storage::rocksdb::{RocksDBEngine, DB_COLUMN_FAMILY_CLUSTER};
use crate::storage::rows::{ascending, rows_without, Row, RowView};

pub mod data;
pub mod rows_codec;

verus! {

/// The text of the failure for bytes that hold no request.
pub const NOT_A_REQUEST: &'static str = "entry payload is not a request";

/// The text of the failure for a request that the application does not
/// serve.
pub const REQUEST_NOT_SERVED: &'static str = "request kind is not served";

/// The text of the failure for a snapshot that holds no rows in key order.
pub const NOT_A_SNAPSHOT: &'static str = "snapshot data is not a list of rows in key order";

/// The payload of a request to set `key` to `value`: the length of the key
/// in bytes, the key, and the value.
pub open spec fn set_payload(key: Seq<char>, value: Seq<char>) -> Seq<u8> {
    be_bytes(encode_utf8(key).len() as u64) + encode_utf8(key) + encode_utf8(value)
}

/// The key and the value of a request to set a key, if the payload holds
/// them.
pub open spec fn parse_set(b: Seq<u8>) -> Option<(Seq<char>, Seq<char>)> {
    if b.len() < 8 {
        None
    } else {
        let key_len = u64_at(b, 0) as int;
        if key_len > b.len() - 8 {
            None
        } else {
            let key = b.subrange(8, 8 + key_len);
            let value = b.subrange(8 + key_len, b.len() as int);
            if valid_utf8(key) && valid_utf8(value) {
                Some((decode_utf8(key), decode_utf8(value)))
            } else {
                None
            }
        }
    }
}

/// The key of a request to remove a key, if the payload holds one.
pub open spec fn parse_delete(b: Seq<u8>) -> Option<Seq<char>> {
    if valid_utf8(b) {
        Some(decode_utf8(b))
    } else {
        None
    }
}

/// Whether the application carries out the request that `data` holds: the
/// request can be read, is to set or to remove a key, and a value to be set
/// can be written as JSON.
pub open spec fn route_ok(data: Seq<u8>) -> bool {
    match parse_storage_data(data) {
        None => false,
        Some(d) => match d.data_type {
            StorageDataType::KvSet => match parse_set(d.value) {
                None => false,
                Some((key, value)) => json_of_text(value) is Some,
            },
            StorageDataType::KvDelete => parse_delete(d.value) is Some,
            _ => false,
        },
    }
}

/// The rows of the application after the request that `data` holds, which
/// arrives at second `now`. A request that is not carried out changes
/// nothing.
pub open spec fn route_rows(before: Seq<RowView>, data: Seq<u8>, now: u64) -> Seq<RowView> {
    if !route_ok(data) {
        before
    } else {
        let d = parse_storage_data(data)->0;
        match d.data_type {
            StorageDataType::KvSet => match parse_set(d.value) {
                Some((key, value)) => saved_rows(
                    before,
                    key,
                    encode_utf8(json_of_text(value)->0),
                    now,
                ),
                None => before,
            },
            _ => rows_without(before, encode_utf8(parse_delete(d.value)->0)),
        }
    }
}

/// What a request that arrives at second `now` does to the rows of the
/// application, and what it returns.
pub open spec fn routed(
    before: Seq<RowView>,
    data: Seq<u8>,
    now: u64,
    after: Seq<RowView>,
    r: Result<AppResponseData, CommonError>,
) -> bool {
    r is Ok == route_ok(data) && after == route_rows(before, data, now)
}

/// What taking in a snapshot does to the rows of the application: rows in
/// key order replace them; anything else fails and changes nothing.
pub open spec fn recovered(
    before: Seq<RowView>,
    data: Seq<u8>,
    after: Seq<RowView>,
    ok: bool,
) -> bool {
    match parse_rows(data) {
        Some(rows) => if ascending(rows) {
            ok && after == rows
        } else {
            !ok && after == before
        },
        None => !ok && after == before,
    }
}

/// The application.
pub struct DataRoute {
    kv: KvStorage,
}

impl DataRoute {
    /// The rows of the application: its state.
    pub closed spec fn rows(&self) -> Seq<RowView> {
        self.kv.rows()
    }

    /// Whether everything written is durable.
    pub closed spec fn synced(&self) -> bool {
        self.kv.synced()
    }

    /// The application stands on a well-formed engine.
    pub closed spec fn wf(&self) -> bool {
        self.kv.wf()
    }

    /// The application on an engine.
    pub fn new(engine: RocksDBEngine) -> (route: Self)
        requires
            engine.wf(),
        ensures
            route.wf(),
            route.rows() == engine.cluster_rows(),
    {
        DataRoute { kv: KvStorage::new(engine) }
    }

    /// The application on a store: the engine is opened on the store, and
    /// the application on the engine. The application namespace is made
    /// where the store has none; the rows of the store stay as they are.
    pub fn open(db: DB) -> (route: Self)
        ensures
            route.wf(),
            route.rows() == db@.rows_named(DB_COLUMN_FAMILY_CLUSTER@),
    {
        db.known_well_formed();
        let engine: RocksDBEngine = RocksDBEngine::new(db);
        proof {
            if !db@.has_family(DB_COLUMN_FAMILY_CLUSTER@) {
                lemma_rows_named_with_family(
                    db@,
                    DB_COLUMN_FAMILY_CLUSTER@,
                    DB_COLUMN_FAMILY_CLUSTER@,
                );
            }
        }
        DataRoute::new(engine)
    }

    /// The engine under the application.
    pub fn engine(&self) -> (engine: &RocksDBEngine)
        ensures
            engine.cluster_rows() == self.rows(),
            engine.wf() == self.wf(),
            engine.db_view().synced == self.synced(),
    {
        self.kv.engine()
    }

    /// Gives the engine back.
    pub fn into_engine(self) -> (engine: RocksDBEngine)
        requires
            self.wf(),
        ensures
            engine.wf(),
            engine.cluster_rows() == self.rows(),
    {
        self.kv.into_engine()
    }

    /// The request to set `key` to `value`.
    pub fn set_request(key: &str, value: &str) -> (d: StorageData)
        ensures
            d.data_type == StorageDataType::KvSet,
            d.value@ == set_payload(key@, value@),
    {
        let key_bytes: Vec<u8> = key.as_bytes_vec();
        let mut payload: Vec<u8> = Vec::new();
        append_u64(&mut payload, key_bytes.len() as u64);
        payload.extend_from_slice(key_bytes.as_slice());
        payload.extend_from_slice(value.as_bytes());
        assert(payload@ =~= set_payload(key@, value@));
        StorageData::new(StorageDataType::KvSet, payload)
    }

    /// The request to remove `key`.
    pub fn delete_request(key: &str) -> (d: StorageData)
        ensures
            d.data_type == StorageDataType::KvDelete,
            d.value@ == encode_utf8(key@),
    {
        StorageData::new(StorageDataType::KvDelete, key.as_bytes_vec())
    }

    fn route_set(&mut self, payload: &[u8], now: u64) -> (r: Result<AppResponseData, CommonError>)
        requires
            old(self).wf(),
        ensures
            final(self).wf(),
            match parse_set(payload@) {
                None => r is Err && final(self).rows() == old(self).rows(),
                Some((key, value)) => {
                    &&& r is Ok == json_of_text(value) is Some
                    &&& r is Ok ==> final(self).rows() == saved_rows(
                        old(self).rows(),
                        key,
                        encode_utf8(json_of_text(value)->0),
                        now,
                    )
                    &&& r is Err ==> final(self).rows() == old(self).rows()
                },
            },
    {
        let len: usize = payload.len();
        if len < 8 {
            return Err(CommonError::CommonError(String::from_str(NOT_A_REQUEST)));
        }
        let key_len: u64 = read_u64(payload, 0);
        if key_len > (len - 8) as u64 {
            return Err(CommonError::CommonError(String::from_str(NOT_A_REQUEST)));
        }
        let key_len: usize = key_len as usize;
        let key: Option<String> = string_from_utf8(
            slice_to_vec(slice_subrange(payload, 8, 8 + key_len)),
        );
        let value: Option<String> = string_from_utf8(
            slice_to_vec(slice_subrange(payload, 8 + key_len, len)),
        );
        match (key, value) {
            (Some(key), Some(value)) => {
                let ghost key_view = key@;
                let ghost value_view = value@;
                assert(parse_set(payload@) == Some((key_view, value_view)));
                match self.kv.set_at(key, value, now) {
                    Ok(()) => Ok(AppResponseData { value: None }),
                    Err(e) => Err(CommonError::CommonError(e.to_string())),
                }
            },
            _ => {
                assert(parse_set(payload@) is None);
                Err(CommonError::CommonError(String::from_str(NOT_A_REQUEST)))
            },
        }
    }

    fn route_delete(&mut self, payload: Vec<u8>) -> (r: Result<AppResponseData, CommonError>)
        requires
            old(self).wf(),
        ensures
            final(self).wf(),
            match parse_delete(payload@) {
                None => r is Err && final(self).rows() == old(self).rows(),
                Some(key) => r is Ok && final(self).rows() == rows_without(
                    old(self).rows(),
                    encode_utf8(key),
                ),
            },
    {
        match string_from_utf8(payload) {
            Some(key) => match self.kv.delete(key) {
                Ok(()) => Ok(AppResponseData { value: None }),
                Err(e) => Err(CommonError::CommonError(e.to_string())),
            },
            None => Err(CommonError::CommonError(String::from_str(NOT_A_REQUEST))),
        }
    }

    /// Carries out the request that `data` holds, as of second `now`.
    pub fn route_at(&mut self, data: &[u8], now: u64) -> (r: Result<AppResponseData, CommonError>)
        requires
            old(self).wf(),
        ensures
            final(self).wf(),
            routed(old(self).rows(), data@, now, final(self).rows(), r),
    {
        let request: StorageData = match StorageData::decode(data) {
            Some(request) => request,
            None => {
                return Err(CommonError::CommonError(String::from_str(NOT_A_REQUEST)));
            },
        };
        assert(parse_storage_data(data@)->0 == request@);
        match request.data_type {
            StorageDataType::KvSet => self.route_set(request.value.as_slice(), now),
            StorageDataType::KvDelete => self.route_delete(request.value),
            _ => Err(CommonError::CommonError(String::from_str(REQUEST_NOT_SERVED))),
        }
    }

    /// Carries out the request that `data` holds, as of the time of the
    /// machine.
    pub fn route(&mut self, data: &[u8]) -> (r: Result<AppResponseData, CommonError>)
        requires
            old(self).wf(),
        ensures
            final(self).wf(),
            exists|now: u64| #[trigger] routed(old(self).rows(), data@, now, final(self).rows(), r),
    {
        let now: u64 = now_second();
        let r = self.route_at(data, now);
        assert(routed(old(self).rows(), data@, now, self.rows(), r));
        r
    }

    /// The state of the application, whole: its rows in key order.
    pub fn build_snapshot(&self) -> (data: Vec<u8>)
        requires
            self.wf(),
        ensures
            data@ == rows_bytes(self.rows()),
            recovered(self.rows(), data@, self.rows(), true),
    {
        let rows: Vec<Row> = self.kv.export();
        let data: Vec<u8> = encode_rows(&rows);
        proof {
            lemma_rows_round_trip(self.rows());
        }
        data
    }

    /// Takes the state of the application from a snapshot. The rows of the
    /// snapshot replace the rows at hand in one step, or not at all.
    pub fn recover_snapshot(&mut self, data: Vec<u8>) -> (r: Result<(), CommonError>)
        requires
            old(self).wf(),
        ensures
            final(self).wf(),
            recovered(old(self).rows(), data@, final(self).rows(), r is Ok),
            r is Err ==> r->Err_0 is CommonError && r->Err_0.message() == NOT_A_SNAPSHOT@,
    {
        let rows: Vec<Row> = match decode_rows(data.as_slice()) {
            Some(rows) => rows,
            None => {
                return Err(CommonError::CommonError(String::from_str(NOT_A_SNAPSHOT)));
            },
        };
        match self.kv.import(rows) {
            Ok(()) => Ok(()),
            Err(_) => Err(CommonError::CommonError(String::from_str(NOT_A_SNAPSHOT))),
        }
    }

    /// Makes everything written durable.
    pub fn flush(&mut self)
        requires
            old(self).wf(),
        ensures
            final(self).wf(),
            final(self).rows() == old(self).rows(),
            final(self).synced(),
    {
        self.kv.flush();
    }
}

/// A snapshot of the application restores the rows it was taken of,
/// whatever rows are at hand.
pub proof fn lemma_snapshot_restores(rows: Seq<RowView>, at_hand: Seq<RowView>)
    requires
        ascending(rows),
        rows_fit(rows),
    ensures
        recovered(at_hand, rows_bytes(rows), rows, true),
{
    lemma_rows_round_trip(rows);
}

/// The payload of a request to set a key holds the key and the value.
pub proof fn lemma_set_payload_round_trip(key: Seq<char>, value: Seq<char>)
    requires
        encode_utf8(key).len() <= u64::MAX,
    ensures
        parse_set(set_payload(key, value)) == Some((key, value)),
{
    let b = set_payload(key, value);
    let k = encode_utf8(key);
    let v = encode_utf8(value);
    lemma_u64_after(Seq::empty(), k.len() as u64, k + v);
    assert(b =~= Seq::<u8>::empty() + be_bytes(k.len() as u64) + (k + v));
    let key_len = k.len() as int;
    assert(b.subrange(8, 8 + key_len) =~= k);
    assert(b.subrange(8 + key_len, b.len() as int) =~= v);
    vstd::utf8::encode_utf8_valid_utf8(key);
    vstd::utf8::encode_utf8_decode_utf8(key);
    vstd::utf8::encode_utf8_valid_utf8(value);
    vstd::utf8::encode_utf8_decode_utf8(value);
}

} // verus!
