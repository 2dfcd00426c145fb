//! The embedded ordered key/value engine and what is layered directly on it.

use vstd::prelude::*;
use vstd::slice::{slice_subrange, slice_to_vec};
use crate::base::tools::now_second;
use crate::raft::codec::{append_u64, read_u64, u64_at};
use crate::raft::index_key::{be_bytes, lemma_be_round_trip};

pub mod db;
pub mod engine;
pub mod keys;
pub mod kv;
pub mod order;
pub mod rocksdb;
pub mod rows;

verus! {

/// A stored value as contracts see it.
pub struct DataWrapView {
    pub data: Seq<u8>,
    pub create_time: u64,
}

/// A value of the application as it is stored: the bytes, and the second at
/// which they were stored.
#[derive(Debug, PartialEq, Eq)]
pub struct StorageDataWrap {
    pub data: Vec<u8>,
    pub create_time: u64,
}

impl View for StorageDataWrap {
    type V = DataWrapView;

    open spec fn view(&self) -> DataWrapView {
        DataWrapView { data: self.data@, create_time: self.create_time }
    }
}

/// The bytes of a stored value: the second of its storing, then the data.
pub open spec fn wrap_bytes(w: DataWrapView) -> Seq<u8> {
    be_bytes(w.create_time) + w.data
}

/// The stored value that a row holds, if it holds one.
pub open spec fn parse_wrap(b: Seq<u8>) -> Option<DataWrapView> {
    if b.len() >= 8 {
        Some(DataWrapView { data: b.subrange(8, b.len() as int), create_time: u64_at(b, 0) })
    } else {
        None
    }
}

/// A stored value is read back from its bytes.
pub proof fn lemma_wrap_round_trip(w: DataWrapView)
    ensures
        parse_wrap(wrap_bytes(w)) == Some(w),
{
    let b = wrap_bytes(w);
    lemma_be_round_trip(w.create_time);
    assert(b.subrange(0, 8) =~= be_bytes(w.create_time));
    assert(b.subrange(8, b.len() as int) =~= w.data);
}

impl StorageDataWrap {
    /// Wraps the data with the time of the machine.
    pub fn new(data: Vec<u8>) -> (w: Self)
        ensures
            w.data == data,
    {
        Self { data, create_time: now_second() }
    }

    /// Wraps the data with the given time.
    pub fn at(data: Vec<u8>, create_time: u64) -> (w: Self)
        ensures
            w.data == data,
            w.create_time == create_time,
    {
        Self { data, create_time }
    }

    /// The row for the value.
    pub fn encode(&self) -> (row: Vec<u8>)
        ensures
            row@ == wrap_bytes(self@),
    {
        let mut row: Vec<u8> = Vec::new();
        append_u64(&mut row, self.create_time);
        row.extend_from_slice(self.data.as_slice());
        assert(row@ =~= wrap_bytes(self@));
        row
    }

    /// The value that a row holds, if it holds one.
    pub fn decode(row: &[u8]) -> (r: Option<StorageDataWrap>)
        ensures
            r is Some == parse_wrap(row@) is Some,
            r is Some ==> Some(r->0@) == parse_wrap(row@),
    {
        if row.len() >= 8 {
            Some(
                StorageDataWrap {
                    data: slice_to_vec(slice_subrange(row, 8, row.len())),
                    create_time: read_u64(row, 0),
                },
            )
        } else {
            None
        }
    }
}

} // verus!
