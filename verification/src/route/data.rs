//! What an applied log entry asks of the application.

use vstd::prelude::*;
use vstd::slice::{slice_subrange, slice_to_vec};
use crate::base::text::{concat3, decimal, u64_to_string};

verus! {

/// The kinds of request.
#[derive(Debug, Clone, Copy, PartialEq, Eq, Structural)]
pub enum StorageDataType {
    /// Set a key to a value.
    KvSet,
    /// Remove a key.
    KvDelete,
    /// Add a node to a cluster.
    ClusterAddNode,
    /// Remove a node from a cluster.
    ClusterDeleteNode,
    /// Add a cluster.
    ClusterAddCluster,
    /// Remove a cluster.
    ClusterDeleteCluster,
}

/// A request as contracts see it.
pub struct StorageDataView {
    pub data_type: StorageDataType,
    pub value: Seq<u8>,
}

/// A request to the application: its kind and its payload.
#[derive(Debug, PartialEq, Eq)]
pub struct StorageData {
    pub data_type: StorageDataType,
    pub value: Vec<u8>,
}

impl View for StorageData {
    type V = StorageDataView;

    open spec fn view(&self) -> StorageDataView {
        StorageDataView { data_type: self.data_type, value: self.value@ }
    }
}

/// The name of a kind of request.
pub open spec fn kind_name(t: StorageDataType) -> Seq<char> {
    match t {
        StorageDataType::KvSet => "KvSet"@,
        StorageDataType::KvDelete => "KvDelete"@,
        StorageDataType::ClusterAddNode => "ClusterAddNode"@,
        StorageDataType::ClusterDeleteNode => "ClusterDeleteNode"@,
        StorageDataType::ClusterAddCluster => "ClusterAddCluster"@,
        StorageDataType::ClusterDeleteCluster => "ClusterDeleteCluster"@,
    }
}

/// The numbers of `bytes`, in decimal and joined by a comma and a blank.
pub open spec fn joined(bytes: Seq<u8>) -> Seq<char>
    decreases bytes.len(),
{
    if bytes.len() == 0 {
        Seq::empty()
    } else if bytes.len() == 1 {
        decimal(bytes[0] as nat)
    } else {
        joined(bytes.drop_last()) + ", "@ + decimal(bytes.last() as nat)
    }
}

/// A request as text: its kind and its payload as a list of numbers, in
/// round brackets.
pub open spec fn storage_data_text(d: StorageDataView) -> Seq<char> {
    "("@ + kind_name(d.data_type) + ",["@ + joined(d.value) + "])"@
}

/// The byte that stands for a kind of request.
pub open spec fn type_tag(t: StorageDataType) -> u8 {
    match t {
        StorageDataType::KvSet => 0,
        StorageDataType::KvDelete => 1,
        StorageDataType::ClusterAddNode => 2,
        StorageDataType::ClusterDeleteNode => 3,
        StorageDataType::ClusterAddCluster => 4,
        StorageDataType::ClusterDeleteCluster => 5,
    }
}

/// The kind of request that a byte stands for, if it stands for one.
pub open spec fn tag_type(tag: u8) -> Option<StorageDataType> {
    if tag == 0 {
        Some(StorageDataType::KvSet)
    } else if tag == 1 {
        Some(StorageDataType::KvDelete)
    } else if tag == 2 {
        Some(StorageDataType::ClusterAddNode)
    } else if tag == 3 {
        Some(StorageDataType::ClusterDeleteNode)
    } else if tag == 4 {
        Some(StorageDataType::ClusterAddCluster)
    } else if tag == 5 {
        Some(StorageDataType::ClusterDeleteCluster)
    } else {
        None
    }
}

/// The bytes of a request: the byte of its kind, then the payload.
pub open spec fn storage_data_bytes(d: StorageDataView) -> Seq<u8> {
    seq![type_tag(d.data_type)] + d.value
}

/// The request that the bytes hold, if they hold one.
pub open spec fn parse_storage_data(b: Seq<u8>) -> Option<StorageDataView> {
    if b.len() >= 1 {
        match tag_type(b[0]) {
            Some(data_type) => Some(
                StorageDataView { data_type, value: b.subrange(1, b.len() as int) },
            ),
            None => None,
        }
    } else {
        None
    }
}

/// A request is read back from its bytes.
pub proof fn lemma_storage_data_round_trip(d: StorageDataView)
    ensures
        parse_storage_data(storage_data_bytes(d)) == Some(d),
{
    let b = storage_data_bytes(d);
    assert(b.subrange(1, b.len() as int) =~= d.value);
}

impl StorageData {
    pub fn new(data_type: StorageDataType, value: Vec<u8>) -> (d: StorageData)
        ensures
            d.data_type == data_type,
            d.value == value,
    {
        StorageData { data_type, value }
    }

    /// Renders the request as text.
    pub fn to_string(&self) -> (s: String)
        ensures
            s@ == storage_data_text(self@),
    {
        let name: &'static str = match self.data_type {
            StorageDataType::KvSet => "KvSet",
            StorageDataType::KvDelete => "KvDelete",
            StorageDataType::ClusterAddNode => "ClusterAddNode",
            StorageDataType::ClusterDeleteNode => "ClusterDeleteNode",
            StorageDataType::ClusterAddCluster => "ClusterAddCluster",
            StorageDataType::ClusterDeleteCluster => "ClusterDeleteCluster",
        };
        let mut s: String = concat3("(", name, ",[");
        let ghost head = s@;
        let mut i: usize = 0;
        assert(self.value@.subrange(0, 0) =~= Seq::<u8>::empty());
        while i < self.value.len()
            invariant
                i <= self.value.len(),
                s@ == head + joined(self.value@.subrange(0, i as int)),
            decreases self.value.len() - i,
        {
            let ghost done = self.value@.subrange(0, i as int);
            let ghost next = self.value@.subrange(0, i + 1);
            proof {
                assert(next.drop_last() =~= done);
                assert(next.last() == self.value@[i as int]);
                if i > 0 {
                    assert(joined(next) == joined(done) + ", "@ + decimal(next.last() as nat));
                } else {
                    assert(joined(done) =~= Seq::<char>::empty());
                }
            }
            if i > 0 {
                s.append(", ");
            }
            let digits: String = u64_to_string(self.value[i] as u64);
            s.append(digits.as_str());
            assert(s@ =~= head + joined(next));
            i += 1;
        }
        assert(self.value@.subrange(0, i as int) =~= self.value@);
        s.append("])");
        s
    }

    /// The bytes of the request, as they travel in a log entry.
    pub fn encode(&self) -> (bytes: Vec<u8>)
        ensures
            bytes@ == storage_data_bytes(self@),
    {
        let tag: u8 = match self.data_type {
            StorageDataType::KvSet => 0,
            StorageDataType::KvDelete => 1,
            StorageDataType::ClusterAddNode => 2,
            StorageDataType::ClusterDeleteNode => 3,
            StorageDataType::ClusterAddCluster => 4,
            StorageDataType::ClusterDeleteCluster => 5,
        };
        let mut bytes: Vec<u8> = Vec::new();
        bytes.push(tag);
        bytes.extend_from_slice(self.value.as_slice());
        assert(bytes@ =~= storage_data_bytes(self@));
        bytes
    }

    /// The request that the bytes hold, if they hold one.
    pub fn decode(bytes: &[u8]) -> (r: Option<StorageData>)
        ensures
            r is Some == parse_storage_data(bytes@) is Some,
            r is Some ==> Some(r->0@) == parse_storage_data(bytes@),
    {
        if bytes.len() < 1 {
            return None;
        }
        let tag: u8 = bytes[0];
        let data_type: StorageDataType = if tag == 0 {
            StorageDataType::KvSet
        } else if tag == 1 {
            StorageDataType::KvDelete
        } else if tag == 2 {
            StorageDataType::ClusterAddNode
        } else if tag == 3 {
            StorageDataType::ClusterDeleteNode
        } else if tag == 4 {
            StorageDataType::ClusterAddCluster
        } else if tag == 5 {
            StorageDataType::ClusterDeleteCluster
        } else {
            return None;
        };
        Some(StorageData { data_type, value: slice_to_vec(slice_subrange(bytes, 1, bytes.len())) })
    }
}

} // verus!
