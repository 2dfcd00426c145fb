//! The services of a placement node and the connectors that dial them.

use vstd::prelude::*;
use crate::base::error::CommonError;
use crate::base::text::{concat2, concat3};

verus! {

/// The calls that a placement node serves.
#[derive(Debug, Clone, PartialEq, Eq, Hash)]
pub enum PlacementCenterInterface {
    SetKey,
    Get,
    Delete,
    Exists,
    ClusterStatus,
    ListNode,
    RegisterNode,
    UnRegisterNOde,
    Heartbeat,
    SendRaftMessage,
    SendRaftConfChange,
    Vote,
    Append,
    Snapshot,
    AddLearner,
    ChangeMembership,
}

/// The URL that a connector dials for `addr`.
pub open spec fn endpoint_of(addr: Seq<char>) -> Seq<char> {
    "http://"@ + addr
}

/// Connector of the placement service of one node.
#[derive(Debug, Clone)]
pub struct PlacementServiceManager {
    pub addr: String,
}

impl PlacementServiceManager {
    pub fn new(addr: String) -> (m: Self)
        ensures
            m.addr == addr,
    {
        Self { addr }
    }

    /// The URL to dial.
    pub fn endpoint(&self) -> (url: String)
        ensures
            url@ == endpoint_of(self.addr@),
    {
        concat2("http://", self.addr.as_str())
    }

    /// The error for a dial that failed with `cause`.
    pub fn connect_error(&self, cause: &str) -> (e: CommonError)
        ensures
            e == CommonError::CommonError(e->CommonError_0),
            e.message() == "manager connect error:"@ + cause@ + ","@ + self.addr@,
    {
        let mut text: String = concat3("manager connect error:", cause, ",");
        text.append(self.addr.as_str());
        CommonError::CommonError(text)
    }
}

/// Connector of the key/value service of one node.
#[derive(Debug, Clone)]
pub struct KvServiceManager {
    pub addr: String,
}

impl KvServiceManager {
    pub fn new(addr: String) -> (m: Self)
        ensures
            m.addr == addr,
    {
        Self { addr }
    }

    /// The URL to dial.
    pub fn endpoint(&self) -> (url: String)
        ensures
            url@ == endpoint_of(self.addr@),
    {
        concat2("http://", self.addr.as_str())
    }

    /// The error for a dial that failed with `cause`.
    pub fn connect_error(&self, cause: &str) -> (e: CommonError)
        ensures
            e == CommonError::CommonError(e->CommonError_0),
            e.message() == cause@ + ","@ + self.addr@,
    {
        CommonError::CommonError(concat3(cause, ",", self.addr.as_str()))
    }
}

/// Connector of the consensus service of one node.
#[derive(Debug, Clone)]
pub struct OpenRaftServiceManager {
    pub addr: String,
}

impl OpenRaftServiceManager {
    pub fn new(addr: String) -> (m: Self)
        ensures
            m.addr == addr,
    {
        Self { addr }
    }

    /// The URL to dial.
    pub fn endpoint(&self) -> (url: String)
        ensures
            url@ == endpoint_of(self.addr@),
    {
        concat2("http://", self.addr.as_str())
    }

    /// The error for a dial that failed with `cause`; it names the URL.
    pub fn connect_error(&self, cause: &str) -> (e: CommonError)
        ensures
            e == CommonError::CommonError(e->CommonError_0),
            e.message() == cause@ + ","@ + endpoint_of(self.addr@),
    {
        let url: String = self.endpoint();
        CommonError::CommonError(concat3(cause, ",", url.as_str()))
    }
}

} // verus!
