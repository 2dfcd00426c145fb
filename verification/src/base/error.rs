//! The error values that cross component boundaries.

use vstd::prelude::*;
use crate::base::text::{concat2, concat3};

verus! {

/// Failures of the client side and of shared helpers. A variant that stands
/// for a failure of some other layer carries that failure's message.
#[derive(Debug)]
pub enum CommonError {
    TokioBroacastSendErrorBool(String),
    FromTonicTransport(String),
    FromErrorKind(String),
    FromDecodeError(String),
    FromSerdeJsonError(String),
    FromRocksdbError(String),
    SchemaError(String),
    FromIoError(String),
    FromUtf8Error(String),
    FromAddrParseError(String),
    ApacheAvroError(String),
    FromParseIntError(String),
    CommonError(String),
    GrpcServerStatus(String),
    /// No connection could be checked out: the service, and the cause.
    NoAvailableGrpcConnection(String, String),
    /// The node is not the leader: the address of the leader.
    ForwardToLeader(String),
}

impl CommonError {
    /// The text of the error.
    pub open spec fn message(self) -> Seq<char> {
        match self {
            CommonError::TokioBroacastSendErrorBool(m) => m@,
            CommonError::FromTonicTransport(m) => m@,
            CommonError::FromErrorKind(m) => m@,
            CommonError::FromDecodeError(m) => m@,
            CommonError::FromSerdeJsonError(m) => m@,
            CommonError::FromRocksdbError(m) => m@,
            CommonError::SchemaError(m) => m@,
            CommonError::FromIoError(m) => m@,
            CommonError::FromUtf8Error(m) => m@,
            CommonError::FromAddrParseError(m) => m@,
            CommonError::ApacheAvroError(m) => m@,
            CommonError::FromParseIntError(m) => m@,
            CommonError::CommonError(m) => m@,
            CommonError::GrpcServerStatus(m) => m@,
            CommonError::NoAvailableGrpcConnection(service, cause) => service@
                + " connection pool has no connection information available. "@ + cause@,
            CommonError::ForwardToLeader(leader) => "forward request to "@ + leader@,
        }
    }

    /// Renders the error as text.
    pub fn to_string(&self) -> (s: String)
        ensures
            s@ == self.message(),
    {
        match self {
            CommonError::TokioBroacastSendErrorBool(m) => m.clone(),
            CommonError::FromTonicTransport(m) => m.clone(),
            CommonError::FromErrorKind(m) => m.clone(),
            CommonError::FromDecodeError(m) => m.clone(),
            CommonError::FromSerdeJsonError(m) => m.clone(),
            CommonError::FromRocksdbError(m) => m.clone(),
            CommonError::SchemaError(m) => m.clone(),
            CommonError::FromIoError(m) => m.clone(),
            CommonError::FromUtf8Error(m) => m.clone(),
            CommonError::FromAddrParseError(m) => m.clone(),
            CommonError::ApacheAvroError(m) => m.clone(),
            CommonError::FromParseIntError(m) => m.clone(),
            CommonError::CommonError(m) => m.clone(),
            CommonError::GrpcServerStatus(m) => m.clone(),
            CommonError::NoAvailableGrpcConnection(service, cause) => concat3(
                service.as_str(),
                " connection pool has no connection information available. ",
                cause.as_str(),
            ),
            CommonError::ForwardToLeader(leader) => concat2(
                "forward request to ",
                leader.as_str(),
            ),
        }
    }
}

/// Failures of the storage layer of the placement service.
#[derive(Debug)]
pub enum NezaMQError {
    CommonError(String),
    /// An input or output failure, with its message.
    IOJsonError(String),
    /// The namespace asked for is not one that the engine serves.
    ClusterNoAvailableNode,
}

impl NezaMQError {
    /// The text of the error.
    pub open spec fn message(self) -> Seq<char> {
        match self {
            NezaMQError::CommonError(m) => m@,
            NezaMQError::IOJsonError(_) => "io error"@,
            NezaMQError::ClusterNoAvailableNode => "No node available in the cluster"@,
        }
    }

    /// Renders the error as text.
    pub fn to_string(&self) -> (s: String)
        ensures
            s@ == self.message(),
    {
        match self {
            NezaMQError::CommonError(m) => m.clone(),
            NezaMQError::IOJsonError(_) => String::from_str("io error"),
            NezaMQError::ClusterNoAvailableNode => String::from_str(
                "No node available in the cluster",
            ),
        }
    }
}

} // verus!
