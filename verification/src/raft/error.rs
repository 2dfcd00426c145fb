//! The errors that the stores hand to the consensus driver.

use vstd::prelude::*;
use crate::base::error::NezaMQError;
use crate::raft::types::LogId;

verus! {

/// What a storage operation was about.
#[derive(Debug, Clone, Copy, PartialEq, Eq, Structural)]
pub enum ErrorSubject {
    /// The store as a whole, or its control records.
    Store,
    /// The vote.
    Vote,
    /// The log.
    Logs,
    /// One log entry.
    Log(LogId),
    /// A snapshot.
    Snapshot,
    /// The state machine.
    StateMachine,
}

/// What a storage operation did.
#[derive(Debug, Clone, Copy, PartialEq, Eq, Structural)]
pub enum ErrorVerb {
    Read,
    Write,
    Seek,
    Delete,
}

/// A failed storage operation: what it was about, what it did, and why it
/// failed.
#[derive(Debug)]
pub struct StorageError {
    pub subject: ErrorSubject,
    pub verb: ErrorVerb,
    pub source: String,
}

/// What a storage operation returns.
pub type StorageResult<T> = Result<T, StorageError>;

impl StorageError {
    pub fn new(subject: ErrorSubject, verb: ErrorVerb, source: String) -> (e: Self)
        ensures
            e.subject == subject,
            e.verb == verb,
            e.source == source,
    {
        StorageError { subject, verb, source }
    }

    /// A failed read of the store.
    pub fn read(source: String) -> (e: Self)
        ensures
            e.subject == ErrorSubject::Store,
            e.verb == ErrorVerb::Read,
            e.source == source,
    {
        StorageError { subject: ErrorSubject::Store, verb: ErrorVerb::Read, source }
    }

    /// A failed write to the store.
    pub fn write(source: String) -> (e: Self)
        ensures
            e.subject == ErrorSubject::Store,
            e.verb == ErrorVerb::Write,
            e.source == source,
    {
        StorageError { subject: ErrorSubject::Store, verb: ErrorVerb::Write, source }
    }

    /// A failed read of the log.
    pub fn read_logs(source: String) -> (e: Self)
        ensures
            e.subject == ErrorSubject::Logs,
            e.verb == ErrorVerb::Read,
            e.source == source,
    {
        StorageError { subject: ErrorSubject::Logs, verb: ErrorVerb::Read, source }
    }

    /// A failed write to the log.
    pub fn write_logs(source: String) -> (e: Self)
        ensures
            e.subject == ErrorSubject::Logs,
            e.verb == ErrorVerb::Write,
            e.source == source,
    {
        StorageError { subject: ErrorSubject::Logs, verb: ErrorVerb::Write, source }
    }

    /// A failed read of the vote.
    pub fn read_vote(source: String) -> (e: Self)
        ensures
            e.subject == ErrorSubject::Vote,
            e.verb == ErrorVerb::Read,
            e.source == source,
    {
        StorageError { subject: ErrorSubject::Vote, verb: ErrorVerb::Read, source }
    }

    /// A failed write of the vote.
    pub fn write_vote(source: String) -> (e: Self)
        ensures
            e.subject == ErrorSubject::Vote,
            e.verb == ErrorVerb::Write,
            e.source == source,
    {
        StorageError { subject: ErrorSubject::Vote, verb: ErrorVerb::Write, source }
    }

    /// A failed read of a snapshot.
    pub fn read_snapshot(source: String) -> (e: Self)
        ensures
            e.subject == ErrorSubject::Snapshot,
            e.verb == ErrorVerb::Read,
            e.source == source,
    {
        StorageError { subject: ErrorSubject::Snapshot, verb: ErrorVerb::Read, source }
    }

    /// A failed write of a snapshot.
    pub fn write_snapshot(source: String) -> (e: Self)
        ensures
            e.subject == ErrorSubject::Snapshot,
            e.verb == ErrorVerb::Write,
            e.source == source,
    {
        StorageError { subject: ErrorSubject::Snapshot, verb: ErrorVerb::Write, source }
    }

    /// A failure of the state machine while it applied an entry or took in
    /// a snapshot.
    pub fn state_machine(verb: ErrorVerb, source: String) -> (e: Self)
        ensures
            e.subject == ErrorSubject::StateMachine,
            e.verb == verb,
            e.source == source,
    {
        StorageError { subject: ErrorSubject::StateMachine, verb, source }
    }
}

/// Why a call to a peer failed.
#[derive(Debug)]
pub enum RPCError {
    /// The peer could not be reached; the cause, as text.
    Unreachable(String),
}

/// The failure of a call to a peer, made from a failure of this node.
pub fn to_error(e: NezaMQError) -> (r: RPCError)
    ensures
        r is Unreachable,
        r->Unreachable_0@ == e.message(),
{
    RPCError::Unreachable(e.to_string())
}

} // verus!
