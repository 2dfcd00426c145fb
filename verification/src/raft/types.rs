//! The records of the consensus layer.

use vstd::prelude::*;
use crate::base::text::{concat3, decimal, u64_to_string};

verus! {

/// The identifier of a node.
pub type NodeId = u64;

/// Who led: the term and the node.
#[derive(Debug, Clone, Copy, PartialEq, Eq, Structural)]
pub struct LeaderId {
    pub term: u64,
    pub node_id: u64,
}

/// The identity of a log entry: the leader that proposed it and its index.
#[derive(Debug, Clone, Copy, PartialEq, Eq, Structural)]
pub struct LogId {
    pub leader_id: LeaderId,
    pub index: u64,
}

/// A vote: for which leader, and whether that leader is established.
#[derive(Debug, Clone, Copy, PartialEq, Eq, Structural)]
pub struct Vote {
    pub leader_id: LeaderId,
    pub committed: bool,
}

/// Where the log stands.
#[derive(Debug, Clone, Copy, PartialEq, Eq)]
pub struct LogState {
    /// The last entry removed by compaction, if any was.
    pub last_purged_log_id: Option<LogId>,
    /// The last entry of the log; the last purged one where the log is empty.
    pub last_log_id: Option<LogId>,
}

/// A log entry as contracts see it.
pub struct EntryView {
    pub log_id: LogId,
    pub payload: Seq<u8>,
}

/// A log entry: its identity and an opaque payload.
#[derive(Debug, PartialEq, Eq)]
pub struct Entry {
    pub log_id: LogId,
    pub payload: Vec<u8>,
}

impl View for Entry {
    type V = EntryView;

    open spec fn view(&self) -> EntryView {
        EntryView { log_id: self.log_id, payload: self.payload@ }
    }
}

impl Clone for Entry {
    fn clone(&self) -> (r: Self)
        ensures
            r@ == self@,
    {
        Entry { log_id: self.log_id, payload: self.payload.clone() }
    }
}

/// The views of a list of entries.
pub open spec fn entry_views(entries: Seq<Entry>) -> Seq<EntryView> {
    entries.map_values(|e: Entry| e@)
}

/// A membership as contracts see it.
pub struct MembershipView {
    pub log_id: Option<LogId>,
    pub voters: Seq<u64>,
}

/// The members of the cluster, and the log entry that made them so.
#[derive(Debug, PartialEq, Eq)]
pub struct StoredMembership {
    pub log_id: Option<LogId>,
    pub voters: Vec<u64>,
}

impl View for StoredMembership {
    type V = MembershipView;

    open spec fn view(&self) -> MembershipView {
        MembershipView { log_id: self.log_id, voters: self.voters@ }
    }
}

impl Clone for StoredMembership {
    fn clone(&self) -> (r: Self)
        ensures
            r@ == self@,
    {
        StoredMembership { log_id: self.log_id, voters: self.voters.clone() }
    }
}

impl Default for StoredMembership {
    /// The empty membership.
    fn default() -> (m: Self)
        ensures
            m@ == (MembershipView { log_id: None, voters: Seq::empty() }),
    {
        StoredMembership { log_id: None, voters: Vec::new() }
    }
}

/// The description of a snapshot as contracts see it.
pub struct SnapshotMetaView {
    pub last_log_id: Option<LogId>,
    pub last_membership: MembershipView,
    pub snapshot_id: Seq<char>,
}

/// The description of a snapshot: the last entry it includes, the
/// membership at that point, and its id.
#[derive(Debug, PartialEq, Eq)]
pub struct SnapshotMeta {
    pub last_log_id: Option<LogId>,
    pub last_membership: StoredMembership,
    pub snapshot_id: String,
}

impl View for SnapshotMeta {
    type V = SnapshotMetaView;

    open spec fn view(&self) -> SnapshotMetaView {
        SnapshotMetaView {
            last_log_id: self.last_log_id,
            last_membership: self.last_membership@,
            snapshot_id: self.snapshot_id@,
        }
    }
}

impl Clone for SnapshotMeta {
    fn clone(&self) -> (r: Self)
        ensures
            r@ == self@,
    {
        SnapshotMeta {
            last_log_id: self.last_log_id,
            last_membership: self.last_membership.clone(),
            snapshot_id: self.snapshot_id.clone(),
        }
    }
}

/// A snapshot as contracts see it.
pub struct SnapshotView {
    pub meta: SnapshotMetaView,
    pub data: Seq<u8>,
}

/// A snapshot as it is handed to the consensus driver.
#[derive(Debug, PartialEq, Eq)]
pub struct Snapshot {
    pub meta: SnapshotMeta,
    pub snapshot: Vec<u8>,
}

impl View for Snapshot {
    type V = SnapshotView;

    open spec fn view(&self) -> SnapshotView {
        SnapshotView { meta: self.meta@, data: self.snapshot@ }
    }
}

/// A snapshot as it is stored.
#[derive(Debug, PartialEq, Eq)]
pub struct StoredSnapshot {
    pub meta: SnapshotMeta,
    /// The application state, serialized.
    pub data: Vec<u8>,
}

impl View for StoredSnapshot {
    type V = SnapshotView;

    open spec fn view(&self) -> SnapshotView {
        SnapshotView { meta: self.meta@, data: self.data@ }
    }
}

/// A node of the cluster.
#[derive(Debug, Clone, PartialEq, Eq, Default)]
pub struct Node {
    pub node_id: u64,
    pub rpc_addr: String,
}

impl Node {
    /// The node as text, as it appears in a forwarding notice.
    pub open spec fn text(self) -> Seq<char> {
        "Node {rpc_addr: "@ + self.rpc_addr@ + ",node_id: "@ + decimal(self.node_id as nat) + " }"@
    }

    /// Renders the node as text.
    pub fn to_string(&self) -> (s: String)
        ensures
            s@ == self.text(),
    {
        let id: String = u64_to_string(self.node_id);
        let mut s: String = concat3("Node {rpc_addr: ", self.rpc_addr.as_str(), ",node_id: ");
        s.append(id.as_str());
        s.append(" }");
        s
    }
}

/// What the application answers to an applied entry.
#[derive(Debug, Clone, PartialEq, Eq)]
pub struct AppResponseData {
    pub value: Option<Vec<u8>>,
}

} // verus!
