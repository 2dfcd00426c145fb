//! The keys under which the application and the consensus layer keep their
//! rows.

use vstd::prelude::*;
use crate::base::text::{concat2, decimal, u64_to_string};

verus! {

pub fn key_name_by_first_index() -> (key: String)
    ensures
        key@ == "/raft/first_index"@,
{
    String::from_str("/raft/first_index")
}

pub fn key_name_by_last_index() -> (key: String)
    ensures
        key@ == "/raft/last_index"@,
{
    String::from_str("/raft/last_index")
}

pub fn key_name_by_hard_state() -> (key: String)
    ensures
        key@ == "/raft/hard_state"@,
{
    String::from_str("/raft/hard_state")
}

pub fn key_name_by_conf_state() -> (key: String)
    ensures
        key@ == "/raft/conf_state"@,
{
    String::from_str("/raft/conf_state")
}

/// The key of the log entry with index `idx`.
pub fn key_name_by_entry(idx: u64) -> (key: String)
    ensures
        key@ == "/raft/entry/"@ + decimal(idx as nat),
{
    let digits: String = u64_to_string(idx);
    concat2("/raft/entry/", digits.as_str())
}

pub fn key_name_uncommit() -> (key: String)
    ensures
        key@ == "/raft/uncommit_index"@,
{
    String::from_str("/raft/uncommit_index")
}

pub fn key_name_snapshot() -> (key: String)
    ensures
        key@ == "/raft/snapshot"@,
{
    String::from_str("/raft/snapshot")
}

/// The key of a user of a cluster.
pub fn storage_key_mqtt_user(cluster_name: &String, user_name: &String) -> (key: String)
    ensures
        key@ == "/mqtt/user/"@ + cluster_name@ + "/"@ + user_name@,
{
    let mut key: String = concat2("/mqtt/user/", cluster_name.as_str());
    key.append("/");
    key.append(user_name.as_str());
    key
}

/// The prefix of the keys of the users of a cluster.
pub fn storage_key_mqtt_user_cluster_prefix(cluster_name: &String) -> (key: String)
    ensures
        key@ == "/mqtt/user/"@ + cluster_name@,
{
    concat2("/mqtt/user/", cluster_name.as_str())
}

/// The key of a topic of a cluster.
pub fn storage_key_mqtt_topic(cluster_name: &String, user_name: &String) -> (key: String)
    ensures
        key@ == "/mqtt/topic/"@ + cluster_name@ + "/"@ + user_name@,
{
    let mut key: String = concat2("/mqtt/topic/", cluster_name.as_str());
    key.append("/");
    key.append(user_name.as_str());
    key
}

/// The prefix of the keys of the topics of a cluster.
pub fn storage_key_mqtt_topic_prefix(cluster_name: &String) -> (key: String)
    ensures
        key@ == "/mqtt/topic/"@ + cluster_name@,
{
    concat2("/mqtt/topic/", cluster_name.as_str())
}

/// The key of a user starts with the prefix of its cluster, so that a scan
/// by the prefix finds it.
pub proof fn lemma_user_key_has_cluster_prefix(cluster_name: Seq<char>, user_name: Seq<char>)
    ensures
        ("/mqtt/user/"@ + cluster_name + "/"@ + user_name).subrange(
            0,
            ("/mqtt/user/"@ + cluster_name).len() as int,
        ) == "/mqtt/user/"@ + cluster_name,
{
    assert(("/mqtt/user/"@ + cluster_name + "/"@ + user_name).subrange(
        0,
        ("/mqtt/user/"@ + cluster_name).len() as int,
    ) =~= "/mqtt/user/"@ + cluster_name);
}

/// The key of a topic starts with the prefix of its cluster.
pub proof fn lemma_topic_key_has_cluster_prefix(cluster_name: Seq<char>, user_name: Seq<char>)
    ensures
        ("/mqtt/topic/"@ + cluster_name + "/"@ + user_name).subrange(
            0,
            ("/mqtt/topic/"@ + cluster_name).len() as int,
        ) == "/mqtt/topic/"@ + cluster_name,
{
    assert(("/mqtt/topic/"@ + cluster_name + "/"@ + user_name).subrange(
        0,
        ("/mqtt/topic/"@ + cluster_name).len() as int,
    ) =~= "/mqtt/topic/"@ + cluster_name);
}

} // verus!
