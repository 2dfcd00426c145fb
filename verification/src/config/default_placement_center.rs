//! What the configuration of a placement node is where the file is silent.

use vstd::prelude::*;
use toml::Table;
use crate::base::text::{concat2, decimal, u64_to_string};
use crate::config::common::Log;
use crate::config::placement_center::{
    no_entries, table_insert_text, table_new, table_texts, Heartbeat, Network, Node,
    PlacementCenterConfig, Rocksdb, System,
};

verus! {

pub fn default_cluster_name() -> (name: String)
    ensures
        name@ == "placement-center"@,
{
    String::from_str("placement-center")
}

/// This node is node 1 and its own only peer.
pub fn default_node() -> (node: Node)
    ensures
        node.node_id == 1,
        table_texts(node.nodes) == no_entries().insert(
            decimal(1),
            "127.0.0.1:"@ + decimal(1228),
        ),
{
    Node { node_id: default_node_id(), nodes: default_nodes() }
}

pub fn default_node_id() -> (id: u64)
    ensures
        id == 1,
{
    1
}

/// The peers: the default node at the default port of this machine.
pub fn default_nodes() -> (nodes: Table)
    ensures
        table_texts(nodes) == no_entries().insert(decimal(1), "127.0.0.1:"@ + decimal(1228)),
{
    let mut nodes: Table = table_new();
    let port: String = u64_to_string(default_grpc_port() as u64);
    table_insert_text(
        &mut nodes,
        u64_to_string(default_node_id()),
        concat2("127.0.0.1:", port.as_str()),
    );
    nodes
}

pub fn default_network() -> (network: Network)
    ensures
        network.local_id@ == "127.0.0.1"@,
        network.grpc_port == 1228,
        network.http_port == 1227,
{
    Network {
        local_id: default_local_ip(),
        grpc_port: default_grpc_port(),
        http_port: default_http_port(),
    }
}

pub fn default_local_ip() -> (ip: String)
    ensures
        ip@ == "127.0.0.1"@,
{
    String::from_str("127.0.0.1")
}

pub fn default_grpc_port() -> (port: u32)
    ensures
        port == 1228,
{
    1228
}

pub fn default_http_port() -> (port: u32)
    ensures
        port == 1227,
{
    1227
}

pub fn default_system() -> (system: System)
    ensures
        system.runtime_work_threads == 100,
{
    System { runtime_work_threads: default_runtime_work_threads() }
}

pub fn default_runtime_work_threads() -> (threads: usize)
    ensures
        threads == 100,
{
    100
}

pub fn default_data_path() -> (path: String)
    ensures
        path@ == "./nezamq-data/placement-center/data"@,
{
    String::from_str("./nezamq-data/placement-center/data")
}

pub fn default_log() -> (log: Log)
    ensures
        log.log_config@ == "./logs/placement-center"@,
        log.log_path@ == "./config/log4rs.yaml"@,
{
    Log {
        log_config: String::from_str("./logs/placement-center"),
        log_path: String::from_str("./config/log4rs.yaml"),
    }
}

pub fn default_max_open_files() -> (files: Option<i32>)
    ensures
        files == Some(10000i32),
{
    Some(10000_i32)
}

pub fn default_rocksdb() -> (rocksdb: Rocksdb)
    ensures
        rocksdb.data_path@ == "./nezamq-data/placement-center/data"@,
        rocksdb.max_open_files == Some(10000i32),
{
    Rocksdb { data_path: default_data_path(), max_open_files: default_max_open_files() }
}

pub fn default_heartbeat() -> (heartbeat: Heartbeat)
    ensures
        heartbeat.hearbeat_timeout_ms == 3000,
        heartbeat.heartbeat_check_time_ms == 1000,
{
    Heartbeat {
        hearbeat_timeout_ms: default_hearbeat_timeout_ms(),
        heartbeat_check_time_ms: default_heartbeat_check_time_ms(),
    }
}

pub fn default_hearbeat_timeout_ms() -> (ms: u64)
    ensures
        ms == 3000,
{
    3000
}

pub fn default_heartbeat_check_time_ms() -> (ms: u64)
    ensures
        ms == 1000,
{
    1000
}

/// The configuration of a node whose file is silent on everything.
pub fn default_placement_center_conf() -> (conf: PlacementCenterConfig)
    ensures
        conf.cluster_name@ == "placement-center"@,
        conf.node.node_id == 1,
        conf.network.grpc_port == 1228,
        conf.network.http_port == 1227,
        conf.system.runtime_work_threads == 100,
        conf.heartbeat.hearbeat_timeout_ms == 3000,
        conf.heartbeat.heartbeat_check_time_ms == 1000,
        conf.rocksdb.max_open_files == Some(10000i32),
{
    PlacementCenterConfig {
        cluster_name: default_cluster_name(),
        node: default_node(),
        network: default_network(),
        system: default_system(),
        heartbeat: default_heartbeat(),
        rocksdb: default_rocksdb(),
        log: default_log(),
    }
}

} // verus!
