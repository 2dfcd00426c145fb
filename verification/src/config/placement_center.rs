//! The configuration of a placement node.

use vstd::prelude::*;
use toml::Table;
use crate::config::common::Log;

verus! {

/// `toml::map::Map`, the table of a configuration file, as a value that is
/// carried about. What it holds is known by the name that follows.
#[verifier::external_type_specification]
#[verifier::external_body]
#[verifier::reject_recursive_types(K)]
#[verifier::reject_recursive_types(V)]
pub struct ExTomlMap<K, V>(toml::map::Map<K, V>);

/// `toml::Value`, a value of a configuration file, as it stands in a table.
#[verifier::external_type_specification]
#[verifier::external_body]
pub struct ExTomlValue(toml::Value);

/// The entries of a table whose values are text: key to text.
pub uninterp spec fn table_texts(table: toml::map::Map<String, toml::Value>) -> Map<
    Seq<char>,
    Seq<char>,
>;

/// The map from text to text without entries.
pub open spec fn no_entries() -> Map<Seq<char>, Seq<char>> {
    Map::empty()
}

/// `Map::new`: the new table has no entries.
#[verifier::external_body]
pub(crate) fn table_new() -> (table: Table)
    ensures
        table_texts(table) == no_entries(),
{
    Table::new()
}

/// `Map::insert` with a text value: afterwards `key` maps to `value`, and
/// every other key is as before.
#[verifier::external_body]
pub(crate) fn table_insert_text(table: &mut Table, key: String, value: String)
    ensures
        table_texts(*final(table)) == table_texts(*old(table)).insert(key@, value@),
{
    table.insert(key, toml::Value::String(value));
}

/// The whole configuration.
#[derive(Debug)]
pub struct PlacementCenterConfig {
    pub cluster_name: String,
    pub node: Node,
    pub network: Network,
    pub system: System,
    pub heartbeat: Heartbeat,
    pub rocksdb: Rocksdb,
    pub log: Log,
}

/// This node and its peers: node id to address.
#[derive(Debug)]
pub struct Node {
    pub node_id: u64,
    pub nodes: Table,
}

/// Where the node listens.
#[derive(Debug, Clone, Default, PartialEq, Eq)]
pub struct Network {
    pub local_id: String,
    pub grpc_port: u32,
    pub http_port: u32,
}

/// How the node runs.
#[derive(Debug, Clone, Default, PartialEq, Eq)]
pub struct System {
    pub runtime_work_threads: usize,
}

/// When a peer counts as lost.
#[derive(Debug, Clone, Default, PartialEq, Eq)]
pub struct Heartbeat {
    pub hearbeat_timeout_ms: u64,
    pub heartbeat_check_time_ms: u64,
}

/// Where the engine keeps its files.
#[derive(Debug, Clone, Default, PartialEq, Eq)]
pub struct Rocksdb {
    pub data_path: String,
    pub max_open_files: Option<i32>,
}

} // verus!
