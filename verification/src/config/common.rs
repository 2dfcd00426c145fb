//! Configuration shared by the services.

use vstd::prelude::*;

verus! {

/// Where a service keeps its data.
#[derive(Debug, Clone, Default, PartialEq, Eq)]
pub struct Storage {
    pub storage_type: String,
    pub journal_addr: String,
    pub mysql_addr: String,
    pub rocksdb_data_path: String,
    pub rocksdb_max_open_files: Option<i32>,
}

/// How a service reports its metrics.
#[derive(Debug, Clone, Default)]
pub struct Prometheus {
    pub enable: bool,
    pub model: String,
    pub port: u32,
    pub push_gateway_server: String,
    pub interval: u32,
    pub header: String,
}

/// Where a service keeps its credentials.
#[derive(Debug, Clone, Default, PartialEq, Eq)]
pub struct Auth {
    pub storage_type: String,
    pub journal_addr: String,
    pub mysql_addr: String,
}

/// Where the logging configuration lies and where the logs go.
#[derive(Debug, Clone, Default, PartialEq, Eq)]
pub struct Log {
    pub log_config: String,
    pub log_path: String,
}

/// Whether and where traces are exported.
#[derive(Debug, Clone, Default, PartialEq, Eq)]
pub struct Telemetry {
    pub enable: bool,
    pub exporter_type: String,
    pub exporter_endpoint: String,
}

/// Metrics are off, and would be pulled every ten seconds from the default
/// port.
pub fn default_prometheus() -> (p: Prometheus)
    ensures
        !p.enable,
        p.model@ == "pull"@,
        p.port == 9090,
        p.push_gateway_server@ == ""@,
        p.interval == 10,
        p.header@ == ""@,
{
    Prometheus {
        enable: false,
        model: String::from_str("pull"),
        port: default_prometheus_port(),
        push_gateway_server: String::from_str(""),
        interval: 10,
        header: String::from_str(""),
    }
}

pub fn default_prometheus_port() -> (port: u32)
    ensures
        port == 9090,
{
    9090
}

} // verus!
