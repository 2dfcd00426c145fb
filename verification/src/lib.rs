//! Consensus persistence and peer-call routing for a placement service:
//! an ordered key/value engine, the Raft log and state-machine stores built
//! on it, and the leader-aware retry protocol used to reach peers.

pub mod base;
pub mod clients;
pub mod config;
pub mod raft;
pub mod route;
pub mod server;
pub mod storage;
