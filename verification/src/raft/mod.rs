//! What the consensus driver persists: the log, the vote, the commit
//! watermark and the snapshots, and the records they are made of.

pub mod codec;
pub mod envelope;
pub mod error;
pub mod index_key;
pub mod log_model;
pub mod log_store;
pub mod state_machine_store;
pub mod types;
