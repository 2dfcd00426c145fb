//! Reaching peers: the client pool with its leader hints, the per-service
//! connectors, and the retry protocol.

pub mod placement;
pub mod pool;
pub mod retry;
