//! What the front ends of a placement node are made of.

pub mod grpc;
pub mod http;
