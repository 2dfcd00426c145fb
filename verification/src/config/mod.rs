//! The configuration of a placement node, and what it is where the
//! configuration file is silent.

pub mod common;
pub mod default_placement_center;
pub mod env_override;
pub mod placement_center;
