//! Types and helpers shared by every component: errors, text, configuration.

pub mod concurrent_map;
pub mod error;
pub mod http_response;
pub mod json;
pub mod text;
pub mod tools;
