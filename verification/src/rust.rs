//! The Rust project type, also reachable from the crate root.

pub use crate::project_types::rust::Rust;
