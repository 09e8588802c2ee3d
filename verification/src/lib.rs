//! A blockchain node's local view of competing chain extensions ("forks"):
//! a registry that tracks every currently known chain tip and resolves, for
//! each newly validated block, whether it extends an existing tip or starts
//! a new branch. Supporting modules cover the node's log analysis, node
//! configuration building, legacy configuration conversion, explorer query
//! construction and start-up command assembly.

pub mod branch;
pub mod commands;
pub mod config;
pub mod explorer;
pub mod laws;
pub mod legacy;
pub mod logger;
pub mod setup;
pub mod text;
pub mod time;

pub use branch::{BlockRef, Branch, Branches};
