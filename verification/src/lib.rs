//! Core logic of the warthog version-control service: the project cache,
//! the handling of pipe requests and watcher events, the block deduplication
//! of snapshots and the configuration defaults.

pub mod db;
pub mod generated;
pub mod ipc;
pub mod paths;
pub mod processor;
pub mod protos;
pub mod text;
pub mod utils;
pub mod vcs;
pub mod watcher;
