//! Commands that the IPC service hands to the request processor.

use vstd::prelude::*;

verus! {

/// Enum with commands from the IPC. A path is held as the bytes of the
/// Unix path.
#[derive(Clone, Debug)]
pub enum IpcCommand {
    /// Add folder for watching
    WatchFolder { path: Vec<u8> },
    /// Remove folder for watching
    UnwatchFolder { path: Vec<u8> },
}

} // verus!
