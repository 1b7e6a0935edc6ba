//! Commands for the processor between the threads.

use vstd::prelude::*;

verus! {

/// Enum with commands for processor between the threads.
#[derive(Debug)]
pub enum Command {
    /// Add folder for watching
    AddFolder { path: String },
    /// Change detected in the file system.
    ChangeDetected { paths: Vec<String> },
}

} // verus!
