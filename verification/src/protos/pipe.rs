//! Messages of the pipe schema, exchanged with clients over the IPC socket.

use vstd::prelude::*;

pub mod pipe_message;

verus! {

/// A request to start watching a project folder.
pub struct WatchProject {
    pub project_path: Vec<u8>,
}

/// A request to stop watching a project folder.
pub struct UnwatchProject {
    pub project_path: Vec<u8>,
}

/// A message sent by a client through the pipe.
pub struct PipeMessage {
    pub message: Option<pipe_message::Message>,
}

/// The answer to a pipe message.
pub struct GenericResponse {
    pub success: bool,
    pub response_message: String,
}

impl GenericResponse {
    /// The response as plain values: whether it reports success, and its text.
    pub open spec fn view_pair(&self) -> (bool, Seq<char>) {
        (self.success, self.response_message@)
    }
}

} // verus!
