//! The body of a pipe message.

use vstd::prelude::*;
use crate::protos::pipe::{UnwatchProject, WatchProject};

verus! {

/// What a pipe message asks for.
pub enum Message {
    ProjectToAdd(WatchProject),
    ProjectToRemove(UnwatchProject),
}

} // verus!
