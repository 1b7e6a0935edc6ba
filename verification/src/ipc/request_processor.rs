//! Decisions of the request processor on commands from the IPC service: which
//! project a watch request adds and which path an unwatch request removes.

use vstd::prelude::*;
use vstd::utf8::*;

use crate::db::database::law_uncache_undoes_cache;
use crate::ipc::ipc_command::IpcCommand;
use crate::paths::{file_stem, file_stem_of};
use crate::text::utf8_to_string;

verus! {

/// Why a command could not be acted on.
#[derive(Clone, Copy, Debug, PartialEq, Eq, Structural)]
pub enum RequestError {
    /// The path has no file stem to name the project by.
    NoFileStem,
    /// The file stem is not valid UTF-8.
    StemNotUnicode,
    /// The path is not valid UTF-8.
    PathNotUnicode,
}

/// What the request processor does for a command.
#[derive(Debug)]
pub enum ProjectAction {
    /// Record a new project with this name and path, then create its repository.
    Insert { name: String, path: String },
    /// Remove the project recorded at this path.
    Remove { path: String },
}

/// The project name and path that watching the folder at `path` records.
pub open spec fn watch_outcome(path: Seq<u8>) -> Result<(Seq<char>, Seq<char>), RequestError> {
    match file_stem_of(path) {
        None => Err(RequestError::NoFileStem),
        Some(stem) => if !valid_utf8(stem) {
            Err(RequestError::StemNotUnicode)
        } else if !valid_utf8(path) {
            Err(RequestError::PathNotUnicode)
        } else {
            Ok((decode_utf8(stem), decode_utf8(path)))
        },
    }
}

/// The project path that unwatching the folder at `path` removes.
pub open spec fn unwatch_outcome(path: Seq<u8>) -> Result<Seq<char>, RequestError> {
    if valid_utf8(path) {
        Ok(decode_utf8(path))
    } else {
        Err(RequestError::PathNotUnicode)
    }
}

/// The name (the folder's file stem) and the path under which a watched folder
/// is recorded.
pub fn watch_folder_request(path: &[u8]) -> (r: Result<(String, String), RequestError>)
    ensures
        match r {
            Ok((name, p)) => watch_outcome(path@) == Ok::<(Seq<char>, Seq<char>), RequestError>((name@, p@)),
            Err(e) => watch_outcome(path@) == Err::<(Seq<char>, Seq<char>), RequestError>(e),
        },
{
    let stem = match file_stem(path) {
        Some(stem) => stem,
        None => return Err(RequestError::NoFileStem),
    };
    let name = match utf8_to_string(stem.as_slice()) {
        Some(name) => name,
        None => return Err(RequestError::StemNotUnicode),
    };
    let path_str = match utf8_to_string(path) {
        Some(p) => p,
        None => return Err(RequestError::PathNotUnicode),
    };
    Ok((name, path_str))
}

/// The path under which an unwatched folder is looked up.
pub fn unwatch_folder_request(path: &[u8]) -> (r: Result<String, RequestError>)
    ensures
        match r {
            Ok(p) => unwatch_outcome(path@) == Ok::<Seq<char>, RequestError>(p@),
            Err(e) => unwatch_outcome(path@) == Err::<Seq<char>, RequestError>(e),
        },
{
    match utf8_to_string(path) {
        Some(p) => Ok(p),
        None => Err(RequestError::PathNotUnicode),
    }
}

/// The action for a command received from the IPC service.
pub fn plan_command(command: &IpcCommand) -> (r: Result<ProjectAction, RequestError>)
    ensures
        match command {
            IpcCommand::WatchFolder { path } => match r {
                Ok(ProjectAction::Insert { name, path: p }) =>
                    watch_outcome(path@) == Ok::<(Seq<char>, Seq<char>), RequestError>((name@, p@)),
                Ok(ProjectAction::Remove { .. }) => false,
                Err(e) => watch_outcome(path@) == Err::<(Seq<char>, Seq<char>), RequestError>(e),
            },
            IpcCommand::UnwatchFolder { path } => match r {
                Ok(ProjectAction::Remove { path: p }) =>
                    unwatch_outcome(path@) == Ok::<Seq<char>, RequestError>(p@),
                Ok(ProjectAction::Insert { .. }) => false,
                Err(e) => unwatch_outcome(path@) == Err::<Seq<char>, RequestError>(e),
            },
        },
{
    match command {
        IpcCommand::WatchFolder { path } => match watch_folder_request(path.as_slice()) {
            Ok((name, p)) => Ok(ProjectAction::Insert { name, path: p }),
            Err(e) => Err(e),
        },
        IpcCommand::UnwatchFolder { path } => match unwatch_folder_request(path.as_slice()) {
            Ok(p) => Ok(ProjectAction::Remove { path: p }),
            Err(e) => Err(e),
        },
    }
}

/// A folder that was recorded when watched is looked up under the same path
/// when it is unwatched.
pub proof fn law_unwatch_finds_watched_path(path: Seq<u8>)
    ensures
        watch_outcome(path) matches Ok((name, recorded)) ==> unwatch_outcome(path) == Ok::<
            Seq<char>,
            RequestError,
        >(recorded),
{
}

/// Watching a new folder and then unwatching it leaves the cache as it was:
/// the project recorded under a fresh id is found again by its path and
/// uncached under that id.
pub proof fn law_watch_then_unwatch_restores_cache(
    cache: Map<i32, (Seq<char>, Seq<char>)>,
    path: Seq<u8>,
    id: i32,
)
    requires
        !cache.contains_key(id),
        watch_outcome(path) is Ok,
    ensures
        ({
            let (name, recorded) = watch_outcome(path)->Ok_0;
            &&& unwatch_outcome(path) == Ok::<Seq<char>, RequestError>(recorded)
            &&& cache.insert(id, (name, recorded)).remove((id as i64) as i32) == cache
        }),
{
    let (name, recorded) = watch_outcome(path)->Ok_0;
    law_uncache_undoes_cache(cache, id, name, recorded);
}

} // verus!
