//! The IPC service: turns pipe messages into commands for the request
//! processor and answers each message.

use vstd::prelude::*;

pub use crate::ipc::command_channel::IpcService;
use crate::ipc::command_channel::send_command;
use crate::ipc::ipc_command::IpcCommand;
use crate::protos::pipe::pipe_message::Message;
use crate::protos::pipe::{GenericResponse, PipeMessage, UnwatchProject, WatchProject};

verus! {

/// Why a pipe request could not be handed on.
#[derive(Clone, Copy, Debug, PartialEq, Eq, Structural)]
pub enum IpcError {
    /// No request processor listens on the channel.
    ChannelClosed,
}

/// The text and success flag of the answer to a pipe message: `None` when
/// the message carried no request, else whether its command was handed on.
pub open spec fn response_spec(delivered: Option<bool>) -> (bool, Seq<char>) {
    match delivered {
        None => (false, "Message is missing"@),
        Some(true) => (true, "Message received"@),
        Some(false) => (false, "Message can't be processed"@),
    }
}

/// The answer to a pipe message: `None` when the message carried no request,
/// else whether its command was handed on.
pub fn response_for(delivered: Option<bool>) -> (r: GenericResponse)
    ensures
        r.view_pair() == response_spec(delivered),
{
    match delivered {
        None => GenericResponse {
            success: false,
            response_message: String::from_str("Message is missing"),
        },
        Some(true) => GenericResponse {
            success: true,
            response_message: String::from_str("Message received"),
        },
        Some(false) => GenericResponse {
            success: false,
            response_message: String::from_str("Message can't be processed"),
        },
    }
}

/// The command that a request to watch a project stands for.
pub fn watch_command(project: WatchProject) -> (r: IpcCommand)
    ensures
        r == (IpcCommand::WatchFolder { path: project.project_path }),
{
    IpcCommand::WatchFolder { path: project.project_path }
}

/// The command that a request to stop watching a project stands for.
pub fn unwatch_command(project: UnwatchProject) -> (r: IpcCommand)
    ensures
        r == (IpcCommand::UnwatchFolder { path: project.project_path }),
{
    IpcCommand::UnwatchFolder { path: project.project_path }
}

/// What handing a command on comes to: success when the channel took it,
/// `ChannelClosed` when it gave the command back.
pub fn send_outcome(sent: Result<usize, IpcCommand>) -> (r: Result<(), IpcError>)
    ensures
        r == (if sent is Ok { Ok::<(), IpcError>(()) } else { Err(IpcError::ChannelClosed) }),
{
    match sent {
        Ok(_) => Ok(()),
        Err(_) => Err(IpcError::ChannelClosed),
    }
}

/// The command that a pipe message asks to hand on, if it carries a request.
pub open spec fn command_of(msg: PipeMessage) -> Option<IpcCommand> {
    match msg.message {
        Some(Message::ProjectToAdd(p)) => Some(IpcCommand::WatchFolder { path: p.project_path }),
        Some(Message::ProjectToRemove(p)) => Some(IpcCommand::UnwatchFolder { path: p.project_path }),
        None => None,
    }
}

/// The command that a pipe message asks to hand on, if it carries a request.
pub fn command_for(msg: PipeMessage) -> (r: Option<IpcCommand>)
    ensures
        r == command_of(msg),
{
    match msg.message {
        Some(Message::ProjectToAdd(watch_project)) => Some(watch_command(watch_project)),
        Some(Message::ProjectToRemove(unwatch_project)) => Some(unwatch_command(unwatch_project)),
        None => None,
    }
}

impl IpcService {
    /// Hands on the command to watch the project's folder: succeeds exactly
    /// when the channel takes it.
    pub fn handle_watch_project(&mut self, project: WatchProject) -> (r: Result<(), IpcError>)
        ensures
            final(self).sender() == old(self).sender(),
            final(self).handed_on() == old(self).handed_on().push(
                (IpcCommand::WatchFolder { path: project.project_path }, r is Ok),
            ),
    {
        send_outcome(send_command(self, watch_command(project)))
    }

    /// Hands on the command to stop watching the project's folder: succeeds
    /// exactly when the channel takes it.
    pub fn handle_unwatch_project(&mut self, project: UnwatchProject) -> (r: Result<(), IpcError>)
        ensures
            final(self).sender() == old(self).sender(),
            final(self).handed_on() == old(self).handed_on().push(
                (IpcCommand::UnwatchFolder { path: project.project_path }, r is Ok),
            ),
    {
        send_outcome(send_command(self, unwatch_command(project)))
    }

    /// Acts on a pipe message and builds the answer to it: a message without a
    /// request hands nothing on and is refused; otherwise exactly the
    /// request's command is handed on, and the answer reports success exactly
    /// when the channel took it.
    pub fn handle_message(&mut self, msg: PipeMessage) -> (r: GenericResponse)
        ensures
            final(self).sender() == old(self).sender(),
            match command_of(msg) {
                None => final(self).handed_on() == old(self).handed_on()
                    && r.view_pair() == response_spec(None),
                Some(c) => {
                    let taken = final(self).handed_on().last().1;
                    &&& final(self).handed_on() == old(self).handed_on().push((c, taken))
                    &&& r.view_pair() == response_spec(Some(taken))
                },
            },
    {
        match command_for(msg) {
            Some(command) => {
                let taken = send_outcome(send_command(self, command)).is_ok();
                response_for(Some(taken))
            },
            None => response_for(None),
        }
    }
}

/// The answer to a pipe message reports success exactly when the message
/// carried a request whose command was handed on.
pub proof fn law_response_success(delivered: Option<bool>)
    ensures
        response_spec(delivered).0 <==> delivered == Some(true),
{
}

} // verus!
