//! The IPC service's hold on the command channel. Its fields are private to
//! this module, so the record of handed-on commands grows only by sending.

use std::sync::Arc;
use tokio::sync::broadcast::error::SendError;
use tokio::sync::broadcast::Sender;
use vstd::prelude::*;

use crate::ipc::ipc_command::IpcCommand;

verus! {

#[verifier::external_type_specification]
#[verifier::external_body]
#[verifier::reject_recursive_types(T)]
pub struct ExBroadcastSender<T>(Sender<T>);

/// Hands a command to the service's broadcast channel with
/// `tokio::sync::broadcast::Sender::send`.
///
/// Trusted: tokio's source returns `Ok` with the number of subscribed
/// receivers, which is then at least one, and otherwise gives the command back
/// in its error. Whether a receiver is subscribed depends on the channel's
/// state at the time of the call, so the contract does not say which of the
/// two comes back. The service's record of handed-on commands gets this
/// command, with whether the channel took it; the channel stays the same.
#[verifier::external_body]
pub(crate) fn send_command(service: &mut IpcService, command: IpcCommand) -> (r: Result<usize, IpcCommand>)
    ensures
        final(service).sender() == old(service).sender(),
        final(service).handed_on() == old(service).handed_on().push((command, r is Ok)),
        r matches Ok(n) ==> n >= 1,
        r matches Err(c) ==> c == command,
{
    match service.tx.send(command) {
        Ok(n) => Ok(n),
        Err(SendError(c)) => Err(c),
    }
}

/// The IPC service; it holds the sending end of the command channel and, as
/// ghost state, a record of the commands it has handed on.
#[derive(Clone)]
pub struct IpcService {
    tx: Arc<Sender<IpcCommand>>,
    handed_on: Ghost<Seq<(IpcCommand, bool)>>,
}

impl IpcService {
    /// The sending end of the command channel.
    pub closed spec fn sender(&self) -> Sender<IpcCommand> {
        *self.tx
    }

    /// Every command handed to the channel so far, in order, each with whether
    /// the channel took it.
    pub closed spec fn handed_on(&self) -> Seq<(IpcCommand, bool)> {
        self.handed_on@
    }

    pub fn new(tx: Sender<IpcCommand>) -> (r: Self)
        ensures
            r.sender() == tx,
            r.handed_on() == Seq::<(IpcCommand, bool)>::empty(),
    {
        IpcService { tx: Arc::new(tx), handed_on: Ghost(Seq::empty()) }
    }
}

} // verus!
