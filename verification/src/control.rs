//! The command inlet: what a controller may ask of a running machine.

use vstd::prelude::*;
use std::sync::mpsc::{Receiver, TryRecvError};
use crate::machine::Machine;
use crate::model::MachineModel;
use crate::snapshot::{encoded, restored, SnapshotError};

verus! {

/// The receiving end of a channel of the standard library. Nothing is
/// known of what it holds.
#[verifier::external_type_specification]
#[verifier::external_body]
#[verifier::reject_recursive_types(T)]
pub struct ExReceiver<T>(Receiver<T>);

/// Why `try_recv` handed out no message: the channel was empty, or its
/// senders are gone.
#[verifier::external_type_specification]
#[verifier::external_body]
pub struct ExTryRecvError(TryRecvError);

/// `Receiver::try_recv` takes the next message off the channel without
/// waiting. Whether there is one depends on the senders, so nothing is
/// claimed of the result.
pub assume_specification<T>[ Receiver::<T>::try_recv ](rx: &Receiver<T>) -> (r: Result<
    T,
    TryRecvError,
>)
;

/// A request from a controller, carrying the path of the snapshot file.
#[derive(Debug, PartialEq, Eq)]
pub enum Command {
    /// Save the state of the machine to this path.
    SaveState(String),
    /// Replace the state of the machine by the snapshot at this path.
    LoadState(String),
}

/// What the host has to do for a command. The machine touches no file:
/// the host writes and reads the snapshot.
#[derive(Debug, PartialEq, Eq)]
pub enum Request {
    /// No command was waiting.
    Nothing,
    /// Write `blob`, the snapshot of the machine, to `path`.
    Store { path: String, blob: Vec<u8> },
    /// Read the file at `path` and hand its bytes to `load_from_snapshot`.
    Fetch { path: String },
}

/// Whether `request` is the answer of a machine in state `m` to `command`.
pub open spec fn answers(request: Request, m: MachineModel, command: Option<Command>) -> bool {
    match command {
        None => request is Nothing,
        Some(Command::SaveState(p)) => request matches Request::Store { path, blob } && path == p
            && blob@ == encoded(m),
        Some(Command::LoadState(p)) => request matches Request::Fetch { path } && path == p,
    }
}

impl Machine {
    /// Answers one command, or the absence of one. A save is answered with
    /// the snapshot of the state as it is now; a load only names the file,
    /// and takes effect when the host calls `load_from_snapshot`.
    pub fn request_for(&self, command: Option<Command>) -> (request: Request)
        ensures
            answers(request, self@, command),
            self.wf() ==> (request matches Request::Store { path, blob } ==> restored(blob@)
                == Ok::<MachineModel, SnapshotError>(self@)),
    {
        match command {
            None => Request::Nothing,
            Some(Command::SaveState(path)) => {
                let blob: Vec<u8> = self.snapshot();
                Request::Store { path, blob }
            },
            Some(Command::LoadState(path)) => Request::Fetch { path },
        }
    }

    /// One round of waiting for an input byte destined for `register`.
    /// `arrived` is `None` while the read is pending, and else holds what it
    /// gave: a byte, or `None` at the end of the stream. What has arrived is
    /// delivered first; then at most one command is answered, so a snapshot
    /// taken in this round holds the byte, and one taken in an earlier
    /// round does not. The result says whether the wait is over.
    pub fn poll_input(&mut self, register: usize, arrived: Option<Option<u8>>) -> (r: (
        bool,
        Request,
    ))
        requires
            old(self).wf(),
            register < 8,
            arrived is Some ==> old(self)@.count < usize::MAX,
        ensures
            final(self).wf(),
            final(self).inlet() == old(self).inlet(),
            r.0 == arrived is Some,
            final(self)@ == match arrived {
                Some(byte) => old(self)@.deliver(register, byte),
                None => old(self)@,
            },
            r.1 matches Request::Store { path, blob } ==> {
                &&& blob@ == encoded(final(self)@)
                &&& restored(blob@) == Ok::<MachineModel, SnapshotError>(final(self)@)
            },
    {
        let done: bool = match arrived {
            Some(byte) => {
                self.deliver(register, byte);
                true
            },
            None => false,
        };
        let request: Request = self.process_commands();
        (done, request)
    }

    /// Takes at most one command off the inlet, without waiting, and
    /// answers it. An empty inlet, or one whose senders are gone, is
    /// answered with `Nothing`. The state of the machine does not change.
    pub fn process_commands(&self) -> (request: Request)
        ensures
            request matches Request::Store { path, blob } ==> {
                &&& blob@ == encoded(self@)
                &&& self.wf() ==> restored(blob@) == Ok::<MachineModel, SnapshotError>(self@)
            },
    {
        match self.command_receiver.try_recv() {
            Ok(command) => self.request_for(Some(command)),
            Err(_) => self.request_for(None),
        }
    }
}

} // verus!
