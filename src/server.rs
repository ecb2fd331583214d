//! The accept state machine of the listening socket. The socket type is the
//! caller's: this machine only holds an accepted socket until it is handed on.
use vstd::prelude::*;

verus! {

pub enum ServerStates<S> {
    Waiting,
    /// A connection was accepted and waits to be handed to the reactor.
    Accepting(S),
    /// The listener failed and is to be retired.
    Close,
    Closed,
}

/// The outcome of one `accept` on the listener.
pub enum AcceptOutcome<S> {
    Accepted(S),
    WouldBlock,
    Failed,
}

/// What a `poll` turn asks of the caller.
pub enum ServerAction<S> {
    /// Make a connection of this socket, hand it to `add_new_connection`, and
    /// schedule the listener again to drain further pending accepts.
    Install(S),
    /// Deregister the listener and retire it.
    Retire,
    /// Nothing to do.
    Nothing,
}

pub struct AsyncTcpCommandServer<S> {
    fd: usize,
    state: Option<ServerStates<S>>,
}

impl<S> AsyncTcpCommandServer<S> {
    pub closed spec fn spec_fd(&self) -> usize {
        self.fd
    }

    pub closed spec fn spec_state(&self) -> Option<ServerStates<S>> {
        self.state
    }

    pub fn new(fd: usize) -> (r: Self)
        ensures
            r.spec_fd() == fd,
            r.spec_state().is_none(),
    {
        AsyncTcpCommandServer { fd, state: None }
    }

    pub fn id(&self) -> (r: usize)
        ensures
            r == self.spec_fd(),
    {
        self.fd
    }

    /// Takes the outcome of the `accept` that a readable event prompted;
    /// returns whether the listener is to be scheduled.
    pub fn handle_event(&mut self, outcome: AcceptOutcome<S>) -> (schedule: bool)
        ensures
            final(self).spec_fd() == old(self).spec_fd(),
            match outcome {
                AcceptOutcome::Accepted(s) => schedule && final(self).spec_state() == Some(
                    ServerStates::Accepting(s),
                ),
                AcceptOutcome::WouldBlock => !schedule && final(self).spec_state() == Some(
                    ServerStates::<S>::Waiting,
                ),
                AcceptOutcome::Failed => schedule && final(self).spec_state() == Some(
                    ServerStates::<S>::Close,
                ),
            },
    {
        match outcome {
            AcceptOutcome::Accepted(s) => {
                self.state = Some(ServerStates::Accepting(s));
                true
            },
            AcceptOutcome::WouldBlock => {
                self.state = Some(ServerStates::Waiting);
                false
            },
            AcceptOutcome::Failed => {
                self.state = Some(ServerStates::Close);
                true
            },
        }
    }

    /// One cooperative turn: hand on an accepted socket, or retire a failed
    /// listener.
    pub fn poll(&mut self) -> (r: ServerAction<S>)
        ensures
            final(self).spec_fd() == old(self).spec_fd(),
            match old(self).spec_state() {
                Some(ServerStates::Accepting(s)) => r == ServerAction::Install(s)
                    && final(self).spec_state() == Some(ServerStates::<S>::Waiting),
                Some(ServerStates::Close) => r == ServerAction::<S>::Retire
                    && final(self).spec_state() == Some(ServerStates::<S>::Closed),
                _ => r == ServerAction::<S>::Nothing && final(self).spec_state() == old(
                    self,
                ).spec_state(),
            },
    {
        match self.state.take() {
            Some(ServerStates::Accepting(s)) => {
                self.state = Some(ServerStates::Waiting);
                ServerAction::Install(s)
            },
            Some(ServerStates::Close) => {
                self.state = Some(ServerStates::Closed);
                ServerAction::Retire
            },
            other => {
                self.state = other;
                ServerAction::Nothing
            },
        }
    }
}

} // verus!
