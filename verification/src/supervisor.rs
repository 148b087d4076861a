//! The connection supervisor.
//!
//! One connection is served at a time. The supervisor accepts it, runs its
//! read path against its write path, and ends it as soon as either path
//! fails: the other path is cancelled, the transport is aborted and flushed,
//! and what is left unread is drained, so that nothing of a broken frame
//! reaches the next connection. Then it accepts again. The supervisor itself
//! neither reads nor writes: it is handed what happened and says what to do.

use vstd::prelude::*;
use crate::error::{ErrorKind, Recovery, TcpError};

verus! {

/// Where the supervisor stands.
#[derive(Debug, Clone, Copy, PartialEq, Eq, Structural)]
pub enum Connection {
    /// Not started.
    Idle,
    /// Waiting for a peer to connect.
    Accepting,
    /// Serving the one connection.
    Active,
    /// Ending the connection.
    Terminating,
}

/// One of the two paths of an active connection.
#[derive(Debug, Clone, Copy, PartialEq, Eq, Structural)]
pub enum Side {
    /// The path from the transport to the handler.
    Receiver,
    /// The path from the handler to the transport.
    Transmitter,
}

/// What happened.
#[derive(Debug, Clone, Copy, PartialEq, Eq, Structural)]
pub enum Event {
    /// The supervisor was started.
    Started,
    /// A peer connected.
    Accepted,
    /// Accepting failed.
    AcceptFailed,
    /// This path was the first of the two to end, with this error.
    Stopped(Side, TcpError),
    /// Abort, flush and drain are over, cleanly or not.
    TornDown(bool),
}

/// What to do.
#[derive(Debug, Clone, Copy, PartialEq, Eq, Structural)]
pub enum Action {
    /// Wait for a peer to connect.
    Accept,
    /// Split the connection and run its two paths against each other.
    Serve,
    /// Report the error of the path that ended, cancel the other path,
    /// abort and flush the transport, and drain what is left unread.
    Terminate { ended: Side, error: TcpError },
    /// Stop the process: the failure is of a kind that no retry mends.
    Halt(ErrorKind),
    /// Nothing: what happened does not concern the present state.
    Wait,
}

/// A state and what to do on entering it.
#[derive(Debug, Clone, Copy, PartialEq, Eq, Structural)]
pub struct Transition {
    /// The state after the event.
    pub state: Connection,
    /// What the caller does next.
    pub action: Action,
}

/// The state and the action that follow `event` in `state`.
pub open spec fn step(state: Connection, event: Event) -> Transition {
    match (state, event) {
        (Connection::Idle, Event::Started) => Transition {
            state: Connection::Accepting,
            action: Action::Accept,
        },
        (Connection::Accepting, Event::Accepted) => Transition {
            state: Connection::Active,
            action: Action::Serve,
        },
        (Connection::Accepting, Event::AcceptFailed) => Transition {
            state: Connection::Accepting,
            action: Action::Accept,
        },
        (Connection::Active, Event::Stopped(ended, error)) => Transition {
            state: Connection::Terminating,
            action: if error.kind_of().recovery_of() == Recovery::Halt {
                Action::Halt(error.kind_of())
            } else {
                Action::Terminate { ended, error }
            },
        },
        (Connection::Terminating, Event::TornDown(_)) => Transition {
            state: Connection::Accepting,
            action: Action::Accept,
        },
        _ => Transition { state, action: Action::Wait },
    }
}

/// The supervisor's decision: the state and the action that follow `event`
/// in `state`.
pub fn handle_connections(state: Connection, event: Event) -> (next: Transition)
    ensures
        next == step(state, event),
{
    match (state, event) {
        (Connection::Idle, Event::Started) => Transition {
            state: Connection::Accepting,
            action: Action::Accept,
        },
        (Connection::Accepting, Event::Accepted) => Transition {
            state: Connection::Active,
            action: Action::Serve,
        },
        (Connection::Accepting, Event::AcceptFailed) => Transition {
            state: Connection::Accepting,
            action: Action::Accept,
        },
        (Connection::Active, Event::Stopped(ended, error)) => {
            let kind = error.kind();
            Transition {
                state: Connection::Terminating,
                action: if kind.is_fatal() {
                    Action::Halt(kind)
                } else {
                    Action::Terminate { ended, error }
                },
            }
        },
        (Connection::Terminating, Event::TornDown(_)) => Transition {
            state: Connection::Accepting,
            action: Action::Accept,
        },
        _ => Transition { state, action: Action::Wait },
    }
}

/// The number of bytes to discard from the receive buffer of a connection
/// that has ended: all that wait, where the transport still hands them out.
pub fn flush_rx_buffer(may_recv: bool, queued: usize) -> (discard: usize)
    ensures
        discard == if may_recv {
            queued
        } else {
            0
        },
{
    if may_recv {
        queued
    } else {
        0
    }
}

/// The state after the events of `events`, first to last.
pub open spec fn state_after(state: Connection, events: Seq<Event>) -> Connection
    decreases events.len(),
{
    if events.len() == 0 {
        state
    } else {
        state_after(step(state, events[0]).state, events.drop_first())
    }
}

/// The number of times that `events` had a connection served.
pub open spec fn served(state: Connection, events: Seq<Event>) -> nat
    decreases events.len(),
{
    if events.len() == 0 {
        0
    } else {
        let next = step(state, events[0]);
        (if next.action == Action::Serve {
            1nat
        } else {
            0nat
        }) + served(next.state, events.drop_first())
    }
}

/// The number of times that `events` had a connection ended.
pub open spec fn ended(state: Connection, events: Seq<Event>) -> nat
    decreases events.len(),
{
    if events.len() == 0 {
        0
    } else {
        let next = step(state, events[0]);
        (if next.action is Terminate || next.action is Halt {
            1nat
        } else {
            0nat
        }) + ended(next.state, events.drop_first())
    }
}

/// One for the active state, zero for every other.
pub open spec fn open_in(state: Connection) -> nat {
    if state == Connection::Active {
        1
    } else {
        0
    }
}

/// A connection is served only out of `Accepting`, on `Accepted`, and no
/// second one while one is active: a peer that connects meanwhile waits.
pub proof fn law_one_connection(state: Connection, event: Event)
    ensures
        step(state, event).action == Action::Serve <==> state == Connection::Accepting && event
            == Event::Accepted,
        step(state, event).state == Connection::Active && state != Connection::Active ==> step(
            state,
            event,
        ).action == Action::Serve,
        state == Connection::Active ==> step(state, event).action != Action::Serve && step(
            state,
            event,
        ).action != Action::Accept,
{
}

/// Whatever happens, at most one connection is open: every connection
/// served but the last has been ended before the next was served.
pub proof fn law_at_most_one_open(state: Connection, events: Seq<Event>)
    ensures
        open_in(state) + served(state, events) == ended(state, events) + open_in(
            state_after(state, events),
        ),
    decreases events.len(),
{
    if events.len() > 0 {
        law_at_most_one_open(step(state, events[0]).state, events.drop_first());
    }
}

/// A failed accept is tried again without leaving `Accepting`, and the end of
/// a teardown leads back to `Accepting` however the teardown went.
pub proof fn law_recovery(clean: bool)
    ensures
        step(Connection::Accepting, Event::AcceptFailed) == (Transition {
            state: Connection::Accepting,
            action: Action::Accept,
        }),
        step(Connection::Terminating, Event::TornDown(clean)) == (Transition {
            state: Connection::Accepting,
            action: Action::Accept,
        }),
{
}

/// The path that ends first decides what is reported, and its error decides
/// how: a failure of the connection alone ends the connection, a failure of
/// sizing halts.
pub proof fn law_first_failure(ended: Side, error: TcpError)
    ensures
        step(Connection::Active, Event::Stopped(ended, error)).state == Connection::Terminating,
        error != TcpError::CapacityExceeded ==> step(
            Connection::Active,
            Event::Stopped(ended, error),
        ).action == (Action::Terminate { ended, error }),
        error == TcpError::CapacityExceeded ==> step(
            Connection::Active,
            Event::Stopped(ended, error),
        ).action == Action::Halt(ErrorKind::CapacityExceeded),
{
}

} // verus!
