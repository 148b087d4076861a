//! The wireless link.
//!
//! The device hosts the access point itself. Whenever the link stops, or
//! fails to start, it is started again after a fixed delay, for ever.

use vstd::prelude::*;

verus! {

/// The seconds to wait before the link is started again.
pub const RESTART_DELAY_SECS: u64 = 5;

/// Where the link stands.
#[derive(Debug, Clone, Copy, PartialEq, Eq, Structural)]
pub enum Link {
    /// Not started.
    Stopped,
    /// Being started.
    Starting,
    /// Up.
    Running,
    /// Down: it stopped, or did not start.
    Failed,
}

/// What happened to the link.
#[derive(Debug, Clone, Copy, PartialEq, Eq, Structural)]
pub enum LinkEvent {
    /// The task was started.
    Begin,
    /// The access point is up.
    Started,
    /// The access point did not come up.
    StartFailed,
    /// The access point went down.
    ApStopped,
    /// The delay is over.
    DelayElapsed,
}

/// What to do about the link.
#[derive(Debug, Clone, Copy, PartialEq, Eq, Structural)]
pub enum LinkAction {
    /// Start the access point.
    Start,
    /// Wait until the access point goes down.
    AwaitStop,
    /// Log, and wait so many seconds.
    Delay(u64),
    /// Nothing: what happened does not concern the present state.
    Wait,
}

/// A state and what to do on entering it.
#[derive(Debug, Clone, Copy, PartialEq, Eq, Structural)]
pub struct LinkTransition {
    /// The state after the event.
    pub state: Link,
    /// What the caller does next.
    pub action: LinkAction,
}

/// The state and the action that follow `event` in `state`.
pub open spec fn link_step(state: Link, event: LinkEvent) -> LinkTransition {
    match (state, event) {
        (Link::Stopped, LinkEvent::Begin) => LinkTransition {
            state: Link::Starting,
            action: LinkAction::Start,
        },
        (Link::Starting, LinkEvent::Started) => LinkTransition {
            state: Link::Running,
            action: LinkAction::AwaitStop,
        },
        (Link::Starting, LinkEvent::StartFailed) => LinkTransition {
            state: Link::Failed,
            action: LinkAction::Delay(RESTART_DELAY_SECS),
        },
        (Link::Running, LinkEvent::ApStopped) => LinkTransition {
            state: Link::Failed,
            action: LinkAction::Delay(RESTART_DELAY_SECS),
        },
        (Link::Failed, LinkEvent::DelayElapsed) => LinkTransition {
            state: Link::Starting,
            action: LinkAction::Start,
        },
        _ => LinkTransition { state, action: LinkAction::Wait },
    }
}

/// The decision of the task that keeps the link up.
pub fn controller_task(state: Link, event: LinkEvent) -> (next: LinkTransition)
    ensures
        next == link_step(state, event),
{
    match (state, event) {
        (Link::Stopped, LinkEvent::Begin) => LinkTransition {
            state: Link::Starting,
            action: LinkAction::Start,
        },
        (Link::Starting, LinkEvent::Started) => LinkTransition {
            state: Link::Running,
            action: LinkAction::AwaitStop,
        },
        (Link::Starting, LinkEvent::StartFailed) => LinkTransition {
            state: Link::Failed,
            action: LinkAction::Delay(RESTART_DELAY_SECS),
        },
        (Link::Running, LinkEvent::ApStopped) => LinkTransition {
            state: Link::Failed,
            action: LinkAction::Delay(RESTART_DELAY_SECS),
        },
        (Link::Failed, LinkEvent::DelayElapsed) => LinkTransition {
            state: Link::Starting,
            action: LinkAction::Start,
        },
        _ => LinkTransition { state, action: LinkAction::Wait },
    }
}

/// A link that is down is started again, whether it stopped or did not
/// start, and always after the same delay: no failure ends the loop.
pub proof fn law_link_restarts(state: Link, event: LinkEvent)
    ensures
        link_step(state, event).state == Link::Failed && state != Link::Failed ==> link_step(
            state,
            event,
        ).action == LinkAction::Delay(RESTART_DELAY_SECS),
        link_step(Link::Failed, LinkEvent::DelayElapsed) == (LinkTransition {
            state: Link::Starting,
            action: LinkAction::Start,
        }),
        state != Link::Stopped ==> link_step(state, event).state != Link::Stopped,
{
}

} // verus!
