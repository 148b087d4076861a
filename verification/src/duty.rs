//! The duty controller.
//!
//! The controller owns the duty setting. A duty message is applied to the
//! output as it was received, without a check against the range of the
//! output stage, and may be echoed to the peer.

use vstd::prelude::*;
use crate::message::Message;
use crate::router::{lane_after_send, Delivery, Lane, HANDLER_CHANNEL_SIZE};

verus! {

/// What applying one message calls for.
#[derive(Debug, Clone, Copy, PartialEq, Eq, Structural)]
pub struct Applied {
    /// The value to set the output to.
    pub duty: u16,
    /// The message to send back to the peer, if the controller echoes.
    pub echo: Option<Message>,
}

/// The owner of the duty setting.
#[derive(Debug, Clone, Copy, PartialEq, Eq, Structural)]
pub struct DutyController {
    duty: u16,
    echo: bool,
}

impl DutyController {
    /// The duty value in force.
    pub closed spec fn current(&self) -> u16 {
        self.duty
    }

    /// Whether applied values are echoed.
    pub closed spec fn echoes(&self) -> bool {
        self.echo
    }

    /// A controller whose output stands at `initial`.
    pub fn new(initial: u16, echo: bool) -> (controller: DutyController)
        ensures
            controller.current() == initial,
            controller.echoes() == echo,
    {
        DutyController { duty: initial, echo }
    }

    /// The duty value in force.
    pub fn duty(&self) -> (duty: u16)
        ensures
            duty == self.current(),
    {
        self.duty
    }

    /// Takes the duty value of `message` as the setting, exactly as
    /// received, and says what to set the output to and what to echo.
    pub fn apply(&mut self, message: Message) -> (applied: Applied)
        ensures
            final(self).current() == message.duty_value(),
            final(self).echoes() == old(self).echoes(),
            applied.duty == message.duty_value(),
            applied.echo == if old(self).echoes() {
                Some(Message::DutyCycle(message.duty_value()))
            } else {
                None
            },
    {
        let duty = message.duty();
        self.duty = duty;
        Applied {
            duty,
            echo: if self.echo {
                Some(Message::DutyCycle(duty))
            } else {
                None
            },
        }
    }
}

/// What the handling task does with one message.
#[derive(Debug, Clone, Copy, PartialEq, Eq, Structural)]
pub struct Handled {
    /// The value to set the output to.
    pub duty: u16,
    /// What became of the echo: `None` where the controller does not echo.
    pub echo: Option<Delivery>,
}

/// One step of the handling task: the message is applied, and its echo is
/// sent to the transmitter without waiting, or kept for a send that waits
/// where the lane is full.
pub fn handle_messages(
    controller: &mut DutyController,
    message: Message,
    to_transmitter: &mut Lane,
) -> (handled: Handled)
    ensures
        final(controller).current() == message.duty_value(),
        final(controller).echoes() == old(controller).echoes(),
        old(to_transmitter).wf() ==> final(to_transmitter).wf(),
        handled.duty == message.duty_value(),
        final(to_transmitter)@ == if old(controller).echoes() {
            lane_after_send(old(to_transmitter)@, HANDLER_CHANNEL_SIZE as nat, message)
        } else {
            old(to_transmitter)@
        },
        handled.echo == if !old(controller).echoes() {
            None
        } else if old(to_transmitter)@.len() < HANDLER_CHANNEL_SIZE {
            Some(Delivery::Delivered)
        } else {
            Some(Delivery::Deferred(message))
        },
{
    let applied = controller.apply(message);
    let echo = match applied.echo {
        Some(echo) => Some(to_transmitter.send(echo)),
        None => None,
    };
    Handled { duty: applied.duty, echo }
}

} // verus!
