//! Message transport and task coordination for a networked motor-duty
//! controller.
//!
//! A microcontroller drives a PWM-actuated motor, counts the edges of a
//! rotation sensor, and talks to a host over one streaming byte connection.
//! This crate holds the decisions of that system as verified code: the wire
//! codec, the stream reader and writer, the bounded routes between the
//! network and the actuator, the revolution sampler and the connection
//! supervisor. Hardware, sockets and timers stay with the caller, which
//! performs the actions these functions decide on.

pub mod buffer;
pub mod control;
pub mod duty;
pub mod encoder;
pub mod error;
pub mod frame;
pub mod link;
pub mod message;
pub mod reader;
pub mod router;
pub mod stuffing;
pub mod supervisor;
pub mod varint;
pub mod writer;
