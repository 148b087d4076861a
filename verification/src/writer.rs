//! The stream writer.
//!
//! The writer turns each message into its frame and hands the bytes to the
//! transport. It holds one transmit buffer of fixed size, into which every
//! frame is encoded.

use vstd::prelude::*;
use vstd::slice::slice_subrange;
use crate::error::TcpError;
use crate::frame::{encode, frame};
use crate::router::{lane_after_receive, Lane};
use crate::message::Message;

verus! {

/// What [`send_message`] did with the room it was offered.
#[derive(Debug, Clone, Copy, PartialEq, Eq, Structural)]
pub struct Sent {
    /// The number of bytes written to the front of the room.
    pub written: usize,
    /// Whether the message is on its way. Where it is not, the room was too
    /// small for the frame and the same message is offered again later.
    pub done: bool,
}

/// Writes the frame of `message` into the free room of a transmit buffer,
/// if it fits there as a whole. Room that is too small is left untouched:
/// no part of a frame is ever written.
pub fn send_message(message: &Message, empty_chunk: &mut [u8]) -> (sent: Sent)
    ensures
        final(empty_chunk)@.len() == old(empty_chunk)@.len(),
        sent.done <==> frame(*message).len() <= old(empty_chunk)@.len(),
        sent.done ==> sent.written == frame(*message).len() && final(empty_chunk)@ == frame(
            *message,
        ) + old(empty_chunk)@.skip(sent.written as int),
        !sent.done ==> sent.written == 0 && final(empty_chunk)@ == old(empty_chunk)@,
{
    match encode(message, empty_chunk) {
        Ok(written) => Sent { written, done: true },
        Err(_) => Sent { written: 0, done: false },
    }
}

/// The writing half of a connection.
pub struct StreamWriter {
    buffer: Vec<u8>,
}

impl StreamWriter {
    /// The size of the transmit buffer.
    pub closed spec fn capacity(&self) -> nat {
        self.buffer@.len()
    }

    /// A writer with a transmit buffer of `capacity` bytes.
    pub fn new(capacity: usize) -> (writer: StreamWriter)
        ensures
            writer.capacity() == capacity,
    {
        let mut buffer: Vec<u8> = Vec::new();
        buffer.resize(capacity, 0u8);
        StreamWriter { buffer }
    }

    /// Encodes `message` into the transmit buffer and returns the bytes to
    /// write to the transport: its frame. A buffer smaller than the frame is
    /// a sizing defect.
    pub fn stage(&mut self, message: &Message) -> (staged: Result<&[u8], TcpError>)
        ensures
            final(self).capacity() == old(self).capacity(),
            match staged {
                Ok(bytes) => bytes@ == frame(*message) && frame(*message).len() <= old(
                    self,
                ).capacity(),
                Err(error) => error == TcpError::CapacityExceeded && frame(*message).len() > old(
                    self,
                ).capacity(),
            },
    {
        match encode(message, self.buffer.as_mut_slice()) {
            Ok(written) => {
                let bytes = slice_subrange(self.buffer.as_slice(), 0, written);
                assert(bytes@ =~= frame(*message));
                Ok(bytes)
            },
            Err(_) => Err(TcpError::CapacityExceeded),
        }
    }
}

/// What the transmitting task does next.
#[derive(Debug, Clone, Copy, PartialEq, Eq, Structural)]
pub enum Announced {
    /// Nothing has been handled yet: wait for the next message.
    Idle,
    /// Write the frame of this message to the transport.
    Transmit(Message),
    /// The last write failed: stop, and report why.
    Stopped(TcpError),
}

/// One step of the transmitting task: after a write that went well it takes
/// the oldest handled message off the lane, to be sent next; a failed write
/// stops it and leaves the lane as it is.
pub fn announce_handled_messages(
    last_write: Result<(), TcpError>,
    from_msg_handler: &mut Lane,
) -> (next: Announced)
    ensures
        old(from_msg_handler).wf() ==> final(from_msg_handler).wf(),
        match last_write {
            Err(error) => next == Announced::Stopped(error) && final(from_msg_handler)@ == old(
                from_msg_handler,
            )@,
            Ok(_) => final(from_msg_handler)@ == lane_after_receive(old(from_msg_handler)@)
                && next == if old(from_msg_handler)@.len() > 0 {
                Announced::Transmit(old(from_msg_handler)@[0])
            } else {
                Announced::Idle
            },
        },
{
    match last_write {
        Err(error) => Announced::Stopped(error),
        Ok(_) => match from_msg_handler.try_receive() {
            Some(message) => Announced::Transmit(message),
            None => Announced::Idle,
        },
    }
}

} // verus!
