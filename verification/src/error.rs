//! The failures of the system and how each is recovered from.

use vstd::prelude::*;

verus! {

/// Why the read or the write path of a connection stopped.
#[derive(Debug, Clone, Copy, PartialEq, Eq, Structural)]
pub enum TcpError {
    /// The peer closed the stream: a read returned no bytes.
    TransportClosed,
    /// A read or a write on the transport failed.
    TransportError,
    /// A frame arrived that holds no message.
    FramingError,
    /// A frame or the pending bytes exceed the fixed buffer.
    CapacityExceeded,
}

/// Every kind of failure the system distinguishes.
#[derive(Debug, Clone, Copy, PartialEq, Eq, Structural)]
pub enum ErrorKind {
    /// The peer closed the stream.
    TransportClosed,
    /// A read or a write on the transport failed.
    TransportError,
    /// A frame arrived that holds no message.
    FramingError,
    /// A frame or the pending bytes exceed the fixed buffer.
    CapacityExceeded,
    /// The task at the other end of a route is gone.
    ChannelClosed,
    /// The edge counter wrapped within one sampling interval.
    CounterOverflow,
    /// The wireless link went down.
    LinkFailure,
}

/// How a failure is answered.
#[derive(Debug, Clone, Copy, PartialEq, Eq, Structural)]
pub enum Recovery {
    /// Abort the connection, drain it and accept the next one.
    Reconnect,
    /// Log, wait for the fixed backoff and start the link again, for ever.
    RestartLink,
    /// Stop: a sizing mistake or a broken assumption, which no retry mends.
    Halt,
}

impl ErrorKind {
    /// How a failure of this kind is answered.
    pub open spec fn recovery_of(self) -> Recovery {
        match self {
            ErrorKind::TransportClosed | ErrorKind::TransportError | ErrorKind::FramingError =>
                Recovery::Reconnect,
            ErrorKind::LinkFailure => Recovery::RestartLink,
            ErrorKind::CapacityExceeded | ErrorKind::ChannelClosed | ErrorKind::CounterOverflow =>
                Recovery::Halt,
        }
    }

    /// How a failure of this kind is answered.
    pub fn recovery(&self) -> (recovery: Recovery)
        ensures
            recovery == self.recovery_of(),
    {
        match self {
            ErrorKind::TransportClosed => Recovery::Reconnect,
            ErrorKind::TransportError => Recovery::Reconnect,
            ErrorKind::FramingError => Recovery::Reconnect,
            ErrorKind::LinkFailure => Recovery::RestartLink,
            ErrorKind::CapacityExceeded => Recovery::Halt,
            ErrorKind::ChannelClosed => Recovery::Halt,
            ErrorKind::CounterOverflow => Recovery::Halt,
        }
    }

    /// Whether a failure of this kind stops the process.
    pub fn is_fatal(&self) -> (fatal: bool)
        ensures
            fatal <==> self.recovery_of() == Recovery::Halt,
    {
        match self.recovery() {
            Recovery::Halt => true,
            _ => false,
        }
    }
}

impl TcpError {
    /// The kind of this failure.
    pub open spec fn kind_of(self) -> ErrorKind {
        match self {
            TcpError::TransportClosed => ErrorKind::TransportClosed,
            TcpError::TransportError => ErrorKind::TransportError,
            TcpError::FramingError => ErrorKind::FramingError,
            TcpError::CapacityExceeded => ErrorKind::CapacityExceeded,
        }
    }

    /// The kind of this failure.
    pub fn kind(&self) -> (kind: ErrorKind)
        ensures
            kind == self.kind_of(),
    {
        match self {
            TcpError::TransportClosed => ErrorKind::TransportClosed,
            TcpError::TransportError => ErrorKind::TransportError,
            TcpError::FramingError => ErrorKind::FramingError,
            TcpError::CapacityExceeded => ErrorKind::CapacityExceeded,
        }
    }
}

} // verus!
