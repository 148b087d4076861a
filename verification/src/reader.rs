//! The stream reader.
//!
//! The reader keeps what the transport delivered and no frame has claimed
//! yet. Each delivery is appended, and every complete frame at the front is
//! decoded and taken off, in order. What remains is the start of a frame
//! whose end has not arrived.

use vstd::prelude::*;
use crate::buffer::WorkingBuffer;
use crate::error::TcpError;
use crate::frame::{
    decode, decode_attempt, frame, law_consumed, law_decode_stable, law_no_delimiter,
    law_prefix_needs_more, law_round_trip, law_round_trip_in_stream, lemma_frame_shape,
    lemma_parse_payload, lemma_parse_prefix, parse, parse_payload, payload,
    DecodeOutcome, Decoding, Parsed, BUFFER_SIZE, MAX_FRAME_LEN,
};
use crate::message::Message;
use crate::router::{lane_after_send, Lane, HANDLER_CHANNEL_SIZE};
use crate::stuffing::delimiter_free;

verus! {

/// What draining a buffer yields.
pub struct Drained {
    /// The messages of the complete frames at the front, in order.
    pub messages: Seq<Message>,
    /// The bytes that stay in the buffer.
    pub rest: Seq<u8>,
    /// Whether a frame that holds no message stopped the draining.
    pub malformed: bool,
}

/// Decodes frame after frame off the front of `buffer`, up to the first
/// frame that is incomplete or malformed. A malformed frame is taken off too.
pub open spec fn drain(buffer: Seq<u8>) -> Drained
    decreases buffer.len(),
{
    match decode(buffer) {
        Decoding::NeedMoreData => Drained { messages: Seq::empty(), rest: buffer, malformed: false },
        Decoding::Malformed { consumed } => Drained {
            messages: Seq::empty(),
            rest: buffer.skip(consumed as int),
            malformed: true,
        },
        Decoding::Decoded { message, consumed } => {
            let next = drain(buffer.skip(consumed as int));
            Drained {
                messages: seq![message] + next.messages,
                rest: next.rest,
                malformed: next.malformed,
            }
        },
    }
}

/// The frames of `messages`, one behind the other.
pub open spec fn frames(messages: Seq<Message>) -> Seq<u8>
    decreases messages.len(),
{
    if messages.len() == 0 {
        Seq::empty()
    } else {
        frame(messages[0]) + frames(messages.drop_first())
    }
}

/// What one delivery from the transport leads to.
pub struct Step {
    /// The messages to forward, in order.
    pub messages: Seq<Message>,
    /// The bytes the reader holds afterwards.
    pub held: Seq<u8>,
    /// Why the reader stops, if it does.
    pub signal: Option<TcpError>,
}

/// The step a reader that holds `held` and accepts `capacity` bytes takes on
/// the delivery `chunk`. An empty delivery means the peer closed the stream.
/// A delivery that does not fit, or pending bytes that fill the buffer
/// without a delimiter, exceed the capacity.
pub open spec fn read_step(held: Seq<u8>, capacity: nat, chunk: Seq<u8>) -> Step {
    if chunk.len() == 0 {
        Step { messages: Seq::empty(), held, signal: Some(TcpError::TransportClosed) }
    } else if held.len() + chunk.len() > capacity {
        Step { messages: Seq::empty(), held, signal: Some(TcpError::CapacityExceeded) }
    } else {
        let drained = drain(held + chunk);
        Step {
            messages: drained.messages,
            held: drained.rest,
            signal: if drained.malformed {
                Some(TcpError::FramingError)
            } else if drained.rest.len() >= capacity {
                Some(TcpError::CapacityExceeded)
            } else {
                None
            },
        }
    }
}

/// What one delivery leads to where messages travel as bare payloads, one
/// to a connection, without stuffing or delimiter.
pub struct PlainStep {
    /// The message, why reading ends, or `None` while the payload is
    /// incomplete.
    pub outcome: Option<Result<Message, TcpError>>,
    /// The bytes the reader holds afterwards.
    pub held: Seq<u8>,
}

/// The step a reader of bare payloads takes on the delivery `chunk`. Once
/// the outcome is known the pending bytes are forgotten.
pub open spec fn plain_step(held: Seq<u8>, capacity: nat, chunk: Seq<u8>) -> PlainStep {
    if chunk.len() == 0 {
        PlainStep { outcome: Some(Err(TcpError::TransportClosed)), held: Seq::empty() }
    } else if held.len() + chunk.len() > capacity {
        PlainStep { outcome: Some(Err(TcpError::CapacityExceeded)), held: Seq::empty() }
    } else {
        match parse(held + chunk) {
            Parsed::Message(message) => PlainStep { outcome: Some(Ok(message)), held: Seq::empty() },
            Parsed::Invalid => PlainStep {
                outcome: Some(Err(TcpError::FramingError)),
                held: Seq::empty(),
            },
            Parsed::Incomplete => PlainStep { outcome: None, held: held + chunk },
        }
    }
}

/// The bytes of `chunks`, one chunk behind the other.
pub open spec fn joined(chunks: Seq<Seq<u8>>) -> Seq<u8>
    decreases chunks.len(),
{
    if chunks.len() == 0 {
        Seq::empty()
    } else {
        chunks[0] + joined(chunks.drop_first())
    }
}

/// The steps a reader takes on the deliveries `chunks`, one after the other,
/// as one: the messages of all steps in order, what is held at the end, and
/// the signal of the step at which the reader stopped, if it did.
pub open spec fn read_all(held: Seq<u8>, capacity: nat, chunks: Seq<Seq<u8>>) -> Step
    decreases chunks.len(),
{
    if chunks.len() == 0 {
        Step { messages: Seq::empty(), held, signal: None }
    } else {
        let first = read_step(held, capacity, chunks[0]);
        if first.signal is Some {
            first
        } else {
            let rest = read_all(first.held, capacity, chunks.drop_first());
            Step { messages: first.messages + rest.messages, held: rest.held, signal: rest.signal }
        }
    }
}

/// What [`StreamReader::feed`] returns.
#[derive(Debug)]
pub struct ReadStep {
    /// The messages to forward downstream, in order.
    pub messages: Vec<Message>,
    /// Why the reader stops, if it does.
    pub signal: Option<TcpError>,
}

/// The reading half of a connection.
pub struct StreamReader {
    buffer: WorkingBuffer,
}

impl View for StreamReader {
    type V = Seq<u8>;

    closed spec fn view(&self) -> Seq<u8> {
        self.buffer@
    }
}

impl StreamReader {
    /// The number of pending bytes the reader accepts.
    pub closed spec fn capacity(&self) -> nat {
        self.buffer.capacity()
    }

    /// The pending bytes are within the capacity. A reader starts out so,
    /// and nothing that is done to it changes that.
    pub open spec fn within_capacity(&self) -> bool {
        self@.len() <= self.capacity()
    }

    /// A reader with nothing pending that accepts `capacity` bytes.
    pub fn new(capacity: usize) -> (reader: StreamReader)
        ensures
            reader.within_capacity(),
            reader@ == Seq::<u8>::empty(),
            reader.capacity() == if capacity <= isize::MAX {
                capacity as nat
            } else {
                isize::MAX as nat
            },
    {
        StreamReader { buffer: WorkingBuffer::new(capacity) }
    }

    /// The number of pending bytes.
    pub fn pending(&self) -> (count: usize)
        ensures
            count == self@.len(),
    {
        self.buffer.len()
    }

    /// The number of bytes the next delivery may have.
    pub fn room(&self) -> (room: usize)
        ensures
            room == if self.within_capacity() {
                self.capacity() - self@.len()
            } else {
                0
            },
    {
        self.buffer.remaining()
    }

    /// Forgets the pending bytes, so that nothing of one connection is read
    /// into the next.
    pub fn reset(&mut self)
        ensures
            final(self).within_capacity(),
            final(self).capacity() == old(self).capacity(),
            final(self)@ == Seq::<u8>::empty(),
    {
        self.buffer.reset();
    }

    /// Takes one delivery where messages travel as bare payloads: the
    /// pending bytes and the delivery are read as one payload from the start,
    /// again at every delivery, until the message is whole.
    pub fn feed_unframed(&mut self, chunk: &[u8]) -> (outcome: Option<Result<Message, TcpError>>)
        ensures
            final(self).within_capacity(),
            final(self).capacity() == old(self).capacity(),
            outcome == plain_step(old(self)@, old(self).capacity(), chunk@).outcome,
            final(self)@ == plain_step(old(self)@, old(self).capacity(), chunk@).held,
    {
        if chunk.len() == 0 {
            self.buffer.reset();
            return Some(Err(TcpError::TransportClosed));
        }
        if !self.buffer.append(chunk) {
            self.buffer.reset();
            return Some(Err(TcpError::CapacityExceeded));
        }
        match parse_payload(self.buffer.as_slice()) {
            Parsed::Message(message) => {
                self.buffer.reset();
                Some(Ok(message))
            },
            Parsed::Invalid => {
                self.buffer.reset();
                Some(Err(TcpError::FramingError))
            },
            Parsed::Incomplete => None,
        }
    }

    /// Takes one delivery from the transport and decodes every frame that it
    /// completes.
    pub fn feed(&mut self, chunk: &[u8]) -> (step: ReadStep)
        ensures
            old(self).within_capacity() ==> final(self).within_capacity(),
            final(self).capacity() == old(self).capacity(),
            step.messages@ == read_step(old(self)@, old(self).capacity(), chunk@).messages,
            final(self)@ == read_step(old(self)@, old(self).capacity(), chunk@).held,
            step.signal == read_step(old(self)@, old(self).capacity(), chunk@).signal,
    {
        let mut messages: Vec<Message> = Vec::new();
        if chunk.len() == 0 {
            return ReadStep { messages, signal: Some(TcpError::TransportClosed) };
        }
        if !self.buffer.append(chunk) {
            return ReadStep { messages, signal: Some(TcpError::CapacityExceeded) };
        }
        let ghost whole = old(self)@ + chunk@;
        assert(messages@ + drain(whole).messages =~= drain(whole).messages);
        let mut signal: Option<TcpError> = None;
        let mut more = true;
        while more
            invariant
                self@.len() <= self.capacity(),
                self.capacity() == old(self).capacity(),
                drain(whole).messages == messages@ + (if more {
                    drain(self@).messages
                } else {
                    Seq::empty()
                }),
                more ==> drain(whole).rest == drain(self@).rest,
                more ==> drain(whole).malformed == drain(self@).malformed,
                more ==> signal is None,
                !more ==> drain(whole).rest == self@,
                !more ==> (drain(whole).malformed <==> signal == Some(TcpError::FramingError)),
                !more ==> signal is None || signal == Some(TcpError::FramingError),
            decreases self@.len() + (if more { 1int } else { 0int }),
        {
            let ghost pending = self@;
            proof {
                law_consumed(pending);
            }
            match decode_attempt(self.buffer.as_slice()) {
                DecodeOutcome::NeedMoreData => {
                    more = false;
                    assert(messages@ + Seq::<Message>::empty() =~= messages@);
                },
                DecodeOutcome::Malformed(consumed) => {
                    self.buffer.consume(consumed);
                    signal = Some(TcpError::FramingError);
                    more = false;
                    assert(messages@ + Seq::<Message>::empty() =~= messages@);
                },
                DecodeOutcome::Decoded(message, consumed) => {
                    let ghost before = messages@;
                    messages.push(message);
                    self.buffer.consume(consumed);
                    assert(messages@ + drain(pending.skip(consumed as int)).messages =~= before
                        + drain(pending).messages);
                },
            }
        }
        if signal.is_none() && self.buffer.is_full() {
            signal = Some(TcpError::CapacityExceeded);
        }
        ReadStep { messages, signal }
    }
}

/// What [`recv_message`] decided on the bytes it was shown.
#[derive(Debug, Clone, Copy, PartialEq, Eq)]
pub struct Received {
    /// The number of bytes to take off the front of the receive buffer.
    pub consumed: usize,
    /// The message of the first frame, `None` where no frame is complete yet,
    /// or why the connection has to end.
    pub outcome: Result<Option<Message>, TcpError>,
}

/// What the bytes that wait in a receive buffer of `BUFFER_SIZE` bytes call
/// for.
pub open spec fn reception(chunk: Seq<u8>) -> (nat, Result<Option<Message>, TcpError>) {
    match decode(chunk) {
        Decoding::Decoded { message, consumed } => (consumed, Ok(Some(message))),
        Decoding::Malformed { consumed } => (consumed, Err(TcpError::FramingError)),
        Decoding::NeedMoreData => if chunk.len() >= BUFFER_SIZE {
            (0, Err(TcpError::CapacityExceeded))
        } else {
            (0, Ok(None))
        },
    }
}

/// Decides on the bytes that wait in the receive buffer of a socket: a
/// complete frame at the front is taken and decoded, a malformed one is taken
/// and ends the connection, and without a delimiter nothing is taken, which
/// is a defect of sizing once the buffer is full.
pub fn recv_message(chunk: &[u8]) -> (received: Received)
    ensures
        received.consumed == reception(chunk@).0,
        received.outcome == reception(chunk@).1,
{
    match decode_attempt(chunk) {
        DecodeOutcome::Decoded(message, consumed) => Received {
            consumed,
            outcome: Ok(Some(message)),
        },
        DecodeOutcome::Malformed(consumed) => Received {
            consumed,
            outcome: Err(TcpError::FramingError),
        },
        DecodeOutcome::NeedMoreData => if chunk.len() >= BUFFER_SIZE {
            Received { consumed: 0, outcome: Err(TcpError::CapacityExceeded) }
        } else {
            Received { consumed: 0, outcome: Ok(None) }
        },
    }
}

/// What the receiving task does next.
#[derive(Debug, Clone, Copy, PartialEq, Eq, Structural)]
pub enum Forwarded {
    /// The message waits for the handler: read on.
    Delivered,
    /// The lane to the handler is full: report it, wait for room, send this
    /// message, then read on.
    Deferred(Message),
    /// Reading failed: stop, and report why.
    Stopped(TcpError),
}

/// One step of the receiving task: a message that was read is sent to the
/// handler without waiting, or kept for a send that waits where the lane is
/// full; a failed read stops the task and leaves the lane as it is.
pub fn receive_unhandled_messages(
    received: Result<Message, TcpError>,
    to_msg_handler: &mut Lane,
) -> (next: Forwarded)
    ensures
        old(to_msg_handler).wf() ==> final(to_msg_handler).wf(),
        match received {
            Err(error) => next == Forwarded::Stopped(error) && final(to_msg_handler)@ == old(
                to_msg_handler,
            )@,
            Ok(message) => final(to_msg_handler)@ == lane_after_send(
                old(to_msg_handler)@,
                HANDLER_CHANNEL_SIZE as nat,
                message,
            ) && next == if old(to_msg_handler)@.len() < HANDLER_CHANNEL_SIZE {
                Forwarded::Delivered
            } else {
                Forwarded::Deferred(message)
            },
        },
{
    match received {
        Err(error) => Forwarded::Stopped(error),
        Ok(message) => match to_msg_handler.try_send(message) {
            None => Forwarded::Delivered,
            Some(kept) => Forwarded::Deferred(kept),
        },
    }
}

/// Frames laid end to end decode to their messages, in order, and leave
/// nothing behind.
pub proof fn law_frames_drain(messages: Seq<Message>)
    ensures
        drain(frames(messages)) == (Drained {
            messages,
            rest: Seq::empty(),
            malformed: false,
        }),
    decreases messages.len(),
{
    if messages.len() == 0 {
        law_no_delimiter(Seq::<u8>::empty());
        assert(messages =~= Seq::<Message>::empty());
    } else {
        let first = messages[0];
        let others = messages.drop_first();
        law_round_trip_in_stream(first, frames(others));
        lemma_frame_shape(first);
        assert(frames(messages).skip(frame(first).len() as int) =~= frames(others));
        law_frames_drain(others);
        assert(seq![first] + others =~= messages);
    }
}

/// One frame decodes to its message and leaves nothing behind.
pub proof fn law_frame_drains(message: Message)
    ensures
        drain(frame(message)) == (Drained {
            messages: seq![message],
            rest: Seq::empty(),
            malformed: false,
        }),
{
    let whole = frame(message);
    law_round_trip(message);
    law_no_delimiter(Seq::<u8>::empty());
    assert(whole.skip(whole.len() as int) =~= Seq::<u8>::empty());
    assert(drain(Seq::<u8>::empty()).messages =~= Seq::<Message>::empty());
    assert(seq![message] + Seq::<Message>::empty() =~= seq![message]);
}

/// Where the bytes are cut does not matter: draining `head + tail` at once
/// gives the messages of `head`, then those that the rest of `head` gives
/// together with `tail`, provided no frame in `head` is malformed.
pub proof fn law_chunking(head: Seq<u8>, tail: Seq<u8>)
    requires
        !drain(head).malformed,
    ensures
        drain(head + tail).messages == drain(head).messages + drain(drain(head).rest + tail).messages,
        drain(head + tail).rest == drain(drain(head).rest + tail).rest,
        drain(head + tail).malformed == drain(drain(head).rest + tail).malformed,
    decreases head.len(),
{
    match decode(head) {
        Decoding::NeedMoreData => {
            assert(drain(head).messages + drain(head + tail).messages =~= drain(
                head + tail,
            ).messages);
        },
        Decoding::Malformed { .. } => {},
        Decoding::Decoded { message, consumed } => {
            law_consumed(head);
            law_decode_stable(head, tail);
            let next = head.skip(consumed as int);
            assert((head + tail).skip(consumed as int) =~= next + tail);
            law_chunking(next, tail);
            assert(seq![message] + (drain(next).messages + drain(drain(next).rest + tail).messages)
                =~= (seq![message] + drain(next).messages) + drain(
                drain(next).rest + tail,
            ).messages);
        },
    }
}

/// Of a stream of frames, cut anywhere, the part before the cut drains
/// without a malformed frame, and leaves less than one frame pending.
pub proof fn lemma_drain_prefix(messages: Seq<Message>, head: Seq<u8>, tail: Seq<u8>)
    requires
        head + tail == frames(messages),
    ensures
        !drain(head).malformed,
        drain(head).rest.len() < MAX_FRAME_LEN,
    decreases messages.len(),
{
    if messages.len() == 0 {
        assert(head =~= Seq::<u8>::empty());
        law_no_delimiter(head);
    } else {
        let first = frame(messages[0]);
        let others = messages.drop_first();
        lemma_frame_shape(messages[0]);
        if head.len() < first.len() {
            assert(head =~= first.take(head.len() as int)) by {
                assert(head =~= (head + tail).take(head.len() as int));
                assert(first =~= (first + frames(others)).take(first.len() as int));
            }
            law_prefix_needs_more(messages[0], head.len() as int);
        } else {
            let next = head.skip(first.len() as int);
            assert(head =~= first + next) by {
                assert(first =~= (first + frames(others)).take(first.len() as int));
                assert(head.take(first.len() as int) =~= (head + tail).take(first.len() as int));
            }
            assert(next + tail =~= frames(others)) by {
                assert((head + tail).skip(first.len() as int) =~= next + tail);
                assert((first + frames(others)).skip(first.len() as int) =~= frames(others));
            }
            law_round_trip_in_stream(messages[0], next);
            lemma_drain_prefix(others, next, tail);
        }
    }
}

/// The steps on a stream of frames whose first part `seen` has been read
/// already give, together with what `seen` gave, the messages of the stream.
proof fn lemma_stream_in_chunks(
    messages: Seq<Message>,
    seen: Seq<u8>,
    chunks: Seq<Seq<u8>>,
    capacity: nat,
)
    requires
        seen + joined(chunks) == frames(messages),
        forall|i: int| 0 <= i < chunks.len() ==> 0 < (#[trigger] chunks[i]).len(),
        forall|i: int|
            0 <= i < chunks.len() ==> (#[trigger] chunks[i]).len() + MAX_FRAME_LEN <= capacity,
    ensures
        drain(seen).messages + read_all(drain(seen).rest, capacity, chunks).messages == messages,
        read_all(drain(seen).rest, capacity, chunks).held == Seq::<u8>::empty(),
        read_all(drain(seen).rest, capacity, chunks).signal is None,
    decreases chunks.len(),
{
    let pending = drain(seen).rest;
    if chunks.len() == 0 {
        assert(seen =~= frames(messages));
        law_frames_drain(messages);
        assert(messages + Seq::<Message>::empty() =~= messages);
    } else {
        let chunk = chunks[0];
        let later = chunks.drop_first();
        assert((seen + chunk) + joined(later) =~= seen + joined(chunks));
        lemma_drain_prefix(messages, seen, joined(chunks));
        lemma_drain_prefix(messages, seen + chunk, joined(later));
        law_chunking(seen, chunk);
        assert forall|i: int| 0 <= i < later.len() implies 0 < (#[trigger] later[i]).len()
            && later[i].len() + MAX_FRAME_LEN <= capacity by {
            assert(later[i] == chunks[i + 1]);
        }
        lemma_stream_in_chunks(messages, seen + chunk, later, capacity);
        let first = read_step(pending, capacity, chunk);
        let rest = read_all(first.held, capacity, later);
        assert(first.held == drain(seen + chunk).rest);
        assert(drain(seen).messages + (first.messages + rest.messages) =~= (drain(seen).messages
            + first.messages) + rest.messages);
    }
}

/// A stream of frames arrives whole however it is cut into deliveries: the
/// reader gives the messages of the frames, in their order, and holds
/// nothing at the end, provided that no delivery is empty and each leaves
/// room for one frame in the buffer.
pub proof fn law_stream_in_chunks(messages: Seq<Message>, chunks: Seq<Seq<u8>>, capacity: nat)
    requires
        joined(chunks) == frames(messages),
        forall|i: int| 0 <= i < chunks.len() ==> 0 < (#[trigger] chunks[i]).len(),
        forall|i: int|
            0 <= i < chunks.len() ==> (#[trigger] chunks[i]).len() + MAX_FRAME_LEN <= capacity,
    ensures
        read_all(Seq::empty(), capacity, chunks) == (Step {
            messages,
            held: Seq::empty(),
            signal: None,
        }),
{
    let nothing = Seq::<u8>::empty();
    assert(nothing + joined(chunks) =~= joined(chunks));
    law_no_delimiter(nothing);
    lemma_stream_in_chunks(messages, nothing, chunks, capacity);
    assert(drain(nothing).messages + read_all(nothing, capacity, chunks).messages =~= read_all(
        nothing,
        capacity,
        chunks,
    ).messages);
}

/// A frame delivered in two parts, cut anywhere, gives nothing at the first
/// part and exactly its message at the second, with nothing left pending.
pub proof fn law_split_delivery(message: Message, cut: int, capacity: nat)
    requires
        0 < cut < frame(message).len(),
        frame(message).len() < capacity,
    ensures
        read_step(Seq::empty(), capacity, frame(message).take(cut)) == (Step {
            messages: Seq::empty(),
            held: frame(message).take(cut),
            signal: None,
        }),
        read_step(frame(message).take(cut), capacity, frame(message).skip(cut)) == (Step {
            messages: seq![message],
            held: Seq::empty(),
            signal: None,
        }),
{
    let whole = frame(message);
    let head = whole.take(cut);
    let tail = whole.skip(cut);
    law_prefix_needs_more(message, cut);
    assert(Seq::<u8>::empty() + head =~= head);
    assert(head + tail =~= whole);
    law_frame_drains(message);
}

/// A bare payload delivered in two parts, cut anywhere, gives nothing at the
/// first part and its message at the second: reading the same bytes again
/// from the start, with more behind them, finds the message.
pub proof fn law_split_payload(message: Message, cut: int, capacity: nat)
    requires
        0 < cut < payload(message).len(),
        payload(message).len() <= capacity,
    ensures
        plain_step(Seq::empty(), capacity, payload(message).take(cut)) == (PlainStep {
            outcome: None,
            held: payload(message).take(cut),
        }),
        plain_step(payload(message).take(cut), capacity, payload(message).skip(cut)) == (PlainStep {
            outcome: Some(Ok(message)),
            held: Seq::empty(),
        }),
{
    let whole = payload(message);
    let head = whole.take(cut);
    lemma_parse_prefix(message, cut);
    assert(Seq::<u8>::empty() + head =~= head);
    assert(head + whole.skip(cut) =~= whole);
    lemma_parse_payload(message, Seq::empty());
    assert(whole + Seq::<u8>::empty() =~= whole);
}

/// Bytes without a delimiter never yield a message and are never taken for a
/// malformed frame: the reader waits while they fit, and reports the capacity
/// exceeded once they fill the buffer.
pub proof fn law_no_delimiter_stall(held: Seq<u8>, capacity: nat, chunk: Seq<u8>)
    requires
        delimiter_free(held),
        delimiter_free(chunk),
        chunk.len() > 0,
    ensures
        read_step(held, capacity, chunk).messages == Seq::<Message>::empty(),
        read_step(held, capacity, chunk).signal != Some(TcpError::FramingError),
        read_step(held, capacity, chunk).signal != Some(TcpError::TransportClosed),
        held.len() + chunk.len() < capacity ==> read_step(held, capacity, chunk) == (Step {
            messages: Seq::empty(),
            held: held + chunk,
            signal: None,
        }),
        held.len() + chunk.len() >= capacity ==> read_step(held, capacity, chunk).signal == Some(
            TcpError::CapacityExceeded,
        ),
{
    assert(delimiter_free(held + chunk));
    law_no_delimiter(held + chunk);
}

/// After a reset the first frame of the next connection decodes to its
/// message, whatever the previous connection left undecoded.
pub proof fn law_connection_isolation(message: Message, capacity: nat)
    requires
        frame(message).len() < capacity,
    ensures
        read_step(Seq::empty(), capacity, frame(message)) == (Step {
            messages: seq![message],
            held: Seq::empty(),
            signal: None,
        }),
{
    let whole = frame(message);
    lemma_frame_shape(message);
    assert(Seq::<u8>::empty() + whole =~= whole);
    law_frame_drains(message);
}

} // verus!
