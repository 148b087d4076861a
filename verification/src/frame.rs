//! The frame codec.
//!
//! A message travels as one frame: its payload, stuffed so that it holds no
//! delimiter, and one delimiter byte behind it. The payload is the variant's
//! tag followed by the duty value, both as variable-length integers. A reader
//! learns where a frame ends only by finding its delimiter.
//!
//! The bytes are those of the `postcard` format with consistent-overhead
//! byte stuffing, so that a peer may use that crate at its end of the
//! connection.

use vstd::prelude::*;
use vstd::slice::slice_subrange;
use crate::error::ErrorKind;
use crate::message::Message;
use crate::stuffing::{
    delimiter_free, find_delimiter, first_delimiter, lemma_first_delimiter,
    lemma_first_delimiter_at, lemma_first_delimiter_extend, lemma_stuffed_shape,
    lemma_unstuff_stuffed, stuff, stuffed, unstuff, unstuffed, DELIMITER,
};
use crate::varint::{
    lemma_scan_bounds, lemma_scan_prefix, lemma_scan_varint, lemma_varint_len, put_varint, scan,
    span, take_varint, varint, Scan, Scanned,
};

verus! {

/// The size of every transport and working buffer, in bytes.
pub const BUFFER_SIZE: usize = 64;

/// The length of the longest frame.
pub const MAX_FRAME_LEN: usize = 6;

/// The tag of the duty-cycle variant.
pub const DUTY_CYCLE_TAG: u32 = 0;

/// A tag is read as a 32-bit integer: five bytes at most, the fifth up to 15.
pub const TAG_WIDTH: u8 = 5;

/// The largest fifth byte of a tag.
pub const TAG_TOP: u8 = 15;

/// A duty value is read as a 16-bit integer: three bytes at most, the third
/// up to 3.
pub const DUTY_WIDTH: u8 = 3;

/// The largest third byte of a duty value.
pub const DUTY_TOP: u8 = 3;

/// The payload of a message: its tag, then its duty value.
pub open spec fn payload(message: Message) -> Seq<u8> {
    varint(DUTY_CYCLE_TAG as nat) + varint(message.duty_value() as nat)
}

/// The frame of a message: its stuffed payload, then the delimiter.
pub open spec fn frame(message: Message) -> Seq<u8> {
    stuffed(payload(message)).push(DELIMITER)
}

/// What reading a payload yields.
#[derive(Debug, Clone, Copy, PartialEq, Eq, Structural)]
pub enum Parsed {
    /// The payload starts with this message.
    Message(Message),
    /// The payload ends before the message does.
    Incomplete,
    /// The payload holds an unknown tag or an integer out of range.
    Invalid,
}

/// Reads a message off the front of a payload. Bytes behind it are ignored.
pub open spec fn parse(bytes: Seq<u8>) -> Parsed {
    match scan(bytes, TAG_WIDTH as nat, TAG_TOP as nat) {
        Scanned::Short => Parsed::Incomplete,
        Scanned::Bad => Parsed::Invalid,
        Scanned::Value { value: tag, used } => if tag != DUTY_CYCLE_TAG {
            Parsed::Invalid
        } else {
            match scan(bytes.skip(used as int), DUTY_WIDTH as nat, DUTY_TOP as nat) {
                Scanned::Short => Parsed::Incomplete,
                Scanned::Bad => Parsed::Invalid,
                Scanned::Value { value, .. } => Parsed::Message(Message::DutyCycle(value as u16)),
            }
        },
    }
}

/// What an attempt to decode the front of a buffer yields.
pub enum Decoding {
    /// A frame of `consumed` bytes that holds `message`.
    Decoded { message: Message, consumed: nat },
    /// No delimiter yet: the frame is not complete.
    NeedMoreData,
    /// A frame of `consumed` bytes that holds no message.
    Malformed { consumed: nat },
}

/// Decodes the frame at the front of `buffer`.
pub open spec fn decode(buffer: Seq<u8>) -> Decoding {
    let end = first_delimiter(buffer);
    if end >= buffer.len() {
        Decoding::NeedMoreData
    } else {
        match unstuffed(buffer.take(end as int)) {
            None => Decoding::Malformed { consumed: end + 1 },
            Some(bytes) => match parse(bytes) {
                Parsed::Message(message) => Decoding::Decoded { message, consumed: end + 1 },
                _ => Decoding::Malformed { consumed: end + 1 },
            },
        }
    }
}

/// What [`decode_attempt`] returns: the executable form of [`Decoding`].
#[derive(Debug, Clone, Copy, PartialEq, Eq)]
pub enum DecodeOutcome {
    /// A frame of so many bytes that holds this message.
    Decoded(Message, usize),
    /// No delimiter yet: append more bytes and try again from the start of
    /// the unconsumed region.
    NeedMoreData,
    /// A frame of so many bytes that holds no message. The bytes count as
    /// consumed.
    Malformed(usize),
}

impl View for DecodeOutcome {
    type V = Decoding;

    open spec fn view(&self) -> Decoding {
        match *self {
            DecodeOutcome::Decoded(message, consumed) => Decoding::Decoded {
                message,
                consumed: consumed as nat,
            },
            DecodeOutcome::NeedMoreData => Decoding::NeedMoreData,
            DecodeOutcome::Malformed(consumed) => Decoding::Malformed { consumed: consumed as nat },
        }
    }
}

/// The output buffer is shorter than the frame. This is a sizing defect, not
/// a transient condition: the same call fails again.
#[derive(Debug, Clone, Copy, PartialEq, Eq, Structural)]
pub struct CapacityExceeded;

impl CapacityExceeded {
    /// The kind of this failure.
    pub fn kind(&self) -> (kind: ErrorKind)
        ensures
            kind == ErrorKind::CapacityExceeded,
    {
        ErrorKind::CapacityExceeded
    }
}

/// The widths and limits of the two integers match their types.
pub proof fn lemma_spans()
    ensures
        span(TAG_WIDTH as nat, TAG_TOP as nat) == u32::MAX + 1,
        span(DUTY_WIDTH as nat, DUTY_TOP as nat) == u16::MAX + 1,
{
    reveal_with_fuel(span, 6);
}

/// A payload has between two and four bytes.
pub proof fn lemma_payload_len(message: Message)
    ensures
        2 <= payload(message).len() <= 4,
        varint(DUTY_CYCLE_TAG as nat).len() == 1,
{
    lemma_spans();
    lemma_varint_len(message.duty_value() as nat, DUTY_WIDTH as nat, DUTY_TOP as nat);
}

/// Reading a payload gives its message, whatever follows the payload.
pub proof fn lemma_parse_payload(message: Message, rest: Seq<u8>)
    ensures
        parse(payload(message) + rest) == Parsed::Message(message),
{
    lemma_spans();
    let tag = varint(DUTY_CYCLE_TAG as nat);
    let duty = varint(message.duty_value() as nat);
    let bytes = payload(message) + rest;
    assert(bytes =~= tag + (duty + rest));
    lemma_scan_varint(DUTY_CYCLE_TAG as nat, duty + rest, TAG_WIDTH as nat, TAG_TOP as nat);
    assert(bytes.skip(tag.len() as int) =~= duty + rest);
    lemma_scan_varint(message.duty_value() as nat, rest, DUTY_WIDTH as nat, DUTY_TOP as nat);
}

/// A payload cut short reads as incomplete, at every cut: a message is never
/// made up from part of one.
pub proof fn lemma_parse_prefix(message: Message, cut: int)
    requires
        0 <= cut < payload(message).len(),
    ensures
        parse(payload(message).take(cut)) == Parsed::Incomplete,
{
    lemma_spans();
    lemma_payload_len(message);
    let tag = varint(DUTY_CYCLE_TAG as nat);
    let duty = varint(message.duty_value() as nat);
    let bytes = payload(message).take(cut);
    if cut == 0 {
        assert(bytes.len() == 0);
    } else {
        assert(bytes =~= tag + duty.take(cut - 1));
        lemma_scan_varint(
            DUTY_CYCLE_TAG as nat,
            duty.take(cut - 1),
            TAG_WIDTH as nat,
            TAG_TOP as nat,
        );
        assert(bytes.skip(1) =~= duty.take(cut - 1));
        lemma_scan_prefix(message.duty_value() as nat, cut - 1, DUTY_WIDTH as nat, DUTY_TOP as nat);
    }
}

/// A frame is two bytes longer than its payload, fits the buffers with
/// margin, and holds the delimiter as its last byte only.
pub proof fn lemma_frame_shape(message: Message)
    ensures
        frame(message).len() == payload(message).len() + 2,
        4 <= frame(message).len() <= MAX_FRAME_LEN < BUFFER_SIZE,
        first_delimiter(frame(message)) == frame(message).len() - 1,
        frame(message).take(frame(message).len() - 1) == stuffed(payload(message)),
{
    lemma_payload_len(message);
    let body = stuffed(payload(message));
    lemma_stuffed_shape(payload(message));
    assert(payload(message).len() / 254 == 0);
    assert(frame(message).take(body.len() as int) =~= body);
    lemma_first_delimiter_at(frame(message), body.len() as int);
}

/// Decoding a frame gives its message and the frame's length: for every duty
/// value, what was encoded is what is decoded.
pub proof fn law_round_trip(message: Message)
    ensures
        decode(frame(message)) == (Decoding::Decoded {
            message,
            consumed: frame(message).len(),
        }),
{
    law_round_trip_in_stream(message, Seq::empty());
    assert(frame(message) + Seq::<u8>::empty() =~= frame(message));
}

/// Decoding gives the first frame's message and length, whatever bytes follow
/// the frame in the buffer.
pub proof fn law_round_trip_in_stream(message: Message, rest: Seq<u8>)
    ensures
        decode(frame(message) + rest) == (Decoding::Decoded {
            message,
            consumed: frame(message).len(),
        }),
{
    lemma_frame_shape(message);
    lemma_first_delimiter_extend(frame(message), rest);
    let buffer = frame(message) + rest;
    let end = first_delimiter(buffer);
    assert(buffer.take(end as int) =~= stuffed(payload(message)));
    lemma_payload_len(message);
    lemma_unstuff_stuffed(payload(message));
    lemma_parse_payload(message, Seq::empty());
    assert(payload(message) + Seq::<u8>::empty() =~= payload(message));
}

/// Bytes without a delimiter never decode and are never malformed: the
/// decoder asks for more, and only for such bytes.
pub proof fn law_no_delimiter(buffer: Seq<u8>)
    ensures
        delimiter_free(buffer) <==> decode(buffer) == Decoding::NeedMoreData,
{
    lemma_first_delimiter(buffer);
    if delimiter_free(buffer) {
        if first_delimiter(buffer) < buffer.len() {
            assert(buffer[first_delimiter(buffer) as int] != DELIMITER);
        }
    } else {
        assert(buffer.take(buffer.len() as int) =~= buffer);
    }
}

/// No proper prefix of a frame decodes: a frame delivered in two parts gives
/// nothing until its second part has arrived.
pub proof fn law_prefix_needs_more(message: Message, cut: int)
    requires
        0 <= cut < frame(message).len(),
    ensures
        decode(frame(message).take(cut)) == Decoding::NeedMoreData,
{
    lemma_frame_shape(message);
    lemma_stuffed_shape(payload(message));
    let head = frame(message).take(cut);
    assert forall|i: int| 0 <= i < head.len() implies head[i] != DELIMITER by {
        assert(head[i] == stuffed(payload(message))[i]);
    }
    law_no_delimiter(head);
}

/// What a decoded or malformed frame consumes is the bytes up to and
/// including the first delimiter.
pub proof fn law_consumed(buffer: Seq<u8>)
    ensures
        decode(buffer) matches Decoding::Decoded { consumed, .. } ==> consumed == first_delimiter(
            buffer,
        ) + 1 && consumed <= buffer.len(),
        decode(buffer) matches Decoding::Malformed { consumed } ==> consumed == first_delimiter(
            buffer,
        ) + 1 && consumed <= buffer.len(),
{
    lemma_first_delimiter(buffer);
}

/// Once a buffer holds a delimiter, bytes appended to it do not change what
/// its front decodes to.
pub proof fn law_decode_stable(buffer: Seq<u8>, more: Seq<u8>)
    requires
        decode(buffer) != Decoding::NeedMoreData,
    ensures
        decode(buffer + more) == decode(buffer),
{
    lemma_first_delimiter(buffer);
    lemma_first_delimiter_extend(buffer, more);
    let end = first_delimiter(buffer) as int;
    assert((buffer + more).take(end) =~= buffer.take(end));
}

/// Appends the payload of `message` to `out`.
pub fn write_payload(message: &Message, out: &mut Vec<u8>)
    ensures
        final(out)@ == old(out)@ + payload(*message),
{
    put_varint(DUTY_CYCLE_TAG, out);
    put_varint(message.duty() as u32, out);
    assert(out@ =~= old(out)@ + payload(*message));
}

/// Reads a message off the front of a payload.
pub fn parse_payload(bytes: &[u8]) -> (parsed: Parsed)
    ensures
        parsed == parse(bytes@),
{
    proof {
        lemma_spans();
        assert(bytes@.skip(0) =~= bytes@);
        lemma_scan_bounds(bytes@, TAG_WIDTH as nat, TAG_TOP as nat);
    }
    match take_varint(bytes, 0, TAG_WIDTH, TAG_TOP) {
        Scan::Short => Parsed::Incomplete,
        Scan::Bad => Parsed::Invalid,
        Scan::Value { value: tag, used } => {
            if tag != DUTY_CYCLE_TAG {
                Parsed::Invalid
            } else {
                proof {
                    lemma_scan_bounds(bytes@.skip(used as int), DUTY_WIDTH as nat, DUTY_TOP as nat);
                }
                match take_varint(bytes, used, DUTY_WIDTH, DUTY_TOP) {
                    Scan::Short => Parsed::Incomplete,
                    Scan::Bad => Parsed::Invalid,
                    Scan::Value { value, .. } => Parsed::Message(Message::DutyCycle(value as u16)),
                }
            }
        },
    }
}

/// The frame of `message`, as bytes of its own.
pub fn frame_of(message: &Message) -> (bytes: Vec<u8>)
    ensures
        bytes@ == frame(*message),
{
    let mut body: Vec<u8> = Vec::new();
    write_payload(message, &mut body);
    proof {
        lemma_payload_len(*message);
        assert(body@ =~= payload(*message));
    }
    let mut bytes: Vec<u8> = Vec::new();
    stuff(body.as_slice(), &mut bytes);
    bytes.push(DELIMITER);
    assert(bytes@ =~= frame(*message));
    bytes
}

/// Writes the frame of `message` to the front of `output` and returns its
/// length. A buffer shorter than the frame is left as it is.
pub fn encode(message: &Message, output: &mut [u8]) -> (written: Result<usize, CapacityExceeded>)
    ensures
        final(output)@.len() == old(output)@.len(),
        match written {
            Ok(n) => n == frame(*message).len() && n <= old(output)@.len() && final(output)@
                == frame(*message) + old(output)@.skip(n as int),
            Err(_) => frame(*message).len() > old(output)@.len() && final(output)@ == old(
                output,
            )@,
        },
{
    let bytes = frame_of(message);
    let n = bytes.len();
    if n > output.len() {
        return Err(CapacityExceeded);
    }
    let mut i: usize = 0;
    while i < n
        invariant
            i <= n == bytes.len() <= output.len(),
            output@.len() == old(output)@.len(),
            output@ == bytes@.take(i as int) + old(output)@.skip(i as int),
        decreases n - i,
    {
        output[i] = bytes[i];
        i = i + 1;
        assert(output@ =~= bytes@.take(i as int) + old(output)@.skip(i as int));
    }
    assert(bytes@.take(n as int) =~= bytes@);
    Ok(n)
}

/// Decodes the frame at the front of `buffer`, which is left untouched.
pub fn decode_attempt(buffer: &[u8]) -> (outcome: DecodeOutcome)
    ensures
        outcome@ == decode(buffer@),
{
    assert(buffer@.skip(0) =~= buffer@);
    let end = find_delimiter(buffer, 0);
    if end >= buffer.len() {
        return DecodeOutcome::NeedMoreData;
    }
    let body = slice_subrange(buffer, 0, end);
    assert(body@ =~= buffer@.take(end as int));
    match unstuff(body) {
        None => DecodeOutcome::Malformed(end + 1),
        Some(bytes) => match parse_payload(bytes.as_slice()) {
            Parsed::Message(message) => DecodeOutcome::Decoded(message, end + 1),
            _ => DecodeOutcome::Malformed(end + 1),
        },
    }
}

} // verus!
