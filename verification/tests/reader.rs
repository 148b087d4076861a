use spincoater::buffer::WorkingBuffer;
use spincoater::error::TcpError;
use spincoater::frame::{frame_of, write_payload, BUFFER_SIZE};
use spincoater::message::Message;
use spincoater::reader::{receive_unhandled_messages, recv_message, Forwarded, Received, StreamReader};
use spincoater::router::Lane;
use spincoater::supervisor::{handle_connections, Action, Connection, Event, Side};

fn stream_of(duties: &[u16]) -> Vec<u8> {
    let mut stream = Vec::new();
    for duty in duties {
        stream.extend_from_slice(&frame_of(&Message::DutyCycle(*duty)));
    }
    stream
}

/// Incremental writes like those of a byte stream must add up.
#[test]
fn test_incremental_writes() {
    let mut buf = WorkingBuffer::new(BUFFER_SIZE);
    assert!(buf.append(&b"abc"[..]));
    let written = buf.len();
    assert_eq!(buf.as_slice(), &b"abc"[..]);
    buf.consume(written);
    assert!(buf.as_slice().is_empty());
    assert!(buf.append(&b"abc"[..]));
    assert!(buf.append(&b"def"[..]));
    assert_eq!(buf.as_slice(), &b"abcdef"[..]);
}

#[test]
fn the_buffer_never_passes_its_limit() {
    let mut buffer = WorkingBuffer::new(4);
    assert_eq!(buffer.remaining(), 4);
    assert!(!buffer.is_full());
    assert!(buffer.append(&[1, 2, 3]));
    assert_eq!(buffer.remaining(), 1);
    assert!(!buffer.append(&[4, 5]));
    assert_eq!(buffer.as_slice(), &[1, 2, 3]);
    assert!(buffer.append(&[4]));
    assert!(buffer.is_full());
    assert_eq!(buffer.len(), 4);
    assert!(!buffer.append(&[5]));
    assert!(buffer.append(&[]));
    buffer.consume(1);
    assert_eq!(buffer.as_slice(), &[2, 3, 4]);
    buffer.consume(9);
    assert_eq!(buffer.len(), 0);
    assert!(buffer.append(&[7, 8]));
    buffer.reset();
    assert_eq!(buffer.len(), 0);
    assert_eq!(buffer.remaining(), 4);
}

#[test]
fn a_frame_split_anywhere_is_delivered_once() {
    for duty in [0u16, 5, 10, 127, 128, 300, 16_384, 63_999, u16::MAX] {
        let message = Message::DutyCycle(duty);
        let bytes = frame_of(&message);
        for cut in 1..bytes.len() {
            let mut reader = StreamReader::new(BUFFER_SIZE);
            let first = reader.feed(&bytes[..cut]);
            assert!(first.messages.is_empty());
            assert_eq!(first.signal, None);
            assert_eq!(reader.pending(), cut);
            let second = reader.feed(&bytes[cut..]);
            assert_eq!(second.messages, vec![message]);
            assert_eq!(second.signal, None);
            assert_eq!(reader.pending(), 0);
        }
    }
}

#[test]
fn bytes_without_a_delimiter_stall_until_the_buffer_is_full() {
    let mut reader = StreamReader::new(BUFFER_SIZE);
    for round in 0..(BUFFER_SIZE - 1) {
        let step = reader.feed(&[0x55]);
        assert!(step.messages.is_empty());
        assert_eq!(step.signal, None);
        assert_eq!(reader.pending(), round + 1);
    }
    assert_eq!(reader.room(), 1);
    let step = reader.feed(&[0x55]);
    assert!(step.messages.is_empty());
    assert_eq!(step.signal, Some(TcpError::CapacityExceeded));
    assert_eq!(reader.pending(), BUFFER_SIZE);
    let step = reader.feed(&[0x55]);
    assert_eq!(step.signal, Some(TcpError::CapacityExceeded));
    assert_eq!(reader.pending(), BUFFER_SIZE);
}

#[test]
fn a_delivery_that_does_not_fit_exceeds_the_capacity() {
    let mut reader = StreamReader::new(8);
    let step = reader.feed(&[1; 9]);
    assert!(step.messages.is_empty());
    assert_eq!(step.signal, Some(TcpError::CapacityExceeded));
    assert_eq!(reader.pending(), 0);
    // Even one that holds whole frames.
    let stream = stream_of(&[5, 10, 15]);
    let step = reader.feed(&stream);
    assert!(step.messages.is_empty());
    assert_eq!(step.signal, Some(TcpError::CapacityExceeded));
}

#[test]
fn an_empty_delivery_means_the_peer_closed() {
    let mut reader = StreamReader::new(BUFFER_SIZE);
    let _ = reader.feed(&[1, 2]);
    let step = reader.feed(&[]);
    assert!(step.messages.is_empty());
    assert_eq!(step.signal, Some(TcpError::TransportClosed));
    assert_eq!(reader.pending(), 2);
}

#[test]
fn a_malformed_frame_stops_the_reader_behind_the_good_ones() {
    let mut stream = stream_of(&[5]);
    stream.extend_from_slice(&[9, 1, 0]);
    stream.extend_from_slice(&stream_of(&[10]));
    let mut reader = StreamReader::new(BUFFER_SIZE);
    let step = reader.feed(&stream);
    assert_eq!(step.messages, vec![Message::DutyCycle(5)]);
    assert_eq!(step.signal, Some(TcpError::FramingError));
    // The malformed frame is consumed, what follows it is not.
    assert_eq!(reader.pending(), 4);
}

#[test]
fn two_frames_in_three_chunks_arrive_in_order() {
    let stream = stream_of(&[5, 10]);
    for first in 1..stream.len() - 1 {
        for second in first + 1..stream.len() {
            let mut reader = StreamReader::new(BUFFER_SIZE);
            let mut messages = Vec::new();
            for chunk in [&stream[..first], &stream[first..second], &stream[second..]] {
                let step = reader.feed(chunk);
                assert_eq!(step.signal, None);
                messages.extend(step.messages);
            }
            assert_eq!(messages, vec![Message::DutyCycle(5), Message::DutyCycle(10)]);
            assert_eq!(reader.pending(), 0);
        }
    }
}

#[test]
fn many_frames_in_one_delivery_arrive_in_order() {
    let duties: Vec<u16> = (0..10).map(|i| i * 5_000).collect();
    let stream = stream_of(&duties);
    assert!(stream.len() < BUFFER_SIZE);
    let mut reader = StreamReader::new(BUFFER_SIZE);
    let step = reader.feed(&stream);
    let expected: Vec<Message> = duties.iter().map(|duty| Message::DutyCycle(*duty)).collect();
    assert_eq!(step.messages, expected);
    assert_eq!(step.signal, None);
}

#[test]
fn a_reset_keeps_a_broken_frame_out_of_the_next_connection() {
    let mut reader = StreamReader::new(BUFFER_SIZE);
    let broken = frame_of(&Message::DutyCycle(40_000));
    let step = reader.feed(&broken[..3]);
    assert_eq!(step.signal, None);
    assert_eq!(reader.pending(), 3);
    // The peer disconnects in the middle of the frame.
    assert_eq!(reader.feed(&[]).signal, Some(TcpError::TransportClosed));
    reader.reset();
    assert_eq!(reader.pending(), 0);
    let step = reader.feed(&frame_of(&Message::DutyCycle(7)));
    assert_eq!(step.messages, vec![Message::DutyCycle(7)]);
    assert_eq!(step.signal, None);
}

#[test]
fn without_a_reset_the_old_bytes_spoil_the_next_frame() {
    let mut reader = StreamReader::new(BUFFER_SIZE);
    let broken = frame_of(&Message::DutyCycle(40_000));
    let _ = reader.feed(&broken[..3]);
    let step = reader.feed(&frame_of(&Message::DutyCycle(7)));
    assert_ne!(step.messages, vec![Message::DutyCycle(7)]);
}

#[test]
fn the_receive_buffer_of_a_socket_is_decided_on_at_once() {
    let stream = stream_of(&[5, 10]);
    assert_eq!(
        recv_message(&stream),
        Received { consumed: 4, outcome: Ok(Some(Message::DutyCycle(5))) }
    );
    assert_eq!(recv_message(&stream[..3]), Received { consumed: 0, outcome: Ok(None) });
    assert_eq!(recv_message(&[]), Received { consumed: 0, outcome: Ok(None) });
    assert_eq!(
        recv_message(&[9, 1, 0, 1]),
        Received { consumed: 3, outcome: Err(TcpError::FramingError) }
    );
    assert_eq!(recv_message(&[7; BUFFER_SIZE - 1]), Received { consumed: 0, outcome: Ok(None) });
    assert_eq!(
        recv_message(&[7; BUFFER_SIZE]),
        Received { consumed: 0, outcome: Err(TcpError::CapacityExceeded) }
    );
}

#[test]
fn the_receiving_task_forwards_or_defers() {
    let mut lane = Lane::new();
    let first = Message::DutyCycle(1);
    let second = Message::DutyCycle(2);
    let third = Message::DutyCycle(3);
    assert_eq!(receive_unhandled_messages(Ok(first), &mut lane), Forwarded::Delivered);
    assert_eq!(receive_unhandled_messages(Ok(second), &mut lane), Forwarded::Delivered);
    assert_eq!(receive_unhandled_messages(Ok(third), &mut lane), Forwarded::Deferred(third));
    assert_eq!(lane.len(), 2);
    assert_eq!(
        receive_unhandled_messages(Err(TcpError::TransportClosed), &mut lane),
        Forwarded::Stopped(TcpError::TransportClosed)
    );
    assert_eq!(lane.len(), 2);
    assert_eq!(lane.try_receive(), Some(first));
    assert_eq!(lane.try_receive(), Some(second));
    assert_eq!(lane.try_receive(), None);
}

#[test]
fn a_bare_payload_is_read_again_from_the_start_until_it_is_whole() {
    for duty in [0u16, 5, 300, u16::MAX] {
        let message = Message::DutyCycle(duty);
        let mut payload = Vec::new();
        write_payload(&message, &mut payload);
        for cut in 1..payload.len() {
            let mut reader = StreamReader::new(BUFFER_SIZE);
            assert_eq!(reader.feed_unframed(&payload[..cut]), None);
            assert_eq!(reader.pending(), cut);
            assert_eq!(reader.feed_unframed(&payload[cut..]), Some(Ok(message)));
            assert_eq!(reader.pending(), 0);
        }
    }
}

#[test]
fn a_bare_payload_that_is_wrong_ends_the_reading() {
    let mut reader = StreamReader::new(4);
    assert_eq!(reader.feed_unframed(&[1]), Some(Err(TcpError::FramingError)));
    assert_eq!(reader.pending(), 0);
    assert_eq!(reader.feed_unframed(&[0]), None);
    assert_eq!(reader.feed_unframed(&[]), Some(Err(TcpError::TransportClosed)));
    assert_eq!(reader.pending(), 0);
    assert_eq!(reader.feed_unframed(&[0, 0x80]), None);
    assert_eq!(reader.feed_unframed(&[0x80, 0x80, 0x80]), Some(Err(TcpError::CapacityExceeded)));
    assert_eq!(reader.pending(), 0);
    assert_eq!(reader.feed_unframed(&[0, 9]), Some(Ok(Message::DutyCycle(9))));
}

#[test]
fn a_stream_cut_anywhere_arrives_whole() {
    let duties: Vec<u16> = (0..40u16).map(|i| i.wrapping_mul(2_777)).collect();
    let expected: Vec<Message> = duties.iter().map(|duty| Message::DutyCycle(*duty)).collect();
    let stream = stream_of(&duties);
    let mut seed = 11u64;
    for _ in 0..300 {
        let mut reader = StreamReader::new(BUFFER_SIZE);
        let mut messages = Vec::new();
        let mut at = 0;
        while at < stream.len() {
            seed = seed
                .wrapping_mul(6_364_136_223_846_793_005)
                .wrapping_add(1_442_695_040_888_963_407);
            // Every delivery leaves room for one frame.
            let len = ((seed >> 33) as usize % 58 + 1).min(stream.len() - at);
            let step = reader.feed(&stream[at..at + len]);
            assert_eq!(step.signal, None);
            messages.extend(step.messages);
            at += len;
        }
        assert_eq!(messages, expected);
        assert_eq!(reader.pending(), 0);
    }
}

#[test]
fn a_connection_that_breaks_off_leaves_nothing_for_the_next() {
    let mut reader = StreamReader::new(BUFFER_SIZE);
    let mut state = handle_connections(Connection::Idle, Event::Started).state;
    state = handle_connections(state, Event::Accepted).state;
    assert_eq!(state, Connection::Active);
    // Half a frame, then the peer is gone.
    let broken = frame_of(&Message::DutyCycle(12_345));
    assert_eq!(reader.feed(&broken[..2]).signal, None);
    let closed = reader.feed(&[]).signal.unwrap();
    let next = handle_connections(state, Event::Stopped(Side::Receiver, closed));
    assert_eq!(
        next.action,
        Action::Terminate { ended: Side::Receiver, error: TcpError::TransportClosed }
    );
    reader.reset();
    let next = handle_connections(next.state, Event::TornDown(true));
    assert_eq!(next.action, Action::Accept);
    let next = handle_connections(next.state, Event::Accepted);
    assert_eq!(next.action, Action::Serve);
    let first = reader.feed(&frame_of(&Message::DutyCycle(54_321)));
    assert_eq!(first.messages, vec![Message::DutyCycle(54_321)]);
    assert_eq!(first.signal, None);
}
