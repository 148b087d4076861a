use spincoater::frame::{
    decode_attempt, encode, frame_of, parse_payload, write_payload, CapacityExceeded,
    DecodeOutcome, Parsed, BUFFER_SIZE, MAX_FRAME_LEN,
};
use spincoater::message::Message;
use spincoater::stuffing::{find_delimiter, stuff, unstuff};
use spincoater::varint::{put_varint, take_varint, Scan};

fn payload_of(message: Message) -> Vec<u8> {
    let mut bytes = Vec::new();
    write_payload(&message, &mut bytes);
    bytes
}

/// The correct message must be obtainable from repeated attempts on the same
/// buffer, and no proper prefix of a payload may pass for a message.
#[test]
fn test_re_deserialize() {
    for duty in 0..u16::MAX {
        let msg = Message::DutyCycle(duty);
        let send = payload_of(msg);
        for (i, _) in send
            .iter()
            .enumerate()
            .filter(|(i, _)| *i != 0 && *i < send.len())
        {
            let send_clone = send.clone();
            let error = parse_payload(&send_clone[..i]);
            assert!(matches!(error, Parsed::Incomplete));
            let output = parse_payload(&send_clone);
            assert!(matches!(output, Parsed::Message(Message::DutyCycle(out_duty)) if out_duty == duty));
        }
    }
}

/// The same for the duty values of one byte.
#[test]
fn lib_test_re_deserialize() {
    for duty in 0..u8::MAX {
        let msg = Message::DutyCycle(u16::from(duty));
        let send = payload_of(msg);
        for (i, _) in send
            .iter()
            .enumerate()
            .filter(|(i, _)| *i != 0 && *i < send.len())
        {
            let send_clone = send.clone();
            let error = parse_payload(&send_clone[..i]);
            assert!(matches!(error, Parsed::Incomplete));
            let output = parse_payload(&send_clone);
            assert!(
                matches!(output, Parsed::Message(Message::DutyCycle(out_duty)) if out_duty == u16::from(duty))
            );
        }
    }
}

/// Every frame fits the buffer that all programs use, and decodes to its
/// message.
#[test]
fn test_fits_in_buffer() {
    for duty in 0..u16::MAX {
        let msg = Message::DutyCycle(duty);
        let mut send = [0u8; BUFFER_SIZE];
        let written = encode(&msg, &mut send).expect("Failed to serialize");
        let output = decode_attempt(&send[..written]);
        assert!(matches!(output, DecodeOutcome::Decoded(Message::DutyCycle(out_duty), _) if out_duty == duty));
    }
}

#[test]
fn test_to_slice() {
    let mut buf = [0u8; 32];

    let used = postcard::to_slice(&true, &mut buf).expect("Failed to serialize");
    assert_eq!(used, &[0x01]);
}

#[test]
fn round_trip_holds_for_every_duty_value() {
    for duty in 0..=u16::MAX {
        let message = Message::DutyCycle(duty);
        let bytes = frame_of(&message);
        assert_eq!(
            decode_attempt(&bytes),
            DecodeOutcome::Decoded(message, bytes.len())
        );
    }
}

#[test]
fn frames_have_the_expected_bytes() {
    assert_eq!(frame_of(&Message::DutyCycle(0)), vec![1, 1, 1, 0]);
    assert_eq!(frame_of(&Message::DutyCycle(5)), vec![1, 2, 5, 0]);
    assert_eq!(frame_of(&Message::DutyCycle(10)), vec![1, 2, 10, 0]);
    assert_eq!(frame_of(&Message::DutyCycle(127)), vec![1, 2, 127, 0]);
    assert_eq!(frame_of(&Message::DutyCycle(128)), vec![1, 3, 0x80, 0x01, 0]);
    assert_eq!(frame_of(&Message::DutyCycle(256)), vec![1, 3, 0x80, 0x02, 0]);
    assert_eq!(frame_of(&Message::DutyCycle(16_384)), vec![1, 4, 0x80, 0x80, 0x01, 0]);
    assert_eq!(frame_of(&Message::DutyCycle(63_999)), vec![1, 4, 0xFF, 0xF3, 0x03, 0]);
    assert_eq!(frame_of(&Message::DutyCycle(u16::MAX)), vec![1, 4, 0xFF, 0xFF, 0x03, 0]);
}

#[test]
fn the_delimiter_ends_a_frame_and_occurs_nowhere_else() {
    for duty in 0..=u16::MAX {
        let bytes = frame_of(&Message::DutyCycle(duty));
        assert!(bytes.len() >= 4 && bytes.len() <= MAX_FRAME_LEN);
        assert_eq!(bytes.iter().position(|byte| *byte == 0), Some(bytes.len() - 1));
    }
}

#[test]
fn encode_writes_the_frame_to_the_front_and_nothing_else() {
    let mut buffer = [0xAAu8; 8];
    let written = encode(&Message::DutyCycle(5), &mut buffer);
    assert_eq!(written, Ok(4));
    assert_eq!(buffer, [1, 2, 5, 0, 0xAA, 0xAA, 0xAA, 0xAA]);
}

#[test]
fn encode_refuses_a_buffer_shorter_than_the_frame() {
    let mut buffer = [0xAAu8; 3];
    assert_eq!(encode(&Message::DutyCycle(5), &mut buffer), Err(CapacityExceeded));
    assert_eq!(buffer, [0xAA; 3]);
    let mut exact = [0xAAu8; 4];
    assert_eq!(encode(&Message::DutyCycle(5), &mut exact), Ok(4));
    let mut none: [u8; 0] = [];
    assert_eq!(encode(&Message::DutyCycle(5), &mut none), Err(CapacityExceeded));
    let mut five = [0u8; 5];
    assert_eq!(encode(&Message::DutyCycle(u16::MAX), &mut five), Err(CapacityExceeded));
}

#[test]
fn decoding_needs_a_delimiter() {
    assert_eq!(decode_attempt(&[]), DecodeOutcome::NeedMoreData);
    assert_eq!(decode_attempt(&[1]), DecodeOutcome::NeedMoreData);
    assert_eq!(decode_attempt(&[1, 2, 5]), DecodeOutcome::NeedMoreData);
    assert_eq!(decode_attempt(&[0xFF; 64]), DecodeOutcome::NeedMoreData);
    for duty in [0u16, 5, 200, 40_000, u16::MAX] {
        let bytes = frame_of(&Message::DutyCycle(duty));
        for cut in 0..bytes.len() {
            assert_eq!(decode_attempt(&bytes[..cut]), DecodeOutcome::NeedMoreData);
        }
    }
}

#[test]
fn decoding_takes_the_first_frame_only() {
    let mut stream = frame_of(&Message::DutyCycle(5));
    stream.extend_from_slice(&frame_of(&Message::DutyCycle(10)));
    assert_eq!(
        decode_attempt(&stream),
        DecodeOutcome::Decoded(Message::DutyCycle(5), 4)
    );
    assert_eq!(
        decode_attempt(&stream[4..]),
        DecodeOutcome::Decoded(Message::DutyCycle(10), 4)
    );
    stream.extend_from_slice(&[9, 9, 9]);
    assert_eq!(
        decode_attempt(&stream),
        DecodeOutcome::Decoded(Message::DutyCycle(5), 4)
    );
}

#[test]
fn malformed_frames_are_consumed() {
    // Nothing but the delimiter: an empty payload.
    assert_eq!(decode_attempt(&[0]), DecodeOutcome::Malformed(1));
    // A code byte that points past the end of the frame.
    assert_eq!(decode_attempt(&[5, 1, 0]), DecodeOutcome::Malformed(3));
    // An unknown variant tag.
    assert_eq!(decode_attempt(&[3, 1, 5, 0]), DecodeOutcome::Malformed(4));
    // A tag without a duty value, and a payload without a tag.
    assert_eq!(decode_attempt(&[1, 1, 0]), DecodeOutcome::Malformed(3));
    assert_eq!(decode_attempt(&[1, 0]), DecodeOutcome::Malformed(2));
    // A duty value of three bytes whose last byte exceeds sixteen bits.
    assert_eq!(decode_attempt(&[1, 4, 0xFF, 0xFF, 0x04, 0]), DecodeOutcome::Malformed(6));
    // A duty value that never ends.
    assert_eq!(decode_attempt(&[1, 4, 0xFF, 0xFF, 0xFF, 0]), DecodeOutcome::Malformed(6));
    // What follows the malformed frame is left alone.
    assert_eq!(decode_attempt(&[0, 1, 2, 5, 0]), DecodeOutcome::Malformed(1));
}

#[test]
fn longer_forms_of_the_integers_are_read_too() {
    // A tag of two bytes that is zero, and a duty value with a padded end.
    assert_eq!(
        decode_attempt(&[2, 0x80, 2, 5, 0]),
        DecodeOutcome::Decoded(Message::DutyCycle(5), 5)
    );
    assert_eq!(
        decode_attempt(&[1, 2, 0x85, 1, 0]),
        DecodeOutcome::Decoded(Message::DutyCycle(5), 5)
    );
    // Bytes behind the message inside the frame are ignored.
    assert_eq!(
        decode_attempt(&[1, 4, 5, 7, 7, 0]),
        DecodeOutcome::Decoded(Message::DutyCycle(5), 6)
    );
}

#[test]
fn payloads_are_tag_then_duty() {
    assert_eq!(payload_of(Message::DutyCycle(0)), vec![0, 0]);
    assert_eq!(payload_of(Message::DutyCycle(5)), vec![0, 5]);
    assert_eq!(payload_of(Message::DutyCycle(300)), vec![0, 0xAC, 0x02]);
    assert_eq!(payload_of(Message::DutyCycle(u16::MAX)), vec![0, 0xFF, 0xFF, 0x03]);
    let mut behind = vec![7u8];
    write_payload(&Message::DutyCycle(5), &mut behind);
    assert_eq!(behind, vec![7, 0, 5]);
}

#[test]
fn payload_parsing_tells_incomplete_from_invalid() {
    assert_eq!(parse_payload(&[]), Parsed::Incomplete);
    assert_eq!(parse_payload(&[0]), Parsed::Incomplete);
    assert_eq!(parse_payload(&[0, 0x80]), Parsed::Incomplete);
    assert_eq!(parse_payload(&[0x80]), Parsed::Incomplete);
    assert_eq!(parse_payload(&[1, 5]), Parsed::Invalid);
    assert_eq!(parse_payload(&[1]), Parsed::Invalid);
    assert_eq!(parse_payload(&[0, 0x80, 0x80, 0x80]), Parsed::Invalid);
    assert_eq!(parse_payload(&[0, 0x80, 0x80, 0x04]), Parsed::Invalid);
    assert_eq!(parse_payload(&[0x80, 0x80, 0x80, 0x80, 0x10, 5]), Parsed::Invalid);
    assert_eq!(parse_payload(&[0x80, 0x80, 0x80, 0x80, 0x00, 5]), Parsed::Message(Message::DutyCycle(5)));
    assert_eq!(parse_payload(&[0, 5, 99]), Parsed::Message(Message::DutyCycle(5)));
}

#[test]
fn varints_are_written_in_the_shortest_form() {
    let cases: [(u32, &[u8]); 8] = [
        (0, &[0]),
        (1, &[1]),
        (127, &[0x7F]),
        (128, &[0x80, 0x01]),
        (300, &[0xAC, 0x02]),
        (16_383, &[0xFF, 0x7F]),
        (16_384, &[0x80, 0x80, 0x01]),
        (u32::MAX, &[0xFF, 0xFF, 0xFF, 0xFF, 0x0F]),
    ];
    for (value, bytes) in cases {
        let mut out = vec![9u8];
        put_varint(value, &mut out);
        assert_eq!(&out[..1], &[9]);
        assert_eq!(&out[1..], bytes);
        assert_eq!(
            take_varint(&out, 1, 5, 15),
            Scan::Value { value, used: bytes.len() }
        );
    }
}

#[test]
fn varints_are_read_within_their_width() {
    assert_eq!(take_varint(&[5], 0, 3, 3), Scan::Value { value: 5, used: 1 });
    assert_eq!(take_varint(&[5], 1, 3, 3), Scan::Short);
    assert_eq!(take_varint(&[0x80], 0, 3, 3), Scan::Short);
    assert_eq!(take_varint(&[0x80, 0x80, 0x03], 0, 3, 3), Scan::Value { value: 49_152, used: 3 });
    assert_eq!(take_varint(&[0x80, 0x80, 0x04], 0, 3, 3), Scan::Bad);
    assert_eq!(take_varint(&[0x80, 0x80, 0x80, 0x00], 0, 3, 3), Scan::Bad);
    assert_eq!(take_varint(&[5], 0, 0, 3), Scan::Bad);
    assert_eq!(take_varint(&[4], 0, 1, 3), Scan::Bad);
    assert_eq!(take_varint(&[3], 0, 1, 3), Scan::Value { value: 3, used: 1 });
}

#[test]
fn stuffing_removes_every_delimiter() {
    let cases: [(&[u8], &[u8]); 7] = [
        (&[], &[1]),
        (&[0], &[1, 1]),
        (&[0, 0], &[1, 1, 1]),
        (&[5], &[2, 5]),
        (&[0, 5], &[1, 2, 5]),
        (&[5, 0], &[2, 5, 1]),
        (&[1, 0, 0x20, 0x30], &[2, 1, 3, 0x20, 0x30]),
    ];
    for (payload, stuffed) in cases {
        let mut out = vec![7u8];
        stuff(payload, &mut out);
        assert_eq!(&out[..1], &[7]);
        assert_eq!(&out[1..], stuffed);
        assert_eq!(unstuff(stuffed), Some(payload.to_vec()));
    }
}

#[test]
fn unstuffing_honours_the_long_run_code() {
    let mut body = vec![0xFFu8];
    body.extend(std::iter::repeat(7u8).take(254));
    body.extend_from_slice(&[2, 9]);
    let mut payload = vec![7u8; 254];
    payload.push(9);
    assert_eq!(unstuff(&body), Some(payload));
    assert_eq!(unstuff(&[0xFF, 1, 2]), None);
    assert_eq!(unstuff(&[3, 1]), None);
    assert_eq!(unstuff(&[2, 0, 1]), Some(vec![0, 0]));
    assert_eq!(unstuff(&[0, 1]), None);
}

#[test]
fn the_first_delimiter_is_found_from_any_start() {
    let bytes = [3u8, 0, 4, 4, 0, 9];
    assert_eq!(find_delimiter(&bytes, 0), 1);
    assert_eq!(find_delimiter(&bytes, 1), 1);
    assert_eq!(find_delimiter(&bytes, 2), 4);
    assert_eq!(find_delimiter(&bytes, 5), 6);
    assert_eq!(find_delimiter(&bytes, 6), 6);
    assert_eq!(find_delimiter(&[], 0), 0);
}
