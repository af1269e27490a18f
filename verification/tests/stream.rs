use gateway_proxy::message::{CommandMessage, DecodeError, MessagePayload, MessagePayloadType};
use gateway_proxy::stream::{StreamHeader, StreamMessage, StreamPayload};

fn buffer(bytes: &[u8]) -> MessagePayload {
    let mut array = [0u8; 32];
    array[..bytes.len()].copy_from_slice(bytes);
    MessagePayload::new(array)
}

fn header(version_length: u8, command_ack_payload: u8) -> StreamHeader {
    StreamHeader {
        last: 1,
        sender: 2,
        destination: 3,
        version_length,
        command_ack_payload,
        _type: 5,
        sensor: 6,
    }
}

#[test]
fn header_bitfields() {
    // version 2, signed, length 9; command 5, ack requested, not an ack, type 6
    let h = header(0b01001_1_10, 0b110_0_1_101);
    assert_eq!(h.version(), 2);
    assert!(h.signed());
    assert_eq!(h.length(), 9);
    assert_eq!(h.command(), 5);
    assert!(h.request_ack());
    assert!(!h.is_ack());
    assert_eq!(h.payload_type(), 6);
    let all = header(0xFF, 0xFF);
    assert_eq!(all.version(), 3);
    assert_eq!(all.length(), 31);
    assert_eq!(all.command(), 7);
    assert!(all.is_ack());
    assert_eq!(all.payload_type(), 7);
    let none = header(0, 0);
    assert_eq!(none.version(), 0);
    assert!(!none.signed());
    assert_eq!(none.length(), 0);
    assert!(!none.request_ack());
}

#[test]
fn changing_the_type_changes_nothing_else() {
    for byte in [0x00u8, 0x1F, 0xE0, 0xFF, 0xA5, 0x5A] {
        let h = header(0x4A, byte);
        for tag in 0..8u8 {
            let changed = h.with_payload_type(tag);
            assert_eq!(changed.payload_type(), tag);
            assert_eq!(changed.command(), h.command());
            assert_eq!(changed.request_ack(), h.request_ack());
            assert_eq!(changed.is_ack(), h.is_ack());
            assert_eq!(changed.command_ack_payload & 0x1F, byte & 0x1F);
            assert_eq!(
                (changed.last, changed.sender, changed.destination),
                (h.last, h.sender, h.destination)
            );
            assert_eq!(changed.version_length, h.version_length);
            assert_eq!((changed._type, changed.sensor), (h._type, h.sensor));
        }
    }
}

#[test]
fn changing_the_length_changes_nothing_else() {
    let h = header(0b10101_1_01, 0x77);
    let changed = h.with_length(25);
    assert_eq!(changed.length(), 25);
    assert_eq!(changed.version(), 1);
    assert!(changed.signed());
    assert_eq!(changed.version_length, 0b11001_1_01);
    assert_eq!(changed.command_ack_payload, 0x77);
}

#[test]
fn the_type_decides_how_the_value_is_read() {
    let body = [0x01u8, 0x80, 0xFF, 0xFF, 0x02, 0x41, 0x42];
    let mut bytes = vec![9, 8, 7, 3 << 3, 0, 5, 6];
    bytes.extend_from_slice(&body);
    let expected = [
        StreamPayload::Byte(0x01),
        StreamPayload::UInt16(0x8001),
        StreamPayload::Int16(-32767),
        StreamPayload::UInt32(0xFFFF_8001),
        StreamPayload::Int32(-32767),
        StreamPayload::Float { bits: 0xFFFF_8001, precision: 2 },
        StreamPayload::Presentation { version: 0x01, sensor_type: 0x80 },
        StreamPayload::Data(vec![0x01, 0x80, 0xFF]),
    ];
    for (tag, value) in expected.into_iter().enumerate() {
        bytes[4] = (tag as u8) << 5 | 0x0B;
        let message = buffer(&bytes).message().unwrap();
        assert_eq!(message.payload.tag(), tag as u8);
        assert_eq!(message.payload, value);
        assert_eq!(message.header.last, 9);
        assert_eq!(message.header.sender, 8);
        assert_eq!(message.header.destination, 7);
        assert_eq!(message.header.length(), 3);
        assert_eq!(message.header.command(), 3);
        assert!(message.header.request_ack());
        assert_eq!(message.header._type, 5);
        assert_eq!(message.header.sensor, 6);
    }
}

#[test]
fn a_float_keeps_its_bits() {
    let value = 21.5f32;
    let mut bytes = vec![0, 0, 0, 5 << 3, 5 << 5, 0, 0];
    bytes.extend_from_slice(&value.to_le_bytes());
    bytes.push(1);
    match buffer(&bytes).message().unwrap().payload {
        StreamPayload::Float { bits, precision } => {
            assert_eq!(f32::from_bits(bits), 21.5);
            assert_eq!(precision, 1);
        }
        other => panic!("not a float: {:?}", other),
    }
}

#[test]
fn a_length_over_25_overflows() {
    for length in 26..32u8 {
        let bytes = [0, 0, 0, length << 3 | 0x07, 0, 0, 0];
        assert_eq!(buffer(&bytes).message(), Err(DecodeError::LengthOverflow));
    }
    let longest = [0, 0, 0, 25 << 3, 7 << 5, 0, 0, 1, 2, 3];
    let message = buffer(&longest).message().unwrap();
    let mut data = vec![1, 2, 3];
    data.resize(25, 0);
    assert_eq!(message.payload, StreamPayload::Data(data));
}

#[test]
fn the_header_is_read_without_the_value() {
    let payload = buffer(&[0xFF, 0xFF, 0xFF, 0xFF, 0xFF, 0xFF, 0xFE, 0x40, 0x01, 0x02]);
    let h = payload.header();
    assert_eq!((h.last, h.sender, h.destination), (0xFF, 0xFF, 0xFF));
    assert_eq!(h._type, 0xFF);
    assert_eq!(h.sensor, 0xFE);
    assert_eq!(payload.message(), Err(DecodeError::LengthOverflow));
}

fn samples() -> Vec<StreamPayload> {
    vec![
        StreamPayload::Byte(0xAB),
        StreamPayload::UInt16(0xBEEF),
        StreamPayload::Int16(-2),
        StreamPayload::Int16(i16::MIN),
        StreamPayload::UInt32(0xDEAD_BEEF),
        StreamPayload::Int32(-123_456_789),
        StreamPayload::Int32(i32::MIN),
        StreamPayload::Int32(i32::MAX),
        StreamPayload::Float { bits: 3.25f32.to_bits(), precision: 2 },
        StreamPayload::Presentation { version: 2, sensor_type: 17 },
        StreamPayload::Data(vec![]),
        StreamPayload::Data(b"hello".to_vec()),
        StreamPayload::Data((1..=25).collect()),
    ]
}

fn message_with(payload: StreamPayload) -> StreamMessage {
    let length = match &payload {
        StreamPayload::Data(data) => data.len() as u8,
        _ => 4,
    };
    let h = header(0x06, 0x15)
        .with_length(length)
        .with_payload_type(payload.tag());
    StreamMessage { header: h, payload }
}

#[test]
fn exact_bytes_of_a_buffer() {
    let message = StreamMessage {
        header: StreamHeader {
            last: 1,
            sender: 2,
            destination: 3,
            version_length: 2 << 3 | 2,
            command_ack_payload: 2 << 5 | 1,
            _type: 24,
            sensor: 7,
        },
        payload: StreamPayload::Int16(-2),
    };
    let expected = buffer(&[1, 2, 3, 0x12, 0x41, 24, 7, 0xFE, 0xFF]);
    assert_eq!(message.to_payload(), expected);
    let wide = message_with(StreamPayload::UInt32(0x0403_0201));
    assert_eq!(&wide.to_payload().bin_payload[7..12], &[1, 2, 3, 4, 0]);
}

#[test]
fn the_buffer_of_a_message_holds_that_message() {
    for payload in samples() {
        let message = message_with(payload);
        assert_eq!(message.to_payload().message(), Ok(message));
    }
}

#[test]
fn a_binary_message_survives_the_line() {
    for payload in samples() {
        let binary = message_with(payload);
        let frame = CommandMessage::from_stream(12, 255, 1, 3, &binary);
        assert_eq!(frame.command, 4);
        assert_eq!((frame.node_id, frame.child_sensor_id), (12, 255));
        assert_eq!((frame.ack, frame.sub_type), (1, 3));
        let back = CommandMessage::new(&frame.encode()).unwrap();
        assert_eq!(back, frame);
        assert_eq!(back.stream_message(), Ok(Some(binary)));
    }
}

#[test]
fn other_messages_hold_no_binary_message() {
    let message = CommandMessage {
        node_id: 1,
        child_sensor_id: 1,
        command: 1,
        ack: 0,
        sub_type: 0,
        payload: MessagePayloadType::OtherPayload(vec![1, 2, 3]),
    };
    assert_eq!(message.stream_message(), Ok(None));
    let overflow = CommandMessage {
        node_id: 1,
        child_sensor_id: 255,
        command: 4,
        ack: 0,
        sub_type: 0,
        payload: MessagePayloadType::StreamPayload(buffer(&[
            0xFF, 0xFF, 0xFF, 0xFF, 0xFF, 0xFF, 0xFE, 0x40, 0x01, 0x02,
        ])),
    };
    assert_eq!(overflow.stream_message(), Err(DecodeError::LengthOverflow));
    let fitting = CommandMessage::new(&String::from("1;255;4;0;0;FFFFFF1FFFFFFE400102")).unwrap();
    let binary = fitting.stream_message().unwrap().unwrap();
    assert_eq!(binary.payload, StreamPayload::Data(vec![0x40, 0x01, 0x02]));
    assert_eq!(binary.header._type, 0xFF);
}

#[test]
fn a_new_message_names_its_value() {
    let base = header(0x07, 0x1F);
    let widths = [1u8, 2, 2, 2, 4, 4, 4, 4, 5, 2, 0, 5, 25];
    for (payload, width) in samples().into_iter().zip(widths) {
        let message = StreamMessage::new(base, payload.clone()).unwrap();
        assert!(message.is_well_formed());
        assert_eq!(message.payload, payload);
        assert_eq!(message.header.payload_type(), payload.tag());
        assert_eq!(message.header.length(), width);
        assert_eq!(message.header.version(), 3);
        assert!(message.header.signed());
        assert_eq!(message.header.command(), 7);
        assert!(message.header.request_ack());
        assert!(message.header.is_ack());
        assert_eq!(message.to_payload().message(), Ok(message));
    }
    assert_eq!(StreamMessage::new(base, StreamPayload::Data(vec![0; 26])), None);
}

#[test]
fn a_message_that_disagrees_with_its_header_is_not_well_formed() {
    let agreeing = message_with(StreamPayload::Data(vec![1, 2, 3]));
    assert!(agreeing.is_well_formed());
    let wrong_type = StreamMessage {
        header: agreeing.header.with_payload_type(0),
        payload: agreeing.payload.clone(),
    };
    assert!(!wrong_type.is_well_formed());
    let wrong_length = StreamMessage {
        header: agreeing.header.with_length(4),
        payload: agreeing.payload.clone(),
    };
    assert!(!wrong_length.is_well_formed());
    let too_long = StreamMessage {
        header: agreeing.header.with_length(26).with_payload_type(1),
        payload: StreamPayload::UInt16(1),
    };
    assert!(!too_long.is_well_formed());
}

#[test]
fn packed_fields_are_read_back() {
    let h = StreamHeader::pack(1, 2, 3, 2, true, 9, 5, true, false, 6, 7, 8);
    assert_eq!(h.version_length, 0b01001_1_10);
    assert_eq!(h.command_ack_payload, 0b110_0_1_101);
    assert_eq!((h.last, h.sender, h.destination, h._type, h.sensor), (1, 2, 3, 7, 8));
    assert_eq!((h.version(), h.signed(), h.length()), (2, true, 9));
    assert_eq!((h.command(), h.request_ack(), h.is_ack(), h.payload_type()), (5, true, false, 6));
    let zero = StreamHeader::pack(0, 0, 0, 0, false, 0, 0, false, true, 0, 0, 0);
    assert_eq!((zero.version_length, zero.command_ack_payload), (0, 0x10));
}

#[test]
fn a_line_is_decoded_with_its_binary_message() {
    let binary = StreamMessage::new(header(0, 0), StreamPayload::UInt16(0x1234)).unwrap();
    let frame = CommandMessage::from_stream(9, 1, 0, 7, &binary);
    let decoded = gateway_proxy::stream::decode(&frame.encode());
    assert_eq!(decoded, Ok((frame, Some(binary))));
    assert_eq!(
        gateway_proxy::stream::decode(&String::from("12;6;1;0;0;2A")),
        Ok((CommandMessage::new(&String::from("12;6;1;0;0;2A")).unwrap(), None))
    );
    assert_eq!(
        gateway_proxy::stream::decode(&String::from("1;255;4;0;0;FFFFFFFFFFFFFE400102")),
        Err(DecodeError::LengthOverflow)
    );
    assert_eq!(
        gateway_proxy::stream::decode(&String::from("1;255;4;0;0")),
        Err(DecodeError::MalformedFrame)
    );
    assert_eq!(
        gateway_proxy::stream::decode(&String::from("1;255;4;0;0;F")),
        Err(DecodeError::PayloadDecodeError)
    );
}
