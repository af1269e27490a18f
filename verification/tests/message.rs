use gateway_proxy::message::{
    command_sub_type, command_type, vector_as_u8_32_array, CommandMessage, CommandSubType,
    CommandType, DecodeError, Field, MessagePayload, MessagePayloadType, NO_SUB_TYPE,
};

fn line(text: &str) -> String {
    String::from(text)
}

fn buffer_of(bytes: &[u8]) -> [u8; 32] {
    let mut buffer = [0u8; 32];
    buffer[..bytes.len()].copy_from_slice(bytes);
    buffer
}

// The header in this payload declares 31 bytes (0xFF in the fourth byte), six
// more than a buffer has behind its header, so the line is refused. Its
// command is read all the same by `command_type`, and the line that declares
// the three bytes it has decodes to the same five numbers.
#[test]
fn parse_correct_command_type() {
    let message_string = "1;255;4;0;0;FFFFFFFFFFFFFE400102";
    assert_eq!(
        CommandMessage::new(&String::from(message_string)),
        Err(DecodeError::LengthOverflow)
    );
    assert_eq!(
        command_type(&String::from(message_string)),
        Some(CommandType::STREAM)
    );
    let message_string = "1;255;4;0;0;FFFFFF1FFFFFFE400102";
    let command_message = CommandMessage::new(&String::from(message_string)).unwrap();
    assert_eq!(
        CommandType::from_u8(command_message.command),
        Some(CommandType::STREAM)
    );
}

#[test]
fn parse_correct_command_sub_type() {
    let message_string = "1;255;4;0;0;FFFFFFFFFFFFFE400102";
    assert_eq!(
        CommandMessage::new(&String::from(message_string)),
        Err(DecodeError::LengthOverflow)
    );
    let message_string = "1;255;4;0;0;FFFFFF1FFFFFFE400102";
    let command_message = CommandMessage::new(&String::from(message_string)).unwrap();
    assert_eq!(
        CommandSubType::from_u8(command_message.sub_type),
        Some(CommandSubType::StFirmwareConfigRequest)
    );
}

#[test]
fn a_declared_length_over_25_is_refused() {
    // 0xD0 >> 3 == 26, 0xC8 >> 3 == 25
    assert_eq!(
        CommandMessage::new(&line("1;0;4;0;0;000000D0")),
        Err(DecodeError::LengthOverflow)
    );
    assert_eq!(
        CommandMessage::new(&line("1;0;4;0;0;000000FF")),
        Err(DecodeError::LengthOverflow)
    );
    let longest = CommandMessage::new(&line("1;0;4;0;0;000000CF")).unwrap();
    assert_eq!(
        longest.payload,
        MessagePayloadType::StreamPayload(MessagePayload::new(buffer_of(&[0, 0, 0, 0xCF])))
    );
    assert_eq!(MessagePayload::new(buffer_of(&[0, 0, 0, 0xCF])).declared_length(), 25);
    assert_eq!(MessagePayload::new(buffer_of(&[0, 0, 0, 0xD0])).declared_length(), 26);
}

#[test]
fn only_a_stream_message_declares_a_length() {
    for command in [0u8, 1, 2, 3, 5, 255] {
        let text = format!("1;0;{};0;0;000000D0", command);
        let message = CommandMessage::new(&text).unwrap();
        assert_eq!(
            message.payload,
            MessagePayloadType::OtherPayload(vec![0, 0, 0, 0xD0])
        );
    }
}

#[test]
fn the_errors_of_the_fields_come_before_the_length() {
    assert_eq!(
        CommandMessage::new(&line("x;0;4;0;0;000000D0")),
        Err(DecodeError::FieldParseError { field: Field::NodeId })
    );
    assert_eq!(
        CommandMessage::new(&line("1;0;4;0;;000000D0")),
        Err(DecodeError::FieldParseError { field: Field::SubType })
    );
    assert_eq!(
        CommandMessage::new(&line("1;0;4;0;0;000000D")),
        Err(DecodeError::PayloadDecodeError)
    );
}

#[test]
fn decodes_every_field_of_a_stream_line() {
    let message = CommandMessage::new(&line("1;255;4;0;0;FFFFFF1FFFFFFE400102")).unwrap();
    assert_eq!(message.node_id, 1);
    assert_eq!(message.child_sensor_id, 255);
    assert_eq!(message.command, 4);
    assert_eq!(message.ack, 0);
    assert_eq!(message.sub_type, 0);
    let expected = buffer_of(&[0xFF, 0xFF, 0xFF, 0x1F, 0xFF, 0xFF, 0xFE, 0x40, 0x01, 0x02]);
    assert_eq!(
        message.payload,
        MessagePayloadType::StreamPayload(MessagePayload::new(expected))
    );
}

#[test]
fn decodes_other_payload_as_plain_bytes() {
    let message = CommandMessage::new(&line("12;6;1;1;2;0aFf10")).unwrap();
    assert_eq!(
        message,
        CommandMessage {
            node_id: 12,
            child_sensor_id: 6,
            command: 1,
            ack: 1,
            sub_type: 2,
            payload: MessagePayloadType::OtherPayload(vec![0x0a, 0xff, 0x10]),
        }
    );
}

#[test]
fn decodes_an_empty_payload() {
    let message = CommandMessage::new(&line("255;255;3;0;3;")).unwrap();
    assert_eq!(message.payload, MessagePayloadType::OtherPayload(vec![]));
    let stream = CommandMessage::new(&line("0;0;4;0;1;")).unwrap();
    assert_eq!(
        stream.payload,
        MessagePayloadType::StreamPayload(MessagePayload::new([0u8; 32]))
    );
}

#[test]
fn reads_the_first_six_of_more_fields() {
    let message = CommandMessage::new(&line("1;2;3;0;5;0102;junk;more")).unwrap();
    assert_eq!(message.sub_type, 5);
    assert_eq!(message.payload, MessagePayloadType::OtherPayload(vec![1, 2]));
}

#[test]
fn accepts_a_plus_sign_and_leading_zeros() {
    let message = CommandMessage::new(&line("+7;007;0;+0;0255;")).unwrap();
    assert_eq!(message.node_id, 7);
    assert_eq!(message.child_sensor_id, 7);
    assert_eq!(message.command, 0);
    assert_eq!(message.ack, 0);
    assert_eq!(message.sub_type, 255);
}

#[test]
fn cuts_a_stream_payload_after_32_bytes() {
    let mut text = String::from("1;1;4;0;0;");
    for i in 0..40u8 {
        text.push_str(&format!("{:02X}", i));
    }
    let message = CommandMessage::new(&text).unwrap();
    let mut expected = [0u8; 32];
    for i in 0..32u8 {
        expected[i as usize] = i;
    }
    assert_eq!(
        message.payload,
        MessagePayloadType::StreamPayload(MessagePayload::new(expected))
    );
}

#[test]
fn five_fields_are_a_malformed_frame() {
    assert_eq!(
        CommandMessage::new(&line("1;255;4;0;0")),
        Err(DecodeError::MalformedFrame)
    );
    assert_eq!(CommandMessage::new(&line("")), Err(DecodeError::MalformedFrame));
    assert_eq!(
        CommandMessage::new(&line(";;;;")),
        Err(DecodeError::MalformedFrame)
    );
}

#[test]
fn each_numeric_field_reports_itself() {
    let cases = [
        ("x;2;3;0;5;", Field::NodeId),
        ("1;;3;0;5;", Field::ChildSensorId),
        ("1;2;256;0;5;", Field::Command),
        ("1;2;3;-1;5;", Field::Ack),
        ("1;2;3;0; 5;", Field::SubType),
        ("+;2;3;0;5;", Field::NodeId),
    ];
    for (text, field) in cases {
        assert_eq!(
            CommandMessage::new(&line(text)),
            Err(DecodeError::FieldParseError { field })
        );
    }
}

#[test]
fn bad_hexadecimal_is_a_payload_error() {
    assert_eq!(
        CommandMessage::new(&line("1;2;3;0;5;ABC")),
        Err(DecodeError::PayloadDecodeError)
    );
    assert_eq!(
        CommandMessage::new(&line("1;2;3;0;5;0G")),
        Err(DecodeError::PayloadDecodeError)
    );
    assert_eq!(
        CommandMessage::new(&line("1;2;3;0;5;é1")),
        Err(DecodeError::PayloadDecodeError)
    );
}

#[test]
fn errors_come_in_a_fixed_order() {
    assert_eq!(
        CommandMessage::new(&line("x;y;z;a;b")),
        Err(DecodeError::MalformedFrame)
    );
    assert_eq!(
        CommandMessage::new(&line("x;y;z;a;b;Q")),
        Err(DecodeError::PayloadDecodeError)
    );
    assert_eq!(
        CommandMessage::new(&line("x;y;z;a;b;")),
        Err(DecodeError::FieldParseError { field: Field::Command })
    );
    assert_eq!(
        CommandMessage::new(&line("x;y;1;a;b;")),
        Err(DecodeError::FieldParseError { field: Field::NodeId })
    );
    assert_eq!(
        CommandMessage::new(&line("1;y;1;a;b;")),
        Err(DecodeError::FieldParseError { field: Field::ChildSensorId })
    );
    assert_eq!(
        CommandMessage::new(&line("1;1;1;a;b;")),
        Err(DecodeError::FieldParseError { field: Field::Ack })
    );
    assert_eq!(
        CommandMessage::new(&line("1;1;1;1;b;")),
        Err(DecodeError::FieldParseError { field: Field::SubType })
    );
}

#[test]
fn error_texts() {
    assert_eq!(
        DecodeError::MalformedFrame.message(),
        "Invalid Command Message, should have 6 components separated by ';'"
    );
    assert_eq!(
        DecodeError::PayloadDecodeError.message(),
        "Error while decoding hex"
    );
    assert_eq!(
        DecodeError::FieldParseError { field: Field::Command }.message(),
        "Error parsing string to command"
    );
    assert_eq!(
        DecodeError::FieldParseError { field: Field::NodeId }.message(),
        "Error parsing string to node_id"
    );
    assert_eq!(
        DecodeError::FieldParseError { field: Field::ChildSensorId }.message(),
        "Error parsing string to child_sensor_id"
    );
    assert_eq!(
        DecodeError::FieldParseError { field: Field::Ack }.message(),
        "Error parsing string to ack"
    );
    assert_eq!(
        DecodeError::FieldParseError { field: Field::SubType }.message(),
        "Error parsing string to sub_type"
    );
    assert_eq!(
        DecodeError::LengthOverflow.message(),
        "Declared payload length exceeds the buffer"
    );
}

#[test]
fn encodes_with_upper_case_digits() {
    let message = CommandMessage {
        node_id: 12,
        child_sensor_id: 6,
        command: 1,
        ack: 1,
        sub_type: 200,
        payload: MessagePayloadType::OtherPayload(vec![0x0a, 0xff, 0x10]),
    };
    assert_eq!(message.encode(), "12;6;1;1;200;0AFF10");
}

#[test]
fn encodes_the_whole_buffer_of_a_stream_message() {
    let message = CommandMessage {
        node_id: 1,
        child_sensor_id: 255,
        command: 4,
        ack: 0,
        sub_type: 0,
        payload: MessagePayloadType::StreamPayload(MessagePayload::new(buffer_of(&[
            0xFF, 0xFF, 0xFF, 0xFF, 0xFF, 0xFF, 0xFE, 0x40, 0x01, 0x02,
        ]))),
    };
    let mut expected = String::from("1;255;4;0;0;FFFFFFFFFFFFFE400102");
    for _ in 0..22 {
        expected.push_str("00");
    }
    assert_eq!(message.encode(), expected);
}

#[test]
fn decoding_undoes_encoding() {
    let mut messages = Vec::new();
    for command in 0..=5u8 {
        for &number in &[0u8, 9, 10, 99, 100, 255] {
            let payload = if command == 4 {
                let mut buffer = [0u8; 32];
                for (i, byte) in buffer.iter_mut().enumerate() {
                    *byte = number.wrapping_mul(7).wrapping_add(i as u8);
                }
                buffer[3] = (number % 26) << 3 | (number & 0x07);
                MessagePayloadType::StreamPayload(MessagePayload::new(buffer))
            } else {
                MessagePayloadType::OtherPayload(vec![number; (number % 30) as usize])
            };
            messages.push(CommandMessage {
                node_id: number,
                child_sensor_id: 255 - number,
                command,
                ack: number % 2,
                sub_type: number / 2,
                payload,
            });
        }
    }
    for message in messages {
        assert_eq!(CommandMessage::new(&message.encode()), Ok(message));
    }
}

#[test]
fn command_numbers() {
    assert_eq!(CommandType::_u8(0), Some(CommandType::PRESENTATION));
    assert_eq!(CommandType::_u8(1), Some(CommandType::SET));
    assert_eq!(CommandType::_u8(2), Some(CommandType::REQ));
    assert_eq!(CommandType::_u8(3), Some(CommandType::INTERNAL));
    assert_eq!(CommandType::_u8(4), Some(CommandType::STREAM));
    assert_eq!(CommandType::_u8(5), None);
    assert_eq!(CommandType::from_u8(255), None);
    for value in 0..5u8 {
        assert_eq!(CommandType::from_u8(value).unwrap().code(), value);
    }
}

#[test]
fn sub_type_numbers() {
    assert_eq!(
        CommandSubType::_u8(0),
        Some(CommandSubType::StFirmwareConfigRequest)
    );
    assert_eq!(
        CommandSubType::_u8(1),
        Some(CommandSubType::StFirmwareConfigResponse)
    );
    assert_eq!(CommandSubType::_u8(2), Some(CommandSubType::StFirmwareRequest));
    assert_eq!(CommandSubType::_u8(3), Some(CommandSubType::StFirmwareResponse));
    assert_eq!(CommandSubType::_u8(4), None);
    for value in 0..4u8 {
        assert_eq!(CommandSubType::from_u8(value).unwrap().code(), value);
    }
}

#[test]
fn command_type_of_a_line() {
    assert_eq!(
        command_type(&line("1;255;4;0;0;FFFFFFFFFFFFFE400102")),
        Some(CommandType::STREAM)
    );
    assert_eq!(
        command_type(&line("1;255;3;0;3;")),
        Some(CommandType::INTERNAL)
    );
    assert_eq!(command_type(&line("1;255;0;0;0;zz")), Some(CommandType::PRESENTATION));
    assert_eq!(command_type(&line("1;255;5;0;0;")), None);
    assert_eq!(command_type(&line("1;255;x;0;0;")), None);
    assert_eq!(command_type(&line("1;255;4;0;0")), None);
    assert_eq!(command_type(&line("1;255;4;0;0;00;")), None);
}

#[test]
fn command_sub_type_of_a_line() {
    assert_eq!(
        command_sub_type(&line("1;255;4;0;0;FFFFFFFFFFFFFE400102")),
        0xFF
    );
    assert_eq!(command_sub_type(&line("1;255;4;0;0;00010203041A")), 0x1A);
    assert_eq!(command_sub_type(&line("1;255;4;0;0;0001")), 0);
    assert_eq!(command_sub_type(&line("1;255;4;0;0")), NO_SUB_TYPE);
    assert_eq!(command_sub_type(&line("1;255;4;0;0;00;11")), 9);
    assert_eq!(command_sub_type(&line("1;255;4;0;0;0")), NO_SUB_TYPE);
}

#[test]
fn fills_a_buffer_of_32() {
    assert_eq!(vector_as_u8_32_array(vec![]), [0u8; 32]);
    assert_eq!(vector_as_u8_32_array(vec![1, 2, 3]), buffer_of(&[1, 2, 3]));
    let long: Vec<u8> = (1..=40).collect();
    let mut expected = [0u8; 32];
    for i in 0..32 {
        expected[i] = i as u8 + 1;
    }
    assert_eq!(vector_as_u8_32_array(long), expected);
}

#[test]
fn a_message_carries_the_payload_of_its_command() {
    let decoded = CommandMessage::new(&line("1;255;4;0;0;FFFFFF1FFFFFFE400102")).unwrap();
    assert!(decoded.is_well_formed());
    assert!(decoded.is_encodable());
    let overflowing = CommandMessage {
        payload: MessagePayloadType::StreamPayload(MessagePayload::new(buffer_of(&[0, 0, 0, 0xD0]))),
        ..decoded.clone()
    };
    assert!(!overflowing.is_well_formed());
    let other = CommandMessage::new(&line("1;255;3;0;0;FF")).unwrap();
    assert!(other.is_well_formed());
    assert!(other.is_encodable());
    let mixed = CommandMessage { command: 4, ..other.clone() };
    assert!(!mixed.is_well_formed());
    let mixed = CommandMessage { command: 1, ..decoded.clone() };
    assert!(!mixed.is_well_formed());
}
