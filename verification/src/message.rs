//! The wire message: one line of text, six fields separated by `;`.
//!
//! ```text
//! node-id ; child-sensor-id ; command ; ack ; type ; payload
//! ```
//!
//! The first five fields are small decimal numbers, the sixth is hexadecimal.
//! A line with more than six fields is read by its first six.
//!
//! Under the command `STREAM` the payload fills a buffer of 32 bytes that
//! holds a binary message: a header of seven bytes and a value of at most 25.
//! A line whose header declares a longer value does not decode.

use vstd::prelude::*;
use crate::hexcode::{decode_hex, encode_hex_upper, hex_bytes, hex_upper_text, is_hex_text};
use crate::hexcode::{lemma_hex_round_trip, lemma_upper_digit_value};
use crate::text::{decimal_text, field, field_count, line_bytes, parse_u8};
use crate::text::{field_slice, find_separators, read_u8, string_from_ascii, write_u8};
use crate::text::{is_ascii_bytes, is_plain, lemma_append_field, lemma_decimal_round_trip};
use crate::text::{lemma_single_field, SEPARATOR};

verus! {

/// The size of the buffer that holds a binary message.
pub const MAX_MESSAGE_LENGTH: usize = 32;

/// The size of the header of a binary message.
pub const HEADER_SIZE: usize = 7;

/// The most bytes that the value of a binary message can have.
pub const MAX_PAYLOAD: usize = MAX_MESSAGE_LENGTH - HEADER_SIZE;

/// The command of a wire message, the third field of its line.
#[allow(non_camel_case_types)]
#[derive(Debug, Clone, Copy, PartialEq, Eq, Structural)]
pub enum CommandType {
    PRESENTATION,
    SET,
    REQ,
    INTERNAL,
    STREAM,
}

impl CommandType {
    /// The command that a number names: 0 to 4, in the order of the variants.
    pub open spec fn of(value: u8) -> Option<CommandType> {
        match value {
            0 => Some(CommandType::PRESENTATION),
            1 => Some(CommandType::SET),
            2 => Some(CommandType::REQ),
            3 => Some(CommandType::INTERNAL),
            4 => Some(CommandType::STREAM),
            _ => None,
        }
    }

    /// The number that names a command.
    pub open spec fn code_of(self) -> u8 {
        match self {
            CommandType::PRESENTATION => 0,
            CommandType::SET => 1,
            CommandType::REQ => 2,
            CommandType::INTERNAL => 3,
            CommandType::STREAM => 4,
        }
    }

    /// The command that a number names, if it names one.
    pub fn from_u8(value: u8) -> (command: Option<CommandType>)
        ensures
            command == Self::of(value),
    {
        match value {
            0 => Some(CommandType::PRESENTATION),
            1 => Some(CommandType::SET),
            2 => Some(CommandType::REQ),
            3 => Some(CommandType::INTERNAL),
            4 => Some(CommandType::STREAM),
            _ => None,
        }
    }

    /// The same as `from_u8`.
    pub fn _u8(value: u8) -> (command: Option<CommandType>)
        ensures
            command == Self::of(value),
    {
        CommandType::from_u8(value)
    }

    /// The number that names the command.
    pub fn code(&self) -> (value: u8)
        ensures
            value == self.code_of(),
            Self::of(value) == Some(*self),
    {
        match self {
            CommandType::PRESENTATION => 0,
            CommandType::SET => 1,
            CommandType::REQ => 2,
            CommandType::INTERNAL => 3,
            CommandType::STREAM => 4,
        }
    }
}

/// What a `STREAM` message is about, the fifth field of its line.
#[derive(Debug, Clone, Copy, PartialEq, Eq, Structural)]
pub enum CommandSubType {
    StFirmwareConfigRequest,
    StFirmwareConfigResponse,
    /// Request for a firmware block.
    StFirmwareRequest,
    /// Response with a firmware block.
    StFirmwareResponse,
}

impl CommandSubType {
    /// The kind that a number names: 0 to 3, in the order of the variants.
    pub open spec fn of(value: u8) -> Option<CommandSubType> {
        match value {
            0 => Some(CommandSubType::StFirmwareConfigRequest),
            1 => Some(CommandSubType::StFirmwareConfigResponse),
            2 => Some(CommandSubType::StFirmwareRequest),
            3 => Some(CommandSubType::StFirmwareResponse),
            _ => None,
        }
    }

    /// The number that names a kind.
    pub open spec fn code_of(self) -> u8 {
        match self {
            CommandSubType::StFirmwareConfigRequest => 0,
            CommandSubType::StFirmwareConfigResponse => 1,
            CommandSubType::StFirmwareRequest => 2,
            CommandSubType::StFirmwareResponse => 3,
        }
    }

    /// The kind that a number names, if it names one.
    pub fn from_u8(value: u8) -> (kind: Option<CommandSubType>)
        ensures
            kind == Self::of(value),
    {
        match value {
            0 => Some(CommandSubType::StFirmwareConfigRequest),
            1 => Some(CommandSubType::StFirmwareConfigResponse),
            2 => Some(CommandSubType::StFirmwareRequest),
            3 => Some(CommandSubType::StFirmwareResponse),
            _ => None,
        }
    }

    /// The same as `from_u8`.
    pub fn _u8(value: u8) -> (kind: Option<CommandSubType>)
        ensures
            kind == Self::of(value),
    {
        CommandSubType::from_u8(value)
    }

    /// The number that names the kind.
    pub fn code(&self) -> (value: u8)
        ensures
            value == self.code_of(),
            Self::of(value) == Some(*self),
    {
        match self {
            CommandSubType::StFirmwareConfigRequest => 0,
            CommandSubType::StFirmwareConfigResponse => 1,
            CommandSubType::StFirmwareRequest => 2,
            CommandSubType::StFirmwareResponse => 3,
        }
    }
}

/// One of the five numeric fields of a line.
#[derive(Debug, Clone, Copy, PartialEq, Eq, Structural)]
pub enum Field {
    NodeId,
    ChildSensorId,
    Command,
    Ack,
    SubType,
}

/// Why a line, or the binary message in it, could not be read.
#[derive(Debug, Clone, Copy, PartialEq, Eq, Structural)]
pub enum DecodeError {
    /// The line has fewer than six fields.
    MalformedFrame,
    /// A numeric field does not write an unsigned 8-bit number.
    FieldParseError { field: Field },
    /// The payload field is not hexadecimal text of even length.
    PayloadDecodeError,
    /// The header of a binary message declares a value longer than the buffer
    /// has room for.
    LengthOverflow,
}

impl DecodeError {
    /// The text that describes the error.
    pub open spec fn message_of(self) -> Seq<char> {
        match self {
            DecodeError::MalformedFrame =>
                "Invalid Command Message, should have 6 components separated by ';'"@,
            DecodeError::FieldParseError { field: Field::NodeId } =>
                "Error parsing string to node_id"@,
            DecodeError::FieldParseError { field: Field::ChildSensorId } =>
                "Error parsing string to child_sensor_id"@,
            DecodeError::FieldParseError { field: Field::Command } =>
                "Error parsing string to command"@,
            DecodeError::FieldParseError { field: Field::Ack } => "Error parsing string to ack"@,
            DecodeError::FieldParseError { field: Field::SubType } =>
                "Error parsing string to sub_type"@,
            DecodeError::PayloadDecodeError => "Error while decoding hex"@,
            DecodeError::LengthOverflow => "Declared payload length exceeds the buffer"@,
        }
    }

    /// Describes the error in words.
    pub fn message(&self) -> (text: String)
        ensures
            text@ == self.message_of(),
    {
        match self {
            DecodeError::MalformedFrame =>
                "Invalid Command Message, should have 6 components separated by ';'".to_owned(),
            DecodeError::FieldParseError { field: Field::NodeId } =>
                "Error parsing string to node_id".to_owned(),
            DecodeError::FieldParseError { field: Field::ChildSensorId } =>
                "Error parsing string to child_sensor_id".to_owned(),
            DecodeError::FieldParseError { field: Field::Command } =>
                "Error parsing string to command".to_owned(),
            DecodeError::FieldParseError { field: Field::Ack } =>
                "Error parsing string to ack".to_owned(),
            DecodeError::FieldParseError { field: Field::SubType } =>
                "Error parsing string to sub_type".to_owned(),
            DecodeError::PayloadDecodeError => "Error while decoding hex".to_owned(),
            DecodeError::LengthOverflow => "Declared payload length exceeds the buffer".to_owned(),
        }
    }
}

/// The 32-byte buffer of a `STREAM` message.
#[derive(Debug, Clone, Copy, PartialEq, Eq)]
pub struct MessagePayload {
    pub bin_payload: [u8; 32],
}

impl View for MessagePayload {
    type V = Seq<u8>;

    open spec fn view(&self) -> Seq<u8> {
        self.bin_payload@
    }
}

impl MessagePayload {
    /// Wraps a buffer.
    pub fn new(bin_payload: [u8; 32]) -> (payload: MessagePayload)
        ensures
            payload.bin_payload == bin_payload,
    {
        MessagePayload { bin_payload }
    }

    /// The number of bytes that the header in the buffer declares for the
    /// value behind it.
    pub fn declared_length(&self) -> (length: u8)
        ensures
            length == declared_length(self@),
            length < 32,
    {
        let byte: u8 = self.bin_payload[3];
        assert(byte >> 3 < 32) by (bit_vector);
        byte >> 3
    }
}

/// The payload of a wire message.
#[derive(Debug, Clone, PartialEq, Eq)]
pub enum MessagePayloadType {
    /// Of a `STREAM` message: the decoded bytes in a buffer of fixed size.
    StreamPayload(MessagePayload),
    /// Of any other message: the decoded bytes as they are.
    OtherPayload(Vec<u8>),
}

/// The payload of a wire message, as a value of mathematics.
pub enum PayloadView {
    Stream(Seq<u8>),
    Other(Seq<u8>),
}

impl PayloadView {
    /// The bytes that the payload holds.
    pub open spec fn bytes(self) -> Seq<u8> {
        match self {
            PayloadView::Stream(bytes) => bytes,
            PayloadView::Other(bytes) => bytes,
        }
    }
}

impl View for MessagePayloadType {
    type V = PayloadView;

    open spec fn view(&self) -> PayloadView {
        match self {
            MessagePayloadType::StreamPayload(payload) => PayloadView::Stream(payload@),
            MessagePayloadType::OtherPayload(bytes) => PayloadView::Other(bytes@),
        }
    }
}

/// A wire message.
#[derive(Debug, Clone, PartialEq, Eq)]
pub struct CommandMessage {
    pub node_id: u8,
    pub child_sensor_id: u8,
    pub command: u8,
    pub ack: u8,
    pub sub_type: u8,
    pub payload: MessagePayloadType,
}

/// A wire message, as a value of mathematics.
pub struct MessageView {
    pub node_id: u8,
    pub child_sensor_id: u8,
    pub command: u8,
    pub ack: u8,
    pub sub_type: u8,
    pub payload: PayloadView,
}

impl View for CommandMessage {
    type V = MessageView;

    open spec fn view(&self) -> MessageView {
        MessageView {
            node_id: self.node_id,
            child_sensor_id: self.child_sensor_id,
            command: self.command,
            ack: self.ack,
            sub_type: self.sub_type,
            payload: self.payload@,
        }
    }
}

/// The bytes of a payload in a buffer of 32: cut off after 32, filled up with
/// zeros.
pub open spec fn fit_buffer(bytes: Seq<u8>) -> Seq<u8> {
    Seq::new(
        MAX_MESSAGE_LENGTH as nat,
        |i: int|
            if i < bytes.len() {
                bytes[i]
            } else {
                0u8
            },
    )
}

/// Whether a number names the command `STREAM`.
pub open spec fn is_stream(command: u8) -> bool {
    CommandType::of(command) == Some(CommandType::STREAM)
}

/// The payload that the decoded bytes make under a command: the buffer of a
/// binary message under `STREAM`, the bytes themselves under any other.
pub open spec fn payload_under(command: u8, bytes: Seq<u8>) -> PayloadView {
    if is_stream(command) {
        PayloadView::Stream(fit_buffer(bytes))
    } else {
        PayloadView::Other(bytes)
    }
}

/// The number of bytes that the header in a buffer declares for the value
/// behind it: bits 3 to 7 of the fourth byte.
pub open spec fn declared_length(buffer: Seq<u8>) -> u8 {
    buffer[3] >> 3
}

/// Whether a payload is a buffer whose header declares more bytes than the
/// buffer has behind the header.
pub open spec fn overflows(payload: PayloadView) -> bool {
    payload matches PayloadView::Stream(buffer) && declared_length(buffer) > MAX_PAYLOAD
}

impl MessageView {
    /// A message is well formed when it carries the payload of its command:
    /// under `STREAM` a buffer of 32 bytes whose header declares no more than
    /// the 25 bytes behind it, under any other command plain bytes.
    pub open spec fn well_formed(self) -> bool {
        match self.payload {
            PayloadView::Stream(buffer) => {
                &&& is_stream(self.command)
                &&& buffer.len() == MAX_MESSAGE_LENGTH
                &&& declared_length(buffer) <= MAX_PAYLOAD
            },
            PayloadView::Other(_) => !is_stream(self.command),
        }
    }
}

/// What the six fields of a line hold, before the buffer of a `STREAM`
/// message is looked into. This is the first step of `decode_message`.
///
/// The checks come in this order: the number of fields, the payload, the
/// command, the node id, the child sensor id, the ack, the type.
pub open spec fn frame_fields(line: Seq<u8>) -> Result<MessageView, DecodeError> {
    if field_count(line) < 6 {
        Err(DecodeError::MalformedFrame)
    } else if !is_hex_text(field(line, 5)) {
        Err(DecodeError::PayloadDecodeError)
    } else if parse_u8(field(line, 2)) is None {
        Err(DecodeError::FieldParseError { field: Field::Command })
    } else if parse_u8(field(line, 0)) is None {
        Err(DecodeError::FieldParseError { field: Field::NodeId })
    } else if parse_u8(field(line, 1)) is None {
        Err(DecodeError::FieldParseError { field: Field::ChildSensorId })
    } else if parse_u8(field(line, 3)) is None {
        Err(DecodeError::FieldParseError { field: Field::Ack })
    } else if parse_u8(field(line, 4)) is None {
        Err(DecodeError::FieldParseError { field: Field::SubType })
    } else {
        Ok(
            MessageView {
                node_id: parse_u8(field(line, 0)).unwrap(),
                child_sensor_id: parse_u8(field(line, 1)).unwrap(),
                command: parse_u8(field(line, 2)).unwrap(),
                ack: parse_u8(field(line, 3)).unwrap(),
                sub_type: parse_u8(field(line, 4)).unwrap(),
                payload: payload_under(
                    parse_u8(field(line, 2)).unwrap(),
                    hex_bytes(field(line, 5)),
                ),
            },
        )
    }
}

/// What a line decodes to: what its fields hold, unless that is a `STREAM`
/// message whose header declares a value longer than the buffer has room
/// for. The errors of the fields come first.
pub open spec fn decode_message(line: Seq<u8>) -> Result<MessageView, DecodeError> {
    match frame_fields(line) {
        Err(error) => Err(error),
        Ok(message) => if overflows(message.payload) {
            Err(DecodeError::LengthOverflow)
        } else {
            Ok(message)
        },
    }
}

/// The line that a message encodes to: the five numbers in decimal and the
/// payload in upper-case hexadecimal, joined by separators.
pub open spec fn encode_frame(message: MessageView) -> Seq<u8> {
    decimal_text(message.node_id).push(SEPARATOR) + decimal_text(message.child_sensor_id).push(
        SEPARATOR,
    ) + decimal_text(message.command).push(SEPARATOR) + decimal_text(message.ack).push(SEPARATOR)
        + decimal_text(message.sub_type).push(SEPARATOR) + hex_upper_text(message.payload.bytes())
}

/// Copies bytes into a buffer of 32: what does not fit is left out, what is
/// missing is zero.
pub fn vector_as_u8_32_array(vector: Vec<u8>) -> (arr: [u8; 32])
    ensures
        arr@ == fit_buffer(vector@),
{
    let mut arr: [u8; 32] = [0u8; 32];
    let mut i: usize = 0;
    while i < MAX_MESSAGE_LENGTH && i < vector.len()
        invariant
            i <= MAX_MESSAGE_LENGTH,
            i <= vector.len(),
            forall|j: int| 0 <= j < i ==> arr@[j] == vector@[j],
            forall|j: int| i <= j < MAX_MESSAGE_LENGTH ==> arr@[j] == 0,
        decreases MAX_MESSAGE_LENGTH - i,
    {
        arr[i] = vector[i];
        i += 1;
    }
    assert(arr@ =~= fit_buffer(vector@));
    arr
}


impl MessageView {
    /// Whether the line of the message fits in memory.
    pub open spec fn encodable(self) -> bool {
        2 * self.payload.bytes().len() <= isize::MAX
    }
}

impl CommandMessage {
    /// Decodes a line.
    ///
    /// The line needs at least six fields. The first five must each write an
    /// unsigned 8-bit number, the sixth must be hexadecimal text of even
    /// length. Under the command `STREAM` the decoded bytes go into a buffer of
    /// 32 bytes, and the header in that buffer must not declare a value of
    /// more than 25 bytes; under any other command the bytes are kept as they
    /// are.
    pub fn new(command_message: &String) -> (result: Result<CommandMessage, DecodeError>)
        ensures
            result matches Ok(message) ==> decode_message(line_bytes(command_message@)) == Ok::<
                MessageView,
                DecodeError,
            >(message@) && message@.well_formed(),
            result matches Err(error) ==> decode_message(line_bytes(command_message@)) == Err::<
                MessageView,
                DecodeError,
            >(error),
    {
        let line: &[u8] = command_message.as_str().as_bytes();
        let positions = find_separators(line);
        if positions.len() < 5 {
            return Err(DecodeError::MalformedFrame);
        }
        let bytes = match decode_hex(field_slice(line, &positions, 5)) {
            Ok(bytes) => bytes,
            Err(_) => {
                return Err(DecodeError::PayloadDecodeError);
            },
        };
        let command = match read_u8(field_slice(line, &positions, 2)) {
            Some(value) => value,
            None => {
                return Err(DecodeError::FieldParseError { field: Field::Command });
            },
        };
        let node_id = match read_u8(field_slice(line, &positions, 0)) {
            Some(value) => value,
            None => {
                return Err(DecodeError::FieldParseError { field: Field::NodeId });
            },
        };
        let child_sensor_id = match read_u8(field_slice(line, &positions, 1)) {
            Some(value) => value,
            None => {
                return Err(DecodeError::FieldParseError { field: Field::ChildSensorId });
            },
        };
        let ack = match read_u8(field_slice(line, &positions, 3)) {
            Some(value) => value,
            None => {
                return Err(DecodeError::FieldParseError { field: Field::Ack });
            },
        };
        let sub_type = match read_u8(field_slice(line, &positions, 4)) {
            Some(value) => value,
            None => {
                return Err(DecodeError::FieldParseError { field: Field::SubType });
            },
        };
        let payload = if command == CommandType::STREAM.code() {
            let buffer = MessagePayload::new(vector_as_u8_32_array(bytes));
            if buffer.declared_length() as usize > MAX_PAYLOAD {
                return Err(DecodeError::LengthOverflow);
            }
            MessagePayloadType::StreamPayload(buffer)
        } else {
            MessagePayloadType::OtherPayload(bytes)
        };
        Ok(CommandMessage { node_id, child_sensor_id, command, ack, sub_type, payload })
    }

    /// Whether the message carries the payload of its command.
    pub fn is_well_formed(&self) -> (ok: bool)
        ensures
            ok == self@.well_formed(),
    {
        match &self.payload {
            MessagePayloadType::StreamPayload(buffer) => self.command == CommandType::STREAM.code()
                && buffer.declared_length() as usize <= MAX_PAYLOAD,
            MessagePayloadType::OtherPayload(_) => self.command != CommandType::STREAM.code(),
        }
    }

    /// Whether the line of the message fits in memory, which `encode` asks for.
    pub fn is_encodable(&self) -> (ok: bool)
        ensures
            ok == self@.encodable(),
    {
        match &self.payload {
            MessagePayloadType::StreamPayload(_) => true,
            MessagePayloadType::OtherPayload(bytes) => bytes.len() <= (isize::MAX as usize) / 2,
        }
    }

    /// Encodes the message as a line, without a line end.
    pub fn encode(&self) -> (line: String)
        requires
            self@.encodable(),
        ensures
            line_bytes(line@) == encode_frame(self@),
    {
        let mut buffer: Vec<u8> = Vec::new();
        write_u8(&mut buffer, self.node_id);
        buffer.push(SEPARATOR);
        write_u8(&mut buffer, self.child_sensor_id);
        buffer.push(SEPARATOR);
        write_u8(&mut buffer, self.command);
        buffer.push(SEPARATOR);
        write_u8(&mut buffer, self.ack);
        buffer.push(SEPARATOR);
        write_u8(&mut buffer, self.sub_type);
        buffer.push(SEPARATOR);
        let mut text = match &self.payload {
            MessagePayloadType::StreamPayload(payload) => encode_hex_upper(
                payload.bin_payload.as_slice(),
            ),
            MessagePayloadType::OtherPayload(bytes) => encode_hex_upper(bytes.as_slice()),
        };
        buffer.append(&mut text);
        proof {
            assert(buffer@ =~= encode_frame(self@));
            lemma_encode_frame_ascii(self@);
        }
        string_from_ascii(buffer)
    }
}

/// The line of a message is ASCII.
pub proof fn lemma_encode_frame_ascii(message: MessageView)
    ensures
        is_ascii_bytes(encode_frame(message)),
{
    let payload = message.payload.bytes();
    lemma_decimal_round_trip(message.node_id);
    lemma_decimal_round_trip(message.child_sensor_id);
    lemma_decimal_round_trip(message.command);
    lemma_decimal_round_trip(message.ack);
    lemma_decimal_round_trip(message.sub_type);
    lemma_hex_text_plain(payload);
}


/// The upper-case hexadecimal text of any bytes is plain ASCII.
pub proof fn lemma_hex_text_plain(bytes: Seq<u8>)
    ensures
        is_plain(hex_upper_text(bytes)),
        is_ascii_bytes(hex_upper_text(bytes)),
{
    assert forall|i: int| 0 <= i < hex_upper_text(bytes).len() implies {
        &&& #[trigger] hex_upper_text(bytes)[i] != SEPARATOR
        &&& hex_upper_text(bytes)[i] < 0x80
    } by {
        lemma_upper_digit_value(bytes[i / 2] / 16);
        lemma_upper_digit_value(bytes[i / 2] % 16);
    }
}

/// The fields of the line of a message are the texts it was joined from.
proof fn lemma_encode_frame_fields(message: MessageView)
    ensures
        field_count(encode_frame(message)) == 6,
        field(encode_frame(message), 0) == decimal_text(message.node_id),
        field(encode_frame(message), 1) == decimal_text(message.child_sensor_id),
        field(encode_frame(message), 2) == decimal_text(message.command),
        field(encode_frame(message), 3) == decimal_text(message.ack),
        field(encode_frame(message), 4) == decimal_text(message.sub_type),
        field(encode_frame(message), 5) == hex_upper_text(message.payload.bytes()),
{
    let t0 = decimal_text(message.node_id);
    let t1 = decimal_text(message.child_sensor_id);
    let t2 = decimal_text(message.command);
    let t3 = decimal_text(message.ack);
    let t4 = decimal_text(message.sub_type);
    let t5 = hex_upper_text(message.payload.bytes());
    lemma_decimal_round_trip(message.node_id);
    lemma_decimal_round_trip(message.child_sensor_id);
    lemma_decimal_round_trip(message.command);
    lemma_decimal_round_trip(message.ack);
    lemma_decimal_round_trip(message.sub_type);
    lemma_hex_text_plain(message.payload.bytes());
    let l1 = t0.push(SEPARATOR) + t1;
    let l2 = l1.push(SEPARATOR) + t2;
    let l3 = l2.push(SEPARATOR) + t3;
    let l4 = l3.push(SEPARATOR) + t4;
    let l5 = l4.push(SEPARATOR) + t5;
    lemma_single_field(t0);
    lemma_append_field(t0, t1);
    assert(field(l1, 0) == t0);
    lemma_append_field(l1, t2);
    assert(field(l2, 0) == t0 && field(l2, 1) == t1);
    lemma_append_field(l2, t3);
    assert(field(l3, 0) == t0 && field(l3, 1) == t1 && field(l3, 2) == t2);
    lemma_append_field(l3, t4);
    assert(field(l4, 0) == t0 && field(l4, 1) == t1 && field(l4, 2) == t2 && field(l4, 3) == t3);
    lemma_append_field(l4, t5);
    assert(field(l5, 0) == t0 && field(l5, 1) == t1 && field(l5, 2) == t2 && field(l5, 3) == t3
        && field(l5, 4) == t4);
    assert(encode_frame(message) =~= l5);
}

/// Decoding undoes encoding: the line of a well-formed message decodes to that
/// message.
pub proof fn lemma_round_trip(message: MessageView)
    requires
        message.well_formed(),
    ensures
        decode_message(encode_frame(message)) == Ok::<MessageView, DecodeError>(message),
{
    lemma_encode_frame_fields(message);
    lemma_decimal_round_trip(message.node_id);
    lemma_decimal_round_trip(message.child_sensor_id);
    lemma_decimal_round_trip(message.command);
    lemma_decimal_round_trip(message.ack);
    lemma_decimal_round_trip(message.sub_type);
    lemma_hex_round_trip(message.payload.bytes());
    if message.payload is Stream {
        assert(fit_buffer(message.payload.bytes()) =~= message.payload.bytes());
    }
}


/// The answer of `command_sub_type` for a line that holds no binary message.
pub const NO_SUB_TYPE: u8 = 9;

/// The command of a line of exactly six fields whose third field writes a
/// number from 0 to 4; of any other line, none.
pub open spec fn command_type_of(line: Seq<u8>) -> Option<CommandType> {
    if field_count(line) == 6 {
        match parse_u8(field(line, 2)) {
            Some(value) => CommandType::of(value),
            None => None,
        }
    } else {
        None
    }
}

/// The type byte of the binary message in a line of exactly six fields whose
/// payload is hexadecimal: the sixth byte of the buffer that the payload fills.
/// Of any other line, `NO_SUB_TYPE`.
pub open spec fn command_sub_type_of(line: Seq<u8>) -> u8 {
    if field_count(line) == 6 && is_hex_text(field(line, 5)) {
        fit_buffer(hex_bytes(field(line, 5)))[5]
    } else {
        NO_SUB_TYPE
    }
}

/// Reads the command of a line without decoding the rest of it.
pub fn command_type(message_string: &String) -> (command: Option<CommandType>)
    ensures
        command == command_type_of(line_bytes(message_string@)),
{
    let line: &[u8] = message_string.as_str().as_bytes();
    let positions = find_separators(line);
    if positions.len() == 5 {
        match read_u8(field_slice(line, &positions, 2)) {
            Some(value) => CommandType::from_u8(value),
            None => None,
        }
    } else {
        None
    }
}

/// Reads the type byte of the binary message in a line.
pub fn command_sub_type(message_string: &String) -> (sub_type: u8)
    ensures
        sub_type == command_sub_type_of(line_bytes(message_string@)),
{
    let line: &[u8] = message_string.as_str().as_bytes();
    let positions = find_separators(line);
    if positions.len() == 5 {
        match decode_hex(field_slice(line, &positions, 5)) {
            Ok(bytes) => {
                let payload = MessagePayload::new(vector_as_u8_32_array(bytes));
                payload.bin_payload[5]
            },
            Err(_) => NO_SUB_TYPE,
        }
    } else {
        NO_SUB_TYPE
    }
}

} // verus!
