//! The binary message inside the buffer of a `STREAM` message: a header of
//! seven bytes, then a value whose shape the header names.
//!
//! ```text
//! byte 0  last          node the message passed last
//! byte 1  sender        node the message comes from
//! byte 2  destination   node the message goes to
//! byte 3  bits 0-1 protocol version, bit 2 signed flag, bits 3-7 length of the value
//! byte 4  bits 0-2 command, bit 3 ack requested, bit 4 is an ack, bits 5-7 type of the value
//! byte 5  type          meaning depends on the command
//! byte 6  sensor        sensor that the message concerns
//! byte 7… the value, numbers lowest byte first
//! ```
//!
//! The type of the value in the header decides how the bytes after the header
//! are read; a value is never read in two ways.

use vstd::prelude::*;
use crate::little_endian::{bits_of_i16, bits_of_i32, read_i16, read_i32, read_u16, read_u32};
use crate::little_endian::{i16_bits, i16_of_bits, i32_bits, i32_of_bits, u16_bytes, u16_le};
use crate::little_endian::{lemma_little_endian_round_trip, u32_bytes, u32_le, write_u16, write_u32};
use crate::message::{decode_message, encode_frame, fit_buffer, lemma_round_trip, CommandMessage};
use crate::message::{CommandType, DecodeError, MessagePayload};
use crate::text::line_bytes;
use crate::message::{MessagePayloadType, MessageView, PayloadView, HEADER_SIZE, MAX_PAYLOAD};

verus! {

/// The seven header bytes of a binary message.
#[derive(Debug, Clone, Copy, PartialEq, Eq, Structural)]
pub struct StreamHeader {
    pub last: u8,
    pub sender: u8,
    pub destination: u8,
    pub version_length: u8,
    pub command_ack_payload: u8,
    pub _type: u8,
    pub sensor: u8,
}

impl StreamHeader {
    /// The protocol version: bits 0 and 1 of the fourth byte.
    pub open spec fn version_of(self) -> u8 {
        self.version_length & 0x03
    }

    /// The signed flag: bit 2 of the fourth byte.
    pub open spec fn signed_of(self) -> bool {
        self.version_length & 0x04 != 0
    }

    /// The declared length of the value: bits 3 to 7 of the fourth byte.
    pub open spec fn length_of(self) -> u8 {
        self.version_length >> 3
    }

    /// The command: bits 0 to 2 of the fifth byte.
    pub open spec fn command_of(self) -> u8 {
        self.command_ack_payload & 0x07
    }

    /// Whether an ack is requested: bit 3 of the fifth byte.
    pub open spec fn request_ack_of(self) -> bool {
        self.command_ack_payload & 0x08 != 0
    }

    /// Whether the message is an ack: bit 4 of the fifth byte.
    pub open spec fn is_ack_of(self) -> bool {
        self.command_ack_payload & 0x10 != 0
    }

    /// The type of the value: bits 5 to 7 of the fifth byte.
    pub open spec fn payload_type_of(self) -> u8 {
        self.command_ack_payload >> 5
    }

    /// The header with another type of the value, and nothing else changed.
    pub open spec fn with_payload_type_of(self, tag: u8) -> StreamHeader {
        StreamHeader {
            command_ack_payload: (self.command_ack_payload & 0x1f) | (tag << 5),
            ..self
        }
    }

    /// The header with another declared length, and nothing else changed.
    pub open spec fn with_length_of(self, length: u8) -> StreamHeader {
        StreamHeader { version_length: (self.version_length & 0x07) | (length << 3), ..self }
    }

    /// Packs the fields of a header into its seven bytes.
    pub fn pack(
        last: u8,
        sender: u8,
        destination: u8,
        version: u8,
        signed: bool,
        length: u8,
        command: u8,
        request_ack: bool,
        is_ack: bool,
        payload_type: u8,
        _type: u8,
        sensor: u8,
    ) -> (header: StreamHeader)
        requires
            version < 4,
            length < 32,
            command < 8,
            payload_type < 8,
        ensures
            header.last == last,
            header.sender == sender,
            header.destination == destination,
            header.version_of() == version,
            header.signed_of() == signed,
            header.length_of() == length,
            header.command_of() == command,
            header.request_ack_of() == request_ack,
            header.is_ack_of() == is_ack,
            header.payload_type_of() == payload_type,
            header._type == _type,
            header.sensor == sensor,
    {
        let s: u8 = if signed {
            0x04
        } else {
            0
        };
        let r: u8 = if request_ack {
            0x08
        } else {
            0
        };
        let a: u8 = if is_ack {
            0x10
        } else {
            0
        };
        let version_length: u8 = version | s | (length << 3);
        let command_ack_payload: u8 = command | r | a | (payload_type << 5);
        assert(version < 4 && length < 32 && (s == 0 || s == 4) ==> {
            &&& (version | s | (length << 3)) & 0x03 == version
            &&& (version | s | (length << 3)) & 0x04 == s
            &&& (version | s | (length << 3)) >> 3 == length
        }) by (bit_vector);
        assert(command < 8 && payload_type < 8 && (r == 0 || r == 8) && (a == 0 || a == 16) ==> {
            &&& (command | r | a | (payload_type << 5)) & 0x07 == command
            &&& (command | r | a | (payload_type << 5)) & 0x08 == r
            &&& (command | r | a | (payload_type << 5)) & 0x10 == a
            &&& (command | r | a | (payload_type << 5)) >> 5 == payload_type
        }) by (bit_vector);
        StreamHeader {
            last,
            sender,
            destination,
            version_length,
            command_ack_payload,
            _type,
            sensor,
        }
    }

    /// The protocol version.
    pub fn version(&self) -> (version: u8)
        ensures
            version == self.version_of(),
            version < 4,
    {
        let byte: u8 = self.version_length;
        assert(byte & 0x03 < 4) by (bit_vector);
        byte & 0x03
    }

    /// The signed flag.
    pub fn signed(&self) -> (flag: bool)
        ensures
            flag == self.signed_of(),
    {
        self.version_length & 0x04 != 0
    }

    /// The declared length of the value.
    pub fn length(&self) -> (length: u8)
        ensures
            length == self.length_of(),
            length < 32,
    {
        let byte: u8 = self.version_length;
        assert(byte >> 3 < 32) by (bit_vector);
        byte >> 3
    }

    /// The command.
    pub fn command(&self) -> (command: u8)
        ensures
            command == self.command_of(),
            command < 8,
    {
        let byte: u8 = self.command_ack_payload;
        assert(byte & 0x07 < 8) by (bit_vector);
        byte & 0x07
    }

    /// Whether an ack is requested.
    pub fn request_ack(&self) -> (flag: bool)
        ensures
            flag == self.request_ack_of(),
    {
        self.command_ack_payload & 0x08 != 0
    }

    /// Whether the message is an ack.
    pub fn is_ack(&self) -> (flag: bool)
        ensures
            flag == self.is_ack_of(),
    {
        self.command_ack_payload & 0x10 != 0
    }

    /// The type of the value.
    pub fn payload_type(&self) -> (tag: u8)
        ensures
            tag == self.payload_type_of(),
            tag < 8,
    {
        let byte: u8 = self.command_ack_payload;
        assert(byte >> 5 < 8) by (bit_vector);
        byte >> 5
    }

    /// Changes the type of the value, and nothing else.
    pub fn with_payload_type(&self, tag: u8) -> (header: StreamHeader)
        requires
            tag < 8,
        ensures
            header == self.with_payload_type_of(tag),
            header.payload_type_of() == tag,
            header.command_of() == self.command_of(),
            header.request_ack_of() == self.request_ack_of(),
            header.is_ack_of() == self.is_ack_of(),
    {
        proof {
            lemma_payload_type_alone(*self, tag);
        }
        StreamHeader {
            last: self.last,
            sender: self.sender,
            destination: self.destination,
            version_length: self.version_length,
            command_ack_payload: (self.command_ack_payload & 0x1f) | (tag << 5),
            _type: self._type,
            sensor: self.sensor,
        }
    }

    /// Changes the declared length of the value, and nothing else.
    pub fn with_length(&self, length: u8) -> (header: StreamHeader)
        requires
            length < 32,
        ensures
            header == self.with_length_of(length),
            header.length_of() == length,
            header.version_of() == self.version_of(),
            header.signed_of() == self.signed_of(),
    {
        proof {
            lemma_length_alone(*self, length);
        }
        StreamHeader {
            last: self.last,
            sender: self.sender,
            destination: self.destination,
            version_length: (self.version_length & 0x07) | (length << 3),
            command_ack_payload: self.command_ack_payload,
            _type: self._type,
            sensor: self.sensor,
        }
    }
}

/// A new type of the value is what the header then names, and every other
/// field of the header, the other bits of the same byte included, is as it was.
pub proof fn lemma_payload_type_alone(header: StreamHeader, tag: u8)
    requires
        tag < 8,
    ensures
        header.with_payload_type_of(tag).payload_type_of() == tag,
        header.with_payload_type_of(tag).command_of() == header.command_of(),
        header.with_payload_type_of(tag).request_ack_of() == header.request_ack_of(),
        header.with_payload_type_of(tag).is_ack_of() == header.is_ack_of(),
        header.with_payload_type_of(tag).last == header.last,
        header.with_payload_type_of(tag).sender == header.sender,
        header.with_payload_type_of(tag).destination == header.destination,
        header.with_payload_type_of(tag).version_length == header.version_length,
        header.with_payload_type_of(tag)._type == header._type,
        header.with_payload_type_of(tag).sensor == header.sensor,
{
    let byte = header.command_ack_payload;
    assert(tag < 8 ==> ((byte & 0x1f) | (tag << 5)) >> 5 == tag) by (bit_vector);
    assert(tag < 8 ==> ((byte & 0x1f) | (tag << 5)) & 0x07 == byte & 0x07) by (bit_vector);
    assert(tag < 8 ==> ((byte & 0x1f) | (tag << 5)) & 0x08 == byte & 0x08) by (bit_vector);
    assert(tag < 8 ==> ((byte & 0x1f) | (tag << 5)) & 0x10 == byte & 0x10) by (bit_vector);
}

/// A new declared length is what the header then names, and the version and
/// the signed flag in the same byte are as they were.
pub proof fn lemma_length_alone(header: StreamHeader, length: u8)
    requires
        length < 32,
    ensures
        header.with_length_of(length).length_of() == length,
        header.with_length_of(length).version_of() == header.version_of(),
        header.with_length_of(length).signed_of() == header.signed_of(),
{
    let byte = header.version_length;
    assert(length < 32 ==> ((byte & 0x07) | (length << 3)) >> 3 == length) by (bit_vector);
    assert(length < 32 ==> ((byte & 0x07) | (length << 3)) & 0x03 == byte & 0x03) by (bit_vector);
    assert(length < 32 ==> ((byte & 0x07) | (length << 3)) & 0x04 == byte & 0x04) by (bit_vector);
}

/// The value of a binary message, one case for each type that a header can
/// name.
#[derive(Debug, Clone, PartialEq, Eq)]
pub enum StreamPayload {
    /// Type 0: one byte.
    Byte(u8),
    /// Type 1: an unsigned number of 16 bits.
    UInt16(u16),
    /// Type 2: a signed number of 16 bits.
    Int16(i16),
    /// Type 3: an unsigned number of 32 bits.
    UInt32(u32),
    /// Type 4: a signed number of 32 bits.
    Int32(i32),
    /// Type 5: the four bytes of a floating-point number, as the bits they
    /// hold, and the number of decimals to print.
    Float { bits: u32, precision: u8 },
    /// Type 6: the presentation of a node.
    Presentation { version: u8, sensor_type: u8 },
    /// Type 7: raw characters, as many as the header declares.
    Data(Vec<u8>),
}

/// The value of a binary message, as a value of mathematics.
pub enum StreamValue {
    Byte(u8),
    UInt16(u16),
    Int16(i16),
    UInt32(u32),
    Int32(i32),
    Float { bits: u32, precision: u8 },
    Presentation { version: u8, sensor_type: u8 },
    Data(Seq<u8>),
}

impl View for StreamPayload {
    type V = StreamValue;

    open spec fn view(&self) -> StreamValue {
        match self {
            StreamPayload::Byte(b) => StreamValue::Byte(*b),
            StreamPayload::UInt16(v) => StreamValue::UInt16(*v),
            StreamPayload::Int16(v) => StreamValue::Int16(*v),
            StreamPayload::UInt32(v) => StreamValue::UInt32(*v),
            StreamPayload::Int32(v) => StreamValue::Int32(*v),
            StreamPayload::Float { bits, precision } => StreamValue::Float {
                bits: *bits,
                precision: *precision,
            },
            StreamPayload::Presentation { version, sensor_type } => StreamValue::Presentation {
                version: *version,
                sensor_type: *sensor_type,
            },
            StreamPayload::Data(data) => StreamValue::Data(data@),
        }
    }
}

impl StreamValue {
    /// The type that a header names for a value of this case.
    pub open spec fn tag_of(self) -> u8 {
        match self {
            StreamValue::Byte(_) => 0,
            StreamValue::UInt16(_) => 1,
            StreamValue::Int16(_) => 2,
            StreamValue::UInt32(_) => 3,
            StreamValue::Int32(_) => 4,
            StreamValue::Float { .. } => 5,
            StreamValue::Presentation { .. } => 6,
            StreamValue::Data(_) => 7,
        }
    }

    /// The bytes that the value takes after the header.
    pub open spec fn bytes(self) -> Seq<u8> {
        match self {
            StreamValue::Byte(b) => seq![b],
            StreamValue::UInt16(v) => u16_bytes(v),
            StreamValue::Int16(v) => u16_bytes(i16_bits(v)),
            StreamValue::UInt32(v) => u32_bytes(v),
            StreamValue::Int32(v) => u32_bytes(i32_bits(v)),
            StreamValue::Float { bits, precision } => u32_bytes(bits).push(precision),
            StreamValue::Presentation { version, sensor_type } => seq![version, sensor_type],
            StreamValue::Data(data) => data,
        }
    }

    /// The value of type `tag` that the bytes after a header hold. Only the
    /// raw characters go by the declared length; a number has the width of its
    /// type.
    pub open spec fn read(tag: u8, length: u8, body: Seq<u8>) -> StreamValue {
        if tag == 0 {
            StreamValue::Byte(body[0])
        } else if tag == 1 {
            StreamValue::UInt16(u16_le(body[0], body[1]))
        } else if tag == 2 {
            StreamValue::Int16(i16_of_bits(u16_le(body[0], body[1])))
        } else if tag == 3 {
            StreamValue::UInt32(u32_le(body[0], body[1], body[2], body[3]))
        } else if tag == 4 {
            StreamValue::Int32(i32_of_bits(u32_le(body[0], body[1], body[2], body[3])))
        } else if tag == 5 {
            StreamValue::Float {
                bits: u32_le(body[0], body[1], body[2], body[3]),
                precision: body[4],
            }
        } else if tag == 6 {
            StreamValue::Presentation { version: body[0], sensor_type: body[1] }
        } else {
            StreamValue::Data(body.take(length as int))
        }
    }
}

impl StreamPayload {
    /// The type that a header names for this value.
    pub fn tag(&self) -> (tag: u8)
        ensures
            tag == self@.tag_of(),
            tag < 8,
    {
        match self {
            StreamPayload::Byte(_) => 0,
            StreamPayload::UInt16(_) => 1,
            StreamPayload::Int16(_) => 2,
            StreamPayload::UInt32(_) => 3,
            StreamPayload::Int32(_) => 4,
            StreamPayload::Float { .. } => 5,
            StreamPayload::Presentation { .. } => 6,
            StreamPayload::Data(_) => 7,
        }
    }
}

/// A value read under a type is of the case of that type: the type alone
/// decides how the bytes are read.
pub proof fn lemma_read_case(tag: u8, length: u8, body: Seq<u8>)
    requires
        tag < 8,
    ensures
        StreamValue::read(tag, length, body).tag_of() == tag,
{
}

/// A binary message: its header and its value.
#[derive(Debug, Clone, PartialEq, Eq)]
pub struct StreamMessage {
    pub header: StreamHeader,
    pub payload: StreamPayload,
}

/// A binary message, as a value of mathematics.
pub struct StreamMessageView {
    pub header: StreamHeader,
    pub payload: StreamValue,
}

impl View for StreamMessage {
    type V = StreamMessageView;

    open spec fn view(&self) -> StreamMessageView {
        StreamMessageView { header: self.header, payload: self.payload@ }
    }
}

impl StreamMessageView {
    /// A binary message is well formed when its header declares no more than
    /// 25 bytes and names the type of the value it has, and when raw
    /// characters are as many as the header declares.
    pub open spec fn well_formed(self) -> bool {
        &&& self.header.length_of() <= MAX_PAYLOAD
        &&& self.header.payload_type_of() == self.payload.tag_of()
        &&& (self.payload matches StreamValue::Data(data) ==> data.len()
            == self.header.length_of())
    }
}

/// The header that the first seven bytes of a buffer hold.
pub open spec fn header_at(buffer: Seq<u8>) -> StreamHeader {
    StreamHeader {
        last: buffer[0],
        sender: buffer[1],
        destination: buffer[2],
        version_length: buffer[3],
        command_ack_payload: buffer[4],
        _type: buffer[5],
        sensor: buffer[6],
    }
}

/// The seven bytes of a header.
pub open spec fn header_bytes(header: StreamHeader) -> Seq<u8> {
    seq![
        header.last,
        header.sender,
        header.destination,
        header.version_length,
        header.command_ack_payload,
        header._type,
        header.sensor,
    ]
}

/// The binary message that a buffer of 32 bytes holds. A header that declares
/// more than the 25 bytes behind it is refused.
pub open spec fn decode_stream(buffer: Seq<u8>) -> Result<StreamMessageView, DecodeError> {
    let header = header_at(buffer);
    if header.length_of() > MAX_PAYLOAD {
        Err(DecodeError::LengthOverflow)
    } else {
        Ok(
            StreamMessageView {
                header,
                payload: StreamValue::read(
                    header.payload_type_of(),
                    header.length_of(),
                    buffer.skip(HEADER_SIZE as int),
                ),
            },
        )
    }
}

/// The buffer of a binary message: the header, the bytes of the value, and
/// zeros up to 32 bytes.
pub open spec fn encode_stream(message: StreamMessageView) -> Seq<u8> {
    fit_buffer(header_bytes(message.header) + message.payload.bytes())
}

/// Decoding undoes encoding: the buffer of a well-formed binary message holds
/// that message.
pub proof fn lemma_stream_round_trip(message: StreamMessageView)
    requires
        message.well_formed(),
    ensures
        encode_stream(message).len() == 32,
        decode_stream(encode_stream(message)) == Ok::<StreamMessageView, DecodeError>(message),
{
    let buffer = encode_stream(message);
    let body = buffer.skip(HEADER_SIZE as int);
    let bytes = message.payload.bytes();
    let byte = message.header.command_ack_payload;
    assert(byte >> 5 < 8) by (bit_vector);
    assert(header_at(buffer) == message.header);
    assert forall|i: int| 0 <= i < bytes.len() && i < MAX_PAYLOAD implies body[i] == bytes[i] by {
        assert(body[i] == buffer[i + HEADER_SIZE]);
    }
    match message.payload {
        StreamValue::Byte(b) => {},
        StreamValue::UInt16(v) => {
            lemma_little_endian_round_trip(v, 0, 0, 0);
        },
        StreamValue::Int16(v) => {
            lemma_little_endian_round_trip(i16_bits(v), 0, v, 0);
        },
        StreamValue::UInt32(v) => {
            lemma_little_endian_round_trip(0, v, 0, 0);
        },
        StreamValue::Int32(v) => {
            lemma_little_endian_round_trip(0, i32_bits(v), 0, v);
        },
        StreamValue::Float { bits, precision } => {
            lemma_little_endian_round_trip(0, bits, 0, 0);
        },
        StreamValue::Presentation { version, sensor_type } => {},
        StreamValue::Data(data) => {
            assert(body.take(message.header.length_of() as int) =~= data);
        },
    }
}

impl MessagePayload {
    /// The header that the buffer holds.
    pub fn header(&self) -> (header: StreamHeader)
        ensures
            header == header_at(self@),
    {
        StreamHeader {
            last: self.bin_payload[0],
            sender: self.bin_payload[1],
            destination: self.bin_payload[2],
            version_length: self.bin_payload[3],
            command_ack_payload: self.bin_payload[4],
            _type: self.bin_payload[5],
            sensor: self.bin_payload[6],
        }
    }

    /// The binary message that the buffer holds.
    ///
    /// Fails with `LengthOverflow`, and with nothing else, when the header
    /// declares a value of more than 25 bytes.
    pub fn message(&self) -> (result: Result<StreamMessage, DecodeError>)
        ensures
            result matches Ok(message) ==> decode_stream(self@) == Ok::<
                StreamMessageView,
                DecodeError,
            >(message@) && message@.well_formed(),
            result matches Err(error) ==> decode_stream(self@) == Err::<
                StreamMessageView,
                DecodeError,
            >(error),
    {
        let header = self.header();
        let length: u8 = header.length();
        if length as usize > MAX_PAYLOAD {
            return Err(DecodeError::LengthOverflow);
        }
        let tag: u8 = header.payload_type();
        let b = &self.bin_payload;
        let ghost body = self@.skip(HEADER_SIZE as int);
        assert(forall|i: int| 0 <= i < MAX_PAYLOAD ==> body[i] == b@[i + HEADER_SIZE]);
        let payload = if tag == 0 {
            StreamPayload::Byte(b[7])
        } else if tag == 1 {
            StreamPayload::UInt16(read_u16(b[7], b[8]))
        } else if tag == 2 {
            StreamPayload::Int16(read_i16(b[7], b[8]))
        } else if tag == 3 {
            StreamPayload::UInt32(read_u32(b[7], b[8], b[9], b[10]))
        } else if tag == 4 {
            StreamPayload::Int32(read_i32(b[7], b[8], b[9], b[10]))
        } else if tag == 5 {
            StreamPayload::Float { bits: read_u32(b[7], b[8], b[9], b[10]), precision: b[11] }
        } else if tag == 6 {
            StreamPayload::Presentation { version: b[7], sensor_type: b[8] }
        } else {
            let mut data: Vec<u8> = Vec::new();
            let mut i: usize = 0;
            while i < length as usize
                invariant
                    i <= length <= MAX_PAYLOAD,
                    data@ == self@.subrange(HEADER_SIZE as int, HEADER_SIZE + i),
                decreases length - i,
            {
                data.push(self.bin_payload[HEADER_SIZE + i]);
                assert(data@ =~= self@.subrange(HEADER_SIZE as int, HEADER_SIZE + i + 1));
                i += 1;
            }
            assert(data@ =~= body.take(length as int));
            StreamPayload::Data(data)
        };
        Ok(StreamMessage { header, payload })
    }
}

impl StreamMessage {
    /// Puts a value under a header. The header is made to name the type of
    /// the value and to declare the number of its bytes, and is kept in
    /// everything else. A value of more than 25 bytes has no message.
    pub fn new(header: StreamHeader, payload: StreamPayload) -> (result: Option<StreamMessage>)
        ensures
            result is Some <==> payload@.bytes().len() <= MAX_PAYLOAD,
            result matches Some(message) ==> {
                &&& message@.well_formed()
                &&& message@.payload == payload@
                &&& message.header == header.with_payload_type_of(
                    payload@.tag_of(),
                ).with_length_of(payload@.bytes().len() as u8)
            },
    {
        let width: usize = match &payload {
            StreamPayload::Byte(_) => 1,
            StreamPayload::UInt16(_) => 2,
            StreamPayload::Int16(_) => 2,
            StreamPayload::UInt32(_) => 4,
            StreamPayload::Int32(_) => 4,
            StreamPayload::Float { .. } => 5,
            StreamPayload::Presentation { .. } => 2,
            StreamPayload::Data(data) => data.len(),
        };
        if width > MAX_PAYLOAD {
            return None;
        }
        let tagged = header.with_payload_type(payload.tag());
        let sized = tagged.with_length(width as u8);
        Some(StreamMessage { header: sized, payload })
    }

    /// Whether the header and the value of the message agree, which
    /// `to_payload` asks for.
    pub fn is_well_formed(&self) -> (ok: bool)
        ensures
            ok == self@.well_formed(),
    {
        let length: u8 = self.header.length();
        let agree: bool = match &self.payload {
            StreamPayload::Data(data) => data.len() == length as usize,
            _ => true,
        };
        length as usize <= MAX_PAYLOAD && self.header.payload_type() == self.payload.tag() && agree
    }

    /// The buffer of the message.
    pub fn to_payload(&self) -> (payload: MessagePayload)
        requires
            self@.well_formed(),
        ensures
            payload@ == encode_stream(self@),
    {
        let mut arr: [u8; 32] = [0u8; 32];
        arr[0] = self.header.last;
        arr[1] = self.header.sender;
        arr[2] = self.header.destination;
        arr[3] = self.header.version_length;
        arr[4] = self.header.command_ack_payload;
        arr[5] = self.header._type;
        arr[6] = self.header.sensor;
        match &self.payload {
            StreamPayload::Byte(b) => {
                arr[7] = *b;
            },
            StreamPayload::UInt16(v) => {
                write_u16(&mut arr, 7, *v);
            },
            StreamPayload::Int16(v) => {
                write_u16(&mut arr, 7, bits_of_i16(*v));
            },
            StreamPayload::UInt32(v) => {
                write_u32(&mut arr, 7, *v);
            },
            StreamPayload::Int32(v) => {
                write_u32(&mut arr, 7, bits_of_i32(*v));
            },
            StreamPayload::Float { bits, precision } => {
                write_u32(&mut arr, 7, *bits);
                arr[11] = *precision;
            },
            StreamPayload::Presentation { version, sensor_type } => {
                arr[7] = *version;
                arr[8] = *sensor_type;
            },
            StreamPayload::Data(data) => {
                let mut i: usize = 0;
                while i < data.len()
                    invariant
                        i <= data.len() <= MAX_PAYLOAD,
                        forall|j: int|
                            0 <= j < HEADER_SIZE ==> arr@[j] == header_bytes(self.header)[j],
                        forall|j: int| 0 <= j < i ==> arr@[HEADER_SIZE + j] == data@[j],
                        forall|j: int| HEADER_SIZE + i <= j < 32 ==> arr@[j] == 0,
                    decreases data.len() - i,
                {
                    arr[HEADER_SIZE + i] = data[i];
                    i += 1;
                }
            },
        }
        assert(arr@ =~= encode_stream(self@));
        MessagePayload { bin_payload: arr }
    }
}


/// The binary message of a wire message: the one that its buffer holds, and
/// none where the message has no buffer.
pub open spec fn stream_message_of(message: MessageView) -> Result<
    Option<StreamMessageView>,
    DecodeError,
> {
    match message.payload {
        PayloadView::Stream(buffer) => match decode_stream(buffer) {
            Ok(binary) => Ok(Some(binary)),
            Err(error) => Err(error),
        },
        PayloadView::Other(_) => Ok(None),
    }
}

/// The wire message that carries a binary message: command `STREAM`, and the
/// buffer of the binary message as its payload.
pub open spec fn stream_frame(
    node_id: u8,
    child_sensor_id: u8,
    ack: u8,
    sub_type: u8,
    binary: StreamMessageView,
) -> MessageView {
    MessageView {
        node_id,
        child_sensor_id,
        command: CommandType::STREAM.code_of(),
        ack,
        sub_type,
        payload: PayloadView::Stream(encode_stream(binary)),
    }
}

impl CommandMessage {
    /// Decodes the binary message of a `STREAM` message.
    ///
    /// Gives `Ok(None)` for a message without a buffer, and fails with
    /// `LengthOverflow` where the header in the buffer declares a value of more
    /// than 25 bytes.
    pub fn stream_message(&self) -> (result: Result<Option<StreamMessage>, DecodeError>)
        ensures
            result matches Ok(Some(binary)) ==> stream_message_of(self@) == Ok::<
                Option<StreamMessageView>,
                DecodeError,
            >(Some(binary@)) && binary@.well_formed(),
            result matches Ok(None) ==> stream_message_of(self@) == Ok::<
                Option<StreamMessageView>,
                DecodeError,
            >(None),
            result matches Err(error) ==> stream_message_of(self@) == Err::<
                Option<StreamMessageView>,
                DecodeError,
            >(error),
    {
        match &self.payload {
            MessagePayloadType::StreamPayload(payload) => match payload.message() {
                Ok(binary) => Ok(Some(binary)),
                Err(error) => Err(error),
            },
            MessagePayloadType::OtherPayload(_) => Ok(None),
        }
    }

    /// Wraps a binary message in a `STREAM` message.
    pub fn from_stream(
        node_id: u8,
        child_sensor_id: u8,
        ack: u8,
        sub_type: u8,
        binary: &StreamMessage,
    ) -> (message: CommandMessage)
        requires
            binary@.well_formed(),
        ensures
            message@ == stream_frame(node_id, child_sensor_id, ack, sub_type, binary@),
            message@.well_formed(),
            message@.encodable(),
            stream_message_of(message@) == Ok::<Option<StreamMessageView>, DecodeError>(
                Some(binary@),
            ),
    {
        proof {
            lemma_stream_round_trip(binary@);
        }
        CommandMessage {
            node_id,
            child_sensor_id,
            command: CommandType::STREAM.code(),
            ack,
            sub_type,
            payload: MessagePayloadType::StreamPayload(binary.to_payload()),
        }
    }
}

/// The type of the value stands alone in the buffer: with other bits in its
/// place, the buffer holds a binary message whose value is of the case of the
/// new type, under a header that differs in nothing but that type.
pub proof fn lemma_retag_buffer(buffer: Seq<u8>, tag: u8)
    requires
        buffer.len() == 32,
        tag < 8,
        header_at(buffer).length_of() <= MAX_PAYLOAD,
    ensures
        decode_stream(buffer.update(4, (buffer[4] & 0x1f) | (tag << 5))) matches Ok(binary) && {
            &&& binary.payload.tag_of() == tag
            &&& binary.header == header_at(buffer).with_payload_type_of(tag)
            &&& binary.header.last == buffer[0]
            &&& binary.header.sender == buffer[1]
            &&& binary.header.destination == buffer[2]
            &&& binary.header.version_length == buffer[3]
            &&& binary.header._type == buffer[5]
            &&& binary.header.sensor == buffer[6]
            &&& binary.header.command_of() == header_at(buffer).command_of()
            &&& binary.header.request_ack_of() == header_at(buffer).request_ack_of()
            &&& binary.header.is_ack_of() == header_at(buffer).is_ack_of()
        },
{
    lemma_payload_type_alone(header_at(buffer), tag);
}


/// The view of a binary message that may be missing.
pub open spec fn binary_view(binary: Option<StreamMessage>) -> Option<StreamMessageView> {
    match binary {
        Some(message) => Some(message@),
        None => None,
    }
}

/// What a line decodes to when the binary message in it is decoded as well:
/// the wire message and, under `STREAM`, the binary message in its buffer.
/// A line that decodes has a header that declares no more than its buffer
/// holds, so the binary message is always there to read.
pub open spec fn decode_line(line: Seq<u8>) -> Result<
    (MessageView, Option<StreamMessageView>),
    DecodeError,
> {
    match decode_message(line) {
        Err(error) => Err(error),
        Ok(message) => match stream_message_of(message) {
            Err(error) => Err(error),
            Ok(binary) => Ok((message, binary)),
        },
    }
}

/// Decodes a line and the binary message in it.
///
/// Fails where `CommandMessage::new` fails, with the same error.
pub fn decode(line: &String) -> (result: Result<
    (CommandMessage, Option<StreamMessage>),
    DecodeError,
>)
    ensures
        result matches Ok(decoded) ==> decode_line(line_bytes(line@)) == Ok::<
            (MessageView, Option<StreamMessageView>),
            DecodeError,
        >((decoded.0@, binary_view(decoded.1))),
        result matches Err(error) ==> decode_line(line_bytes(line@)) == Err::<
            (MessageView, Option<StreamMessageView>),
            DecodeError,
        >(error),
{
    let message = match CommandMessage::new(line) {
        Ok(message) => message,
        Err(error) => {
            return Err(error);
        },
    };
    match message.stream_message() {
        Ok(binary) => Ok((message, binary)),
        Err(error) => Err(error),
    }
}

/// A binary message survives the line: the line of the wire message that
/// carries a well-formed binary message decodes to both.
pub proof fn lemma_line_round_trip(
    node_id: u8,
    child_sensor_id: u8,
    ack: u8,
    sub_type: u8,
    binary: StreamMessageView,
)
    requires
        binary.well_formed(),
    ensures
        decode_line(
            encode_frame(stream_frame(node_id, child_sensor_id, ack, sub_type, binary)),
        ) == Ok::<(MessageView, Option<StreamMessageView>), DecodeError>(
            (stream_frame(node_id, child_sensor_id, ack, sub_type, binary), Some(binary)),
        ),
{
    lemma_stream_round_trip(binary);
    lemma_round_trip(stream_frame(node_id, child_sensor_id, ack, sub_type, binary));
}

} // verus!
