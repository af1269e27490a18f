//! Firmware distribution over the air.
//!
//! A node pulls its firmware: it announces what it runs and is told what it
//! should run, then asks for the image block by block until it has all of it.
//! The proxy keeps no session. Each answer is computed from the request and
//! from what the store holds at that moment, so asking twice gives the same
//! answer twice.
//!
//! A request and its answer are the value of the binary message in a `STREAM`
//! message: raw characters behind the header, read as 16-bit words, lowest
//! byte first.
//!
//! ```text
//! configuration request   firmware id, version, blocks, checksum, bootloader version
//! configuration response  firmware id, version, blocks, checksum
//! block request           firmware id, version, block
//! block response          firmware id, version, block, then the 16 bytes of the block
//! ```
//!
//! A block response without bytes says that there is no such block.

use vstd::prelude::*;
use crate::little_endian::{push_u16, read_u16, u16_bytes, u16_le};
use crate::message::{is_stream, CommandMessage, CommandSubType, CommandType, MessageView};
use crate::stream::{stream_frame, stream_message_of, StreamHeader, StreamMessage};
use crate::stream::{StreamMessageView, StreamPayload, StreamValue};

verus! {

/// The number of bytes in one block of a firmware image.
pub const FIRMWARE_BLOCK_SIZE: usize = 16;

/// A firmware image as the store holds it.
#[derive(Debug, Clone, PartialEq, Eq)]
pub struct Firmware {
    pub firmware_id: u16,
    pub version: u16,
    /// The number of blocks of the image.
    pub blocks: u16,
    /// The checksum of the image.
    pub crc: u16,
    /// The image, block after block.
    pub data: Vec<u8>,
}

/// A firmware image, as a value of mathematics.
pub struct ImageView {
    pub firmware_id: u16,
    pub version: u16,
    pub blocks: u16,
    pub crc: u16,
    pub data: Seq<u8>,
}

impl View for Firmware {
    type V = ImageView;

    open spec fn view(&self) -> ImageView {
        ImageView {
            firmware_id: self.firmware_id,
            version: self.version,
            blocks: self.blocks,
            crc: self.crc,
            data: self.data@,
        }
    }
}

impl ImageView {
    /// Block `index` of the image: its 16 bytes, if the image counts that many
    /// blocks and holds the bytes of this one.
    pub open spec fn block_of(self, index: u16) -> Option<Seq<u8>> {
        if index < self.blocks && FIRMWARE_BLOCK_SIZE * (index + 1) <= self.data.len() {
            Some(
                self.data.subrange(
                    FIRMWARE_BLOCK_SIZE * index,
                    FIRMWARE_BLOCK_SIZE * index + FIRMWARE_BLOCK_SIZE,
                ),
            )
        } else {
            None
        }
    }
}

impl Firmware {
    /// Reads one block of the image.
    pub fn block(&self, index: u16) -> (block: Option<Vec<u8>>)
        ensures
            block is Some <==> self@.block_of(index) is Some,
            block matches Some(bytes) ==> self@.block_of(index) == Some(bytes@),
    {
        if index >= self.blocks {
            return None;
        }
        let start: usize = FIRMWARE_BLOCK_SIZE * (index as usize);
        if self.data.len() < FIRMWARE_BLOCK_SIZE || start > self.data.len() - FIRMWARE_BLOCK_SIZE {
            return None;
        }
        let mut bytes: Vec<u8> = Vec::new();
        let mut i: usize = 0;
        while i < FIRMWARE_BLOCK_SIZE
            invariant
                i <= FIRMWARE_BLOCK_SIZE,
                start + FIRMWARE_BLOCK_SIZE <= self.data.len(),
                bytes@ == self.data@.subrange(start as int, start + i),
            decreases FIRMWARE_BLOCK_SIZE - i,
        {
            bytes.push(self.data[start + i]);
            assert(bytes@ =~= self.data@.subrange(start as int, start + i + 1));
            i += 1;
        }
        Some(bytes)
    }
}

/// What a node announces of the firmware it runs.
#[derive(Debug, Clone, Copy, PartialEq, Eq, Structural)]
pub struct FirmwareConfigRequest {
    pub firmware_id: u16,
    pub version: u16,
    pub blocks: u16,
    pub crc: u16,
    pub bootloader_version: u16,
}

/// What a node is told to run.
#[derive(Debug, Clone, Copy, PartialEq, Eq, Structural)]
pub struct FirmwareConfigResponse {
    pub firmware_id: u16,
    pub version: u16,
    pub blocks: u16,
    pub crc: u16,
}

/// A node's request for one block of a firmware image.
#[derive(Debug, Clone, Copy, PartialEq, Eq, Structural)]
pub struct FirmwareRequest {
    pub firmware_id: u16,
    pub version: u16,
    pub block: u16,
}

/// The answer to a block request: the block, or no bytes where there is none.
#[derive(Debug, Clone, PartialEq, Eq)]
pub struct FirmwareResponse {
    pub firmware_id: u16,
    pub version: u16,
    pub block: u16,
    pub data: Vec<u8>,
}

/// The answer to a block request, as a value of mathematics.
pub struct FirmwareResponseView {
    pub firmware_id: u16,
    pub version: u16,
    pub block: u16,
    pub data: Seq<u8>,
}

impl View for FirmwareResponse {
    type V = FirmwareResponseView;

    open spec fn view(&self) -> FirmwareResponseView {
        FirmwareResponseView {
            firmware_id: self.firmware_id,
            version: self.version,
            block: self.block,
            data: self.data@,
        }
    }
}

impl FirmwareResponseView {
    /// Whether the answer says that there is no such block.
    pub open spec fn is_no_data(self) -> bool {
        self.data.len() == 0
    }
}

impl FirmwareResponse {
    /// Whether the answer says that there is no such block.
    pub fn is_no_data(&self) -> (none: bool)
        ensures
            none == self@.is_no_data(),
    {
        self.data.len() == 0
    }
}

/// What the store answered when it was asked for the image under a firmware
/// id.
#[derive(Debug, Clone, PartialEq, Eq)]
pub enum Lookup {
    /// The store holds this image.
    Found(Firmware),
    /// The store holds no image under the id.
    Missing,
    /// The store could not be asked.
    Failed,
}

impl Lookup {
    /// The image that the answer holds. A store that could not be asked
    /// counts as a store that holds nothing: the node is answered all the
    /// same, with no update or with no data.
    pub open spec fn held(self) -> Option<ImageView> {
        match self {
            Lookup::Found(firmware) => Some(firmware@),
            Lookup::Missing => None,
            Lookup::Failed => None,
        }
    }
}

/// Whether the store holds, under the firmware id of the node, a version
/// newer than the one the node runs.
pub open spec fn needs_update(request: FirmwareConfigRequest, offered: Option<ImageView>) -> bool {
    offered matches Some(firmware) && firmware.firmware_id == request.firmware_id
        && firmware.version > request.version
}

/// The answer to a configuration request: the newer firmware where the store
/// holds one, and else the node's own firmware back, which tells the node to
/// stay as it is.
pub open spec fn config_response_of(
    request: FirmwareConfigRequest,
    offered: Option<ImageView>,
) -> FirmwareConfigResponse {
    if needs_update(request, offered) {
        FirmwareConfigResponse {
            firmware_id: offered.unwrap().firmware_id,
            version: offered.unwrap().version,
            blocks: offered.unwrap().blocks,
            crc: offered.unwrap().crc,
        }
    } else {
        FirmwareConfigResponse {
            firmware_id: request.firmware_id,
            version: request.version,
            blocks: request.blocks,
            crc: request.crc,
        }
    }
}

/// The bytes that answer a block request: the block of the image that the
/// store holds under the requested id, and nothing where the store holds no
/// such image or the image has no such block.
pub open spec fn block_data_of(request: FirmwareRequest, stored: Option<ImageView>) -> Seq<u8> {
    match stored {
        Some(firmware) => if firmware.firmware_id == request.firmware_id {
            match firmware.block_of(request.block) {
                Some(bytes) => bytes,
                None => Seq::empty(),
            }
        } else {
            Seq::empty()
        },
        None => Seq::empty(),
    }
}

/// The answer to a block request.
pub open spec fn block_response_of(
    request: FirmwareRequest,
    stored: Option<ImageView>,
) -> FirmwareResponseView {
    FirmwareResponseView {
        firmware_id: request.firmware_id,
        version: request.version,
        block: request.block,
        data: block_data_of(request, stored),
    }
}

/// Answers a configuration request. `stored` is what the store answered for
/// the firmware id of the request.
pub fn config_response(
    request: &FirmwareConfigRequest,
    stored: &Lookup,
) -> (response: FirmwareConfigResponse)
    ensures
        response == config_response_of(*request, stored.held()),
{
    match stored {
        Lookup::Found(firmware) => {
            if firmware.firmware_id == request.firmware_id && firmware.version > request.version {
                FirmwareConfigResponse {
                    firmware_id: firmware.firmware_id,
                    version: firmware.version,
                    blocks: firmware.blocks,
                    crc: firmware.crc,
                }
            } else {
                FirmwareConfigResponse {
                    firmware_id: request.firmware_id,
                    version: request.version,
                    blocks: request.blocks,
                    crc: request.crc,
                }
            }
        },
        _ => FirmwareConfigResponse {
            firmware_id: request.firmware_id,
            version: request.version,
            blocks: request.blocks,
            crc: request.crc,
        },
    }
}

/// Answers a block request. `stored` is what the store answered for the
/// firmware id of the request.
pub fn block_response(request: &FirmwareRequest, stored: &Lookup) -> (response: FirmwareResponse)
    ensures
        response@ == block_response_of(*request, stored.held()),
        response@.is_no_data() || response@.data.len() == FIRMWARE_BLOCK_SIZE,
{
    let data: Vec<u8> = match stored {
        Lookup::Found(firmware) => {
            if firmware.firmware_id == request.firmware_id {
                match firmware.block(request.block) {
                    Some(bytes) => bytes,
                    None => Vec::new(),
                }
            } else {
                Vec::new()
            }
        },
        _ => Vec::new(),
    };
    FirmwareResponse {
        firmware_id: request.firmware_id,
        version: request.version,
        block: request.block,
        data,
    }
}

/// Asking again gives the same answer: two requests for the same block of the
/// same firmware id get the same bytes from an unchanged store, and the same
/// request gets the same response.
pub proof fn lemma_block_request_idempotent(
    first: FirmwareRequest,
    second: FirmwareRequest,
    stored: Option<ImageView>,
)
    requires
        first.firmware_id == second.firmware_id,
        first.block == second.block,
    ensures
        block_response_of(first, stored).data == block_response_of(second, stored).data,
        first.version == second.version ==> block_response_of(first, stored) == block_response_of(
            second,
            stored,
        ),
{
}

/// A node that runs what the store holds, or something newer, is told to stay
/// as it is: the answer names the firmware that the node announced.
pub proof fn lemma_no_update_echoes(request: FirmwareConfigRequest, offered: Option<ImageView>)
    requires
        offered matches Some(firmware) ==> firmware.firmware_id != request.firmware_id
            || firmware.version <= request.version,
    ensures
        !needs_update(request, offered),
        config_response_of(request, offered).firmware_id == request.firmware_id,
        config_response_of(request, offered).version == request.version,
        config_response_of(request, offered).blocks == request.blocks,
        config_response_of(request, offered).crc == request.crc,
{
}

/// A request for a block that the image does not count, or of an image that
/// the store does not hold, is answered with no bytes.
pub proof fn lemma_block_out_of_range(request: FirmwareRequest, stored: Option<ImageView>)
    requires
        stored matches Some(firmware) ==> firmware.firmware_id != request.firmware_id
            || request.block >= firmware.blocks,
    ensures
        block_response_of(request, stored).is_no_data(),
{
}

/// The number of bytes of a configuration request.
pub const CONFIG_REQUEST_SIZE: usize = 10;

/// The number of bytes of a block request.
pub const BLOCK_REQUEST_SIZE: usize = 6;

/// The configuration request that the first ten bytes of a value hold.
pub open spec fn config_request_in(value: Seq<u8>) -> FirmwareConfigRequest {
    FirmwareConfigRequest {
        firmware_id: u16_le(value[0], value[1]),
        version: u16_le(value[2], value[3]),
        blocks: u16_le(value[4], value[5]),
        crc: u16_le(value[6], value[7]),
        bootloader_version: u16_le(value[8], value[9]),
    }
}

/// The block request that the first six bytes of a value hold.
pub open spec fn block_request_in(value: Seq<u8>) -> FirmwareRequest {
    FirmwareRequest {
        firmware_id: u16_le(value[0], value[1]),
        version: u16_le(value[2], value[3]),
        block: u16_le(value[4], value[5]),
    }
}

/// The bytes of a configuration response.
pub open spec fn config_response_bytes(response: FirmwareConfigResponse) -> Seq<u8> {
    u16_bytes(response.firmware_id) + u16_bytes(response.version) + u16_bytes(response.blocks)
        + u16_bytes(response.crc)
}

/// The bytes of a block response.
pub open spec fn block_response_bytes(response: FirmwareResponseView) -> Seq<u8> {
    u16_bytes(response.firmware_id) + u16_bytes(response.version) + u16_bytes(response.block)
        + response.data
}

impl FirmwareConfigResponse {
    /// The bytes of the response.
    pub fn to_bytes(&self) -> (bytes: Vec<u8>)
        ensures
            bytes@ == config_response_bytes(*self),
            bytes@.len() == 8,
    {
        let mut bytes: Vec<u8> = Vec::new();
        push_u16(&mut bytes, self.firmware_id);
        push_u16(&mut bytes, self.version);
        push_u16(&mut bytes, self.blocks);
        push_u16(&mut bytes, self.crc);
        assert(bytes@ =~= config_response_bytes(*self));
        bytes
    }
}

impl FirmwareResponse {
    /// The bytes of the response.
    pub fn to_bytes(&self) -> (bytes: Vec<u8>)
        ensures
            bytes@ == block_response_bytes(self@),
            bytes@.len() == 6 + self@.data.len(),
    {
        let mut bytes: Vec<u8> = Vec::new();
        push_u16(&mut bytes, self.firmware_id);
        push_u16(&mut bytes, self.version);
        push_u16(&mut bytes, self.block);
        let mut i: usize = 0;
        while i < self.data.len()
            invariant
                i <= self.data.len(),
                bytes@ == u16_bytes(self.firmware_id) + u16_bytes(self.version) + u16_bytes(
                    self.block,
                ) + self.data@.take(i as int),
            decreases self.data.len() - i,
        {
            bytes.push(self.data[i]);
            assert(self.data@.take(i + 1) =~= self.data@.take(i as int).push(self.data@[i as int]));
            i += 1;
        }
        assert(self.data@.take(i as int) =~= self.data@);
        bytes
    }
}

/// What a request of the firmware protocol asks.
#[derive(Debug, Clone, Copy, PartialEq, Eq, Structural)]
pub enum OtaBody {
    Config(FirmwareConfigRequest),
    Block(FirmwareRequest),
}

/// A request of the firmware protocol, with what is needed to address the
/// answer: the first two fields of the line it came in, and the header of
/// the binary message that held it.
#[derive(Debug, Clone, Copy, PartialEq, Eq, Structural)]
pub struct OtaRequest {
    pub node_id: u8,
    pub child_sensor_id: u8,
    pub header: StreamHeader,
    pub body: OtaBody,
}

impl OtaRequest {
    /// The firmware id that the request names: the key under which the store
    /// is asked.
    pub open spec fn firmware_id_of(self) -> u16 {
        match self.body {
            OtaBody::Config(request) => request.firmware_id,
            OtaBody::Block(request) => request.firmware_id,
        }
    }

    /// The firmware id that the request names.
    pub fn firmware_id(&self) -> (id: u16)
        ensures
            id == self.firmware_id_of(),
    {
        match self.body {
            OtaBody::Config(request) => request.firmware_id,
            OtaBody::Block(request) => request.firmware_id,
        }
    }
}

/// What the raw characters of a binary message ask under a type of `STREAM`
/// message: a configuration request in ten bytes or more under the type of
/// that request, a block request in six bytes or more under the type of that,
/// and nothing else.
pub open spec fn ota_body_of(sub_type: u8, value: Seq<u8>) -> Option<OtaBody> {
    if CommandSubType::of(sub_type) == Some(CommandSubType::StFirmwareConfigRequest) && value.len()
        >= CONFIG_REQUEST_SIZE {
        Some(OtaBody::Config(config_request_in(value)))
    } else if CommandSubType::of(sub_type) == Some(CommandSubType::StFirmwareRequest) && value.len()
        >= BLOCK_REQUEST_SIZE {
        Some(OtaBody::Block(block_request_in(value)))
    } else {
        None
    }
}

/// The request that a message holds: what the raw characters of its binary
/// message ask, where the message is a `STREAM` message and its binary
/// message has raw characters for its value. Any other message holds none.
pub open spec fn ota_request_of(message: MessageView) -> Option<OtaRequest> {
    if !is_stream(message.command) {
        None
    } else {
        match stream_message_of(message) {
            Ok(Some(binary)) => match binary.payload {
                StreamValue::Data(value) => match ota_body_of(message.sub_type, value) {
                    Some(body) => Some(
                        OtaRequest {
                            node_id: message.node_id,
                            child_sensor_id: message.child_sensor_id,
                            header: binary.header,
                            body,
                        },
                    ),
                    None => None,
                },
                _ => None,
            },
            _ => None,
        }
    }
}

/// Reads the request of the firmware protocol that a message holds.
pub fn ota_request(message: &CommandMessage) -> (request: Option<OtaRequest>)
    ensures
        request == ota_request_of(message@),
{
    if message.command != CommandType::STREAM.code() {
        return None;
    }
    let binary = match message.stream_message() {
        Ok(Some(binary)) => binary,
        _ => {
            return None;
        },
    };
    let body = match &binary.payload {
        StreamPayload::Data(value) => {
            if message.sub_type == CommandSubType::StFirmwareConfigRequest.code() && value.len()
                >= CONFIG_REQUEST_SIZE {
                OtaBody::Config(
                    FirmwareConfigRequest {
                        firmware_id: read_u16(value[0], value[1]),
                        version: read_u16(value[2], value[3]),
                        blocks: read_u16(value[4], value[5]),
                        crc: read_u16(value[6], value[7]),
                        bootloader_version: read_u16(value[8], value[9]),
                    },
                )
            } else if message.sub_type == CommandSubType::StFirmwareRequest.code() && value.len()
                >= BLOCK_REQUEST_SIZE {
                OtaBody::Block(
                    FirmwareRequest {
                        firmware_id: read_u16(value[0], value[1]),
                        version: read_u16(value[2], value[3]),
                        block: read_u16(value[4], value[5]),
                    },
                )
            } else {
                return None;
            }
        },
        _ => {
            return None;
        },
    };
    Some(
        OtaRequest {
            node_id: message.node_id,
            child_sensor_id: message.child_sensor_id,
            header: binary.header,
            body,
        },
    )
}

/// The type of value that holds raw characters.
pub const RAW_VALUE: u8 = 7;

/// The header of an answer: that of the request with the two ends changed
/// over, so that the answer goes from where the request went to, to where it
/// came from, and with the type of the answer. The other fields are those of
/// the request.
pub open spec fn reply_header_of(request: StreamHeader, sub_type: CommandSubType) -> StreamHeader {
    StreamHeader {
        last: request.destination,
        sender: request.destination,
        destination: request.sender,
        _type: sub_type.code_of(),
        ..request
    }
}

/// The binary message of an answer: its bytes as raw characters under the
/// header of the answer, which declares their number.
pub open spec fn reply_binary_of(
    request: StreamHeader,
    sub_type: CommandSubType,
    bytes: Seq<u8>,
) -> StreamMessageView {
    StreamMessageView {
        header: reply_header_of(request, sub_type).with_payload_type_of(RAW_VALUE).with_length_of(
            bytes.len() as u8,
        ),
        payload: StreamValue::Data(bytes),
    }
}

/// The type and the bytes of the answer to a request, given what the store
/// holds under the firmware id of the request.
pub open spec fn answer_of(body: OtaBody, stored: Option<ImageView>) -> (CommandSubType, Seq<u8>) {
    match body {
        OtaBody::Config(config) => (
            CommandSubType::StFirmwareConfigResponse,
            config_response_bytes(config_response_of(config, stored)),
        ),
        OtaBody::Block(block) => (
            CommandSubType::StFirmwareResponse,
            block_response_bytes(block_response_of(block, stored)),
        ),
    }
}

/// The message that answers a request of the firmware protocol: a `STREAM`
/// message with the first two fields of the request, no ack, the type of the
/// answer, and the binary message of the answer in its buffer.
pub open spec fn ota_response_of(request: OtaRequest, stored: Option<ImageView>) -> MessageView {
    stream_frame(
        request.node_id,
        request.child_sensor_id,
        0,
        answer_of(request.body, stored).0.code_of(),
        reply_binary_of(
            request.header,
            answer_of(request.body, stored).0,
            answer_of(request.body, stored).1,
        ),
    )
}

/// Answers a request of the firmware protocol. `stored` is what the store
/// answered for the firmware id of the request.
pub fn ota_response(request: &OtaRequest, stored: &Lookup) -> (response: CommandMessage)
    ensures
        response@ == ota_response_of(*request, stored.held()),
        response@.well_formed(),
        response@.encodable(),
        stream_message_of(response@) matches Ok(Some(binary)) && binary.payload
            == StreamValue::Data(answer_of(request.body, stored.held()).1),
{
    let (sub_type, bytes) = match &request.body {
        OtaBody::Config(config) => (
            CommandSubType::StFirmwareConfigResponse,
            config_response(config, stored).to_bytes(),
        ),
        OtaBody::Block(block) => (
            CommandSubType::StFirmwareResponse,
            block_response(block, stored).to_bytes(),
        ),
    };
    let header = StreamHeader {
        last: request.header.destination,
        sender: request.header.destination,
        destination: request.header.sender,
        version_length: request.header.version_length,
        command_ack_payload: request.header.command_ack_payload,
        _type: sub_type.code(),
        sensor: request.header.sensor,
    };
    let binary = StreamMessage::new(header, StreamPayload::Data(bytes)).unwrap();
    CommandMessage::from_stream(
        request.node_id,
        request.child_sensor_id,
        0,
        sub_type.code(),
        &binary,
    )
}

} // verus!
