//! The interceptor's rule: which messages from the gateway the proxy answers
//! itself, and which it hands on to the controller.
//!
//! * an `INTERNAL` message that asks for a node id goes to the node manager;
//! * a `STREAM` message that asks for the firmware configuration or for a
//!   firmware block goes to the firmware processor;
//! * every other message goes on to the controller, unchanged.
//!
//! A line that does not decode goes nowhere: it is dropped, and the next line
//! is read.

use vstd::prelude::*;
use crate::message::{decode_message, is_stream, CommandMessage, CommandSubType, CommandType};
use crate::message::{DecodeError, MessageView};
use crate::text::line_bytes;

verus! {

/// The type of an `INTERNAL` message by which a node asks for an id.
pub const I_ID_REQUEST: u8 = 3;

/// The type of an `INTERNAL` message that assigns an id to a node.
pub const I_ID_RESPONSE: u8 = 4;

/// Where a decoded message goes.
#[derive(Debug, Clone, Copy, PartialEq, Eq, Structural)]
pub enum Route {
    NodeManager,
    OtaProcessor,
    Controller,
}

/// A request for a node id: command `INTERNAL`, type `I_ID_REQUEST`.
pub open spec fn is_identity_request(message: MessageView) -> bool {
    CommandType::of(message.command) == Some(CommandType::INTERNAL) && message.sub_type
        == I_ID_REQUEST
}

/// A request of the firmware protocol: command `STREAM`, type firmware
/// configuration request or firmware block request.
pub open spec fn is_firmware_request(message: MessageView) -> bool {
    is_stream(message.command) && (CommandSubType::of(message.sub_type) == Some(
        CommandSubType::StFirmwareConfigRequest,
    ) || CommandSubType::of(message.sub_type) == Some(CommandSubType::StFirmwareRequest))
}

/// A message that the proxy does not answer itself.
pub open spec fn is_forwarded(message: MessageView) -> bool {
    !is_identity_request(message) && !is_firmware_request(message)
}

/// Where a decoded message goes.
pub open spec fn route_of(message: MessageView) -> Route {
    if is_identity_request(message) {
        Route::NodeManager
    } else if is_firmware_request(message) {
        Route::OtaProcessor
    } else {
        Route::Controller
    }
}

/// Every message falls under exactly one of the three rules, and goes where
/// that rule sends it.
pub proof fn lemma_route_exactly_one(message: MessageView)
    ensures
        is_identity_request(message) || is_firmware_request(message) || is_forwarded(message),
        !(is_identity_request(message) && is_firmware_request(message)),
        !(is_identity_request(message) && is_forwarded(message)),
        !(is_firmware_request(message) && is_forwarded(message)),
        route_of(message) == Route::NodeManager <==> is_identity_request(message),
        route_of(message) == Route::OtaProcessor <==> is_firmware_request(message),
        route_of(message) == Route::Controller <==> is_forwarded(message),
{
}

/// The messages of a run that go one way, in the order in which they came.
pub open spec fn routed(messages: Seq<MessageView>, route: Route) -> Seq<MessageView> {
    messages.filter(|message: MessageView| route_of(message) == route)
}

/// Routing loses nothing and doubles nothing: the three ways share the
/// messages of a run among them.
pub proof fn lemma_routing_shares_all(messages: Seq<MessageView>)
    ensures
        routed(messages, Route::NodeManager).len() + routed(messages, Route::OtaProcessor).len()
            + routed(messages, Route::Controller).len() == messages.len(),
    decreases messages.len(),
{
    reveal(Seq::filter);
    if messages.len() > 0 {
        lemma_routing_shares_all(messages.drop_last());
    }
}

/// Decides where a decoded message goes.
pub fn classify(message: &CommandMessage) -> (route: Route)
    ensures
        route == route_of(message@),
{
    match CommandType::from_u8(message.command) {
        Some(CommandType::INTERNAL) => if message.sub_type == I_ID_REQUEST {
            Route::NodeManager
        } else {
            Route::Controller
        },
        Some(CommandType::STREAM) => match CommandSubType::from_u8(message.sub_type) {
            Some(CommandSubType::StFirmwareConfigRequest) => Route::OtaProcessor,
            Some(CommandSubType::StFirmwareRequest) => Route::OtaProcessor,
            _ => Route::Controller,
        },
        _ => Route::Controller,
    }
}

/// What the interceptor does with one line from the gateway.
#[derive(Debug, Clone, PartialEq, Eq)]
pub enum Disposition {
    /// Hand the decoded message to the node manager.
    NodeManager(CommandMessage),
    /// Hand the decoded message to the firmware processor.
    OtaProcessor(CommandMessage),
    /// Send the line on to the controller as it came.
    Forward,
    /// Drop the line: it does not decode.
    Discard(DecodeError),
}

/// What the interceptor does with a line: drop it with the error of its
/// decoding, or treat the message it decodes to by its route.
pub open spec fn disposition_matches(line: Seq<u8>, disposition: Disposition) -> bool {
    match decode_message(line) {
        Err(error) => disposition == Disposition::Discard(error),
        Ok(message) => match route_of(message) {
            Route::NodeManager => disposition matches Disposition::NodeManager(m) && m@ == message,
            Route::OtaProcessor => disposition matches Disposition::OtaProcessor(m) && m@
                == message,
            Route::Controller => disposition == Disposition::Forward,
        },
    }
}

/// Decodes a line from the gateway and decides what becomes of it.
pub fn intercept(line: &String) -> (disposition: Disposition)
    ensures
        disposition_matches(line_bytes(line@), disposition),
{
    match CommandMessage::new(line) {
        Err(error) => Disposition::Discard(error),
        Ok(message) => match classify(&message) {
            Route::NodeManager => Disposition::NodeManager(message),
            Route::OtaProcessor => Disposition::OtaProcessor(message),
            Route::Controller => Disposition::Forward,
        },
    }
}

} // verus!
