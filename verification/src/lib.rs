//! Core of an intercepting proxy between a sensor-network gateway and a
//! home-automation controller.
//!
//! The proxy passes most traffic on and answers two kinds of request itself:
//! a node's request for firmware and a node's request for an id. This crate
//! holds what the proxy decides and computes:
//!
//! * [`message`]: the wire message and its line of text;
//! * [`stream`]: the binary message in the buffer of a `STREAM` message;
//! * [`interceptor`]: which worker a message goes to;
//! * [`ota`]: the answers of the firmware protocol;
//! * [`node`]: the next free node id and the answer that assigns it;
//! * [`text`], [`hexcode`], [`little_endian`]: fields, digits and bytes.
//!
//! Everything here is a function of its arguments. The threads, the channels,
//! the transports and the database belong to the program around this crate.

pub mod hexcode;
pub mod text;
pub mod little_endian;
pub mod message;
pub mod stream;
pub mod interceptor;
pub mod ota;
pub mod node;
