//! Exception codes carried by exception responses.
use vstd::prelude::*;

verus! {

/// The one-byte payload of an exception response.
#[derive(Debug, PartialEq, Eq, Structural, Clone, Copy, Hash)]
pub struct Exception(pub u8);

/// The function code is not recognised or allowed by the server.
pub const ILLEGAL_FUNCTION: u8 = 1;

/// Some or all of the addressed entities do not exist on the server.
pub const ILLEGAL_ADDRESS: u8 = 2;

/// A value in the request is not accepted by the server.
pub const ILLEGAL_DATA: u8 = 3;

/// An unrecoverable error occurred while the server performed the action.
pub const DEVICE_FAILURE: u8 = 4;

/// The request was accepted and needs a long time to complete.
pub const ACKNOWLEDGE: u8 = 5;

/// The server is busy with a long-running command.
pub const DEVICE_BUSY: u8 = 6;

/// The server cannot perform the programming functions.
pub const NEGATIVE_ACKNOWLEDGE: u8 = 7;

/// A parity error was detected in the server's memory.
pub const MEMORY_PARITY_ERROR: u8 = 8;

/// A gateway is misconfigured.
pub const GATEWAY_PATH_UNAVAILABLE: u8 = 10;

/// The target behind a gateway failed to respond.
pub const GATEWAY_DEVICE_NO_RESPONSE: u8 = 11;

} // verus!
