//! Modbus frame codec: typed, validated views over RTU and ASCII frames, an
//! order-enforcing frame builder, and per-function request/response decoding.
use vstd::prelude::*;

pub mod ascii;
pub mod bits;
pub mod builder;
pub mod checksum;
pub mod decoder;
pub mod device;
pub mod entity;
pub mod exception;
pub mod frame;
pub mod function;
pub mod lrc;
pub mod pdu;
pub mod registers;
pub mod request;
pub mod response;
pub mod transaction;

pub use exception::Exception;
pub use frame::Frame;
pub use function::Function;

verus! {

/// Errors reported while decoding frames and protocol data units.
#[derive(Debug, Clone, Copy, PartialEq, Eq, Structural, Hash)]
#[non_exhaustive]
pub enum Error {
    /// The byte count is outside what the protocol allows.
    InvalidLength,
    /// The CRC16 or LRC does not match the bytes it covers.
    InvalidChecksum,
    /// Malformed ASCII framing: delimiter, terminator or hex digit.
    InvalidEncoding,
    /// The function code is none of the supported ones.
    UnknownFunction,
    /// The function code is not the one the decoded type expects.
    UnexpectedFunction,
    /// The payload length does not fit the decoded type's rule.
    DecodeInvalidLength,
    /// The frame is addressed to another device.
    OtherAddress,
}

/// When writing or reading a single coil, `ON == 0xFF00`.
pub const COIL_ON: u16 = 0xFF00;

/// When writing or reading a single coil, `OFF == 0x0000`.
pub const COIL_OFF: u16 = 0x0000;

} // verus!
