//! Server-side views of requests and client-side views of responses that
//! report problems as the exception a server would answer with.
use vstd::prelude::*;

use crate::exception::{Exception, ILLEGAL_DATA, ILLEGAL_FUNCTION};
use crate::frame::payload_of;
use crate::pdu::field;

pub mod read_holding_registers;
pub mod read_input_registers;
pub mod write_holding_register;
pub mod write_holding_registers;

verus! {

/// The most registers that one response can carry.
pub const MAX_READ_COUNT: u16 = 125;

/// The most registers that one write request can carry.
pub const MAX_WRITE_COUNT: u16 = 123;

/// `r` is what parsing returns for `status`: the view of `bytes` on
/// success, the same error otherwise.
pub open spec fn parsed_as<T: View<V = Seq<u8>>, E>(
    r: Result<T, E>,
    status: Result<(), E>,
    bytes: Seq<u8>,
) -> bool {
    match r {
        Ok(p) => status is Ok && p@ == bytes,
        Err(e) => status == Err::<(), E>(e),
    }
}

/// The outcome of parsing a read-registers request with function `code`:
/// the exception to answer with, or none where the frame is malformed.
pub open spec fn read_request_status(bytes: Seq<u8>, code: u8) -> Result<(), Option<Exception>> {
    if bytes[1] != code {
        Err(Some(Exception(ILLEGAL_FUNCTION)))
    } else if payload_of(bytes).len() != 4 {
        Err(None)
    } else if field(bytes, 4) > MAX_READ_COUNT {
        Err(Some(Exception(ILLEGAL_DATA)))
    } else {
        Ok(())
    }
}

/// The outcome of parsing a read-registers response with function `code`:
/// the exception it reports or that a malformed one stands for, or none
/// where its byte count is wrong.
pub open spec fn read_response_status(bytes: Seq<u8>, code: u8) -> Result<(), Option<Exception>> {
    let p = payload_of(bytes);
    if bytes[1] % 128 != code {
        Err(Some(Exception(ILLEGAL_FUNCTION)))
    } else if bytes[1] >= 128 && p.len() > 0 {
        Err(Some(Exception(p[0])))
    } else if p.len() >= 3 && p.len() == p[0] + 1 {
        Ok(())
    } else {
        Err(None)
    }
}

/// The same outcome with a missing exception read as an illegal data value.
pub open spec fn or_illegal_data(status: Result<(), Option<Exception>>) -> Result<(), Exception> {
    match status {
        Ok(()) => Ok(()),
        Err(Some(e)) => Err(e),
        Err(None) => Err(Exception(ILLEGAL_DATA)),
    }
}

/// The outcome of parsing a single-register write with function `code`.
pub open spec fn write_single_status(bytes: Seq<u8>, code: u8) -> Result<(), Exception> {
    if bytes[1] != code {
        Err(Exception(ILLEGAL_FUNCTION))
    } else if payload_of(bytes).len() != 4 {
        Err(Exception(ILLEGAL_DATA))
    } else {
        Ok(())
    }
}

/// The outcome of parsing a write-multiple-registers request with function
/// `code`: the count, the byte count and the bytes that follow must agree.
pub open spec fn write_multiple_status(bytes: Seq<u8>, code: u8) -> Result<(), Exception> {
    let p = payload_of(bytes);
    if bytes[1] != code {
        Err(Exception(ILLEGAL_FUNCTION))
    } else if p.len() < 5 {
        Err(Exception(ILLEGAL_DATA))
    } else if field(bytes, 4) <= MAX_WRITE_COUNT && field(bytes, 4) * 2 == p[4] && p.len() - 5
        == p[4] {
        Ok(())
    } else {
        Err(Exception(ILLEGAL_DATA))
    }
}

/// The outcome of parsing a write-multiple response with function `code`:
/// the exception it reports, or an illegal data value where it is not a
/// start and a count.
pub open spec fn write_multiple_response_status(bytes: Seq<u8>, code: u8) -> Result<(), Exception> {
    let p = payload_of(bytes);
    if bytes[1] % 128 != code {
        Err(Exception(ILLEGAL_FUNCTION))
    } else if bytes[1] >= 128 && p.len() > 0 {
        Err(Exception(p[0]))
    } else if p.len() == 4 {
        Ok(())
    } else {
        Err(Exception(ILLEGAL_DATA))
    }
}

} // verus!
