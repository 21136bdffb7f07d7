//! Reading holding registers (function 3).
use vstd::prelude::*;

use crate::checksum::with_crc;
use crate::device::Device;
use crate::exception::{Exception, ILLEGAL_DATA, ILLEGAL_FUNCTION};
use crate::frame::{payload_of, Frame};
use crate::function::READ_HOLDING_REGISTERS;
use crate::pdu::{build_regs_response, field, field_at};
use crate::registers::{regs_bytes, regs_of, Registers};
use crate::transaction::{parsed_as, read_request_status, read_response_status, MAX_READ_COUNT};

verus! {

/// A request for up to 125 holding registers.
#[derive(Debug, PartialEq)]
pub struct Request<'b> {
    frame: Frame<'b>,
}

impl<'b> View for Request<'b> {
    type V = Seq<u8>;

    closed spec fn view(&self) -> Seq<u8> {
        self.frame@
    }
}

impl<'b> Request<'b> {
    #[verifier::type_invariant]
    closed spec fn well_formed(self) -> bool {
        &&& self.frame@.len() >= 4
        &&& read_request_status(self.frame@, READ_HOLDING_REGISTERS) is Ok
    }

    /// Parses a frame as this request, or names the exception to answer
    /// with (none where the payload is not four bytes).
    pub fn parse_from(frame: Frame<'b>) -> (r: Result<Request<'b>, Option<Exception>>)
        ensures
            parsed_as(r, read_request_status(frame@, READ_HOLDING_REGISTERS), frame@),
    {
        if frame.function().0 != READ_HOLDING_REGISTERS {
            Err(Some(Exception(ILLEGAL_FUNCTION)))
        } else if frame.payload().len() != 4 {
            Err(None)
        } else if field_at(frame.raw_bytes(), 4) > MAX_READ_COUNT {
            Err(Some(Exception(ILLEGAL_DATA)))
        } else {
            Ok(Request { frame })
        }
    }

    /// The address of the first register to read.
    pub fn address(&self) -> (r: u16)
        ensures
            r == field(self@, 2),
    {
        proof {
            use_type_invariant(self);
        }
        field_at(self.frame.raw_bytes(), 2)
    }

    /// How many registers to read; at most 125.
    pub fn register_count(&self) -> (r: u16)
        ensures
            r == field(self@, 4),
            r <= MAX_READ_COUNT,
    {
        proof {
            use_type_invariant(self);
        }
        field_at(self.frame.raw_bytes(), 4)
    }

    /// Builds in `write_to` the response for `device` that carries `registers`,
    /// one value per requested register.
    pub fn build_response_from_regs<'a>(
        &self,
        write_to: &'a mut [u8],
        device: Device,
        registers: &[u16],
    ) -> (r: Frame<'a>)
        requires
            registers@.len() == field(self@, 4),
            old(write_to)@.len() >= 5 + 2 * registers@.len(),
        ensures
            r@ == with_crc(
                seq![device.address(), READ_HOLDING_REGISTERS, (2 * registers@.len()) as u8]
                    + regs_bytes(registers@),
            ),
    {
        proof {
            use_type_invariant(self);
        }
        let (frame, _rest) = build_regs_response(
            write_to,
            device.address(),
            READ_HOLDING_REGISTERS,
            registers,
        );
        frame
    }
}

/// A response carrying holding register values.
#[derive(Debug, PartialEq)]
pub struct Response<'b> {
    frame: Frame<'b>,
}

impl<'b> View for Response<'b> {
    type V = Seq<u8>;

    closed spec fn view(&self) -> Seq<u8> {
        self.frame@
    }
}

impl<'b> Response<'b> {
    #[verifier::type_invariant]
    closed spec fn well_formed(self) -> bool {
        &&& self.frame@.len() >= 4
        &&& read_response_status(self.frame@, READ_HOLDING_REGISTERS) is Ok
    }

    /// Parses a frame as this response, or names the exception it reports
    /// (none where its byte count is wrong).
    pub fn parse_from(frame: Frame<'b>) -> (r: Result<Response<'b>, Option<Exception>>)
        ensures
            parsed_as(r, read_response_status(frame@, READ_HOLDING_REGISTERS), frame@),
    {
        let f = frame.function().0;
        let p = frame.payload();
        if f % 128 != READ_HOLDING_REGISTERS {
            Err(Some(Exception(ILLEGAL_FUNCTION)))
        } else if f >= 128 && p.len() > 0 {
            Err(Some(Exception(p[0])))
        } else if p.len() >= 3 && p.len() == p[0] as usize + 1 {
            Ok(Response { frame })
        } else {
            Err(None)
        }
    }

    /// The byte count of the register values.
    pub fn num_data_bytes(&self) -> (r: u8)
        ensures
            r == payload_of(self@)[0],
    {
        proof {
            use_type_invariant(self);
        }
        self.frame.payload()[0]
    }

    /// How many registers the response carries.
    pub fn register_count(&self) -> (r: u16)
        ensures
            r == (payload_of(self@).len() - 1) / 2,
    {
        proof {
            use_type_invariant(self);
        }
        ((self.frame.payload().len() - 1) / 2) as u16
    }

    /// The register values.
    pub fn registers(&self) -> (r: Registers<'b>)
        ensures
            r.remaining() == regs_of(payload_of(self@).drop_first()),
    {
        proof {
            use_type_invariant(self);
        }
        let p = self.frame.payload();
        assert(p@.subrange(1, p@.len() as int) =~= payload_of(self@).drop_first());
        Registers::create(&p[1..p.len()])
    }
}

} // verus!
