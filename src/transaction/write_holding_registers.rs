//! Writing multiple holding registers (function 16).
use vstd::prelude::*;

use crate::checksum::with_crc;
use crate::device::Device;
use crate::exception::{Exception, ILLEGAL_DATA, ILLEGAL_FUNCTION};
use crate::frame::{payload_of, Frame};
use crate::function::WRITE_MULTIPLE_HOLDING_REGISTERS;
use crate::pdu::{build_two_fields, field, field_at};
use crate::registers::{be_bytes, regs_of, Registers};
use crate::transaction::{
    parsed_as, write_multiple_response_status, write_multiple_status, MAX_WRITE_COUNT,
};

verus! {

/// A request to write up to 123 holding registers.
#[derive(Debug, PartialEq)]
pub struct Request<'b> {
    frame: Frame<'b>,
}

impl<'b> View for Request<'b> {
    type V = Seq<u8>;

    closed spec fn view(&self) -> Seq<u8> {
        self.frame@
    }
}

impl<'b> Request<'b> {
    #[verifier::type_invariant]
    closed spec fn well_formed(self) -> bool {
        &&& self.frame@.len() >= 4
        &&& write_multiple_status(self.frame@, WRITE_MULTIPLE_HOLDING_REGISTERS) is Ok
    }

    /// Parses a frame as this request, or names the exception to answer with.
    pub fn parse_from(frame: Frame<'b>) -> (r: Result<Request<'b>, Exception>)
        ensures
            parsed_as(r, write_multiple_status(frame@, WRITE_MULTIPLE_HOLDING_REGISTERS), frame@),
    {
        let p = frame.payload();
        if frame.function().0 != WRITE_MULTIPLE_HOLDING_REGISTERS {
            Err(Exception(ILLEGAL_FUNCTION))
        } else if p.len() < 5 {
            Err(Exception(ILLEGAL_DATA))
        } else {
            let count = field_at(frame.raw_bytes(), 4);
            if count <= MAX_WRITE_COUNT && count * 2 == p[4] as u16 && p.len() - 5 == p[4] as usize {
                Ok(Request { frame })
            } else {
                Err(Exception(ILLEGAL_DATA))
            }
        }
    }

    /// The address of the first register to write.
    pub fn address(&self) -> (r: u16)
        ensures
            r == field(self@, 2),
    {
        proof {
            use_type_invariant(self);
        }
        field_at(self.frame.raw_bytes(), 2)
    }

    /// How many registers to write; at most 123.
    pub fn register_count(&self) -> (r: u16)
        ensures
            r == field(self@, 4),
            r <= MAX_WRITE_COUNT,
    {
        proof {
            use_type_invariant(self);
        }
        field_at(self.frame.raw_bytes(), 4)
    }

    /// The byte count of the values; twice the register count.
    pub fn data_byte_count(&self) -> (r: u8)
        ensures
            r == payload_of(self@)[4],
            r == 2 * field(self@, 4),
    {
        proof {
            use_type_invariant(self);
        }
        self.frame.payload()[4]
    }

    /// The values to write, one per register.
    pub fn registers(&self) -> (r: Registers<'b>)
        ensures
            r.remaining() == regs_of(payload_of(self@).subrange(5, payload_of(self@).len() as int)),
            r.remaining().len() == field(self@, 4),
    {
        proof {
            use_type_invariant(self);
        }
        let p = self.frame.payload();
        Registers::create(&p[5..p.len()])
    }

    /// Builds in `write_to` the response for `device`: the start and the count.
    pub fn build_response<'w>(&self, write_to: &'w mut [u8], device: Device) -> (r: Frame<'w>)
        requires
            old(write_to)@.len() >= 8,
        ensures
            r@ == with_crc(seq![device.address(), WRITE_MULTIPLE_HOLDING_REGISTERS] + be_bytes(
                field(self@, 2),
            ) + be_bytes(field(self@, 4))),
    {
        let (frame, _rest) = build_two_fields(
            write_to,
            device.address(),
            WRITE_MULTIPLE_HOLDING_REGISTERS,
            self.address(),
            self.register_count(),
        );
        frame
    }
}

/// The response to a write-multiple-registers request: the start and the count.
#[derive(Debug, PartialEq)]
pub struct Response<'b> {
    frame: Frame<'b>,
}

impl<'b> View for Response<'b> {
    type V = Seq<u8>;

    closed spec fn view(&self) -> Seq<u8> {
        self.frame@
    }
}

impl<'b> Response<'b> {
    #[verifier::type_invariant]
    closed spec fn well_formed(self) -> bool {
        &&& self.frame@.len() >= 4
        &&& write_multiple_response_status(self.frame@, WRITE_MULTIPLE_HOLDING_REGISTERS) is Ok
    }

    /// Parses a frame as this response, or names the exception it reports.
    pub fn parse_from(frame: Frame<'b>) -> (r: Result<Response<'b>, Exception>)
        ensures
            parsed_as(
                r,
                write_multiple_response_status(frame@, WRITE_MULTIPLE_HOLDING_REGISTERS),
                frame@,
            ),
    {
        let f = frame.function().0;
        let p = frame.payload();
        if f % 128 != WRITE_MULTIPLE_HOLDING_REGISTERS {
            Err(Exception(ILLEGAL_FUNCTION))
        } else if f >= 128 && p.len() > 0 {
            Err(Exception(p[0]))
        } else if p.len() == 4 {
            Ok(Response { frame })
        } else {
            Err(Exception(ILLEGAL_DATA))
        }
    }

    /// The address of the first register written.
    pub fn address(&self) -> (r: u16)
        ensures
            r == field(self@, 2),
    {
        proof {
            use_type_invariant(self);
        }
        field_at(self.frame.raw_bytes(), 2)
    }

    /// How many registers were written.
    pub fn register_count(&self) -> (r: u16)
        ensures
            r == field(self@, 4),
    {
        proof {
            use_type_invariant(self);
        }
        field_at(self.frame.raw_bytes(), 4)
    }
}

} // verus!
