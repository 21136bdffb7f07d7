//! Writing a single holding register (function 6).
use vstd::prelude::*;

use crate::checksum::with_crc;
use crate::device::Device;
use crate::exception::{Exception, ILLEGAL_DATA, ILLEGAL_FUNCTION};
use crate::frame::Frame;
use crate::function::{Function, WRITE_HOLDING_REGISTER};
use crate::pdu::{build_two_fields, field, field_at};
use crate::registers::{be_bytes, regs_of, Registers};
use crate::transaction::{parsed_as, write_single_status};

verus! {

/// A request to write one holding register: its address and the value.
#[derive(Debug, PartialEq)]
pub struct Request<'a> {
    frame: Frame<'a>,
}

impl<'a> View for Request<'a> {
    type V = Seq<u8>;

    closed spec fn view(&self) -> Seq<u8> {
        self.frame@
    }
}

impl<'a> Request<'a> {
    #[verifier::type_invariant]
    closed spec fn well_formed(self) -> bool {
        &&& self.frame@.len() >= 4
        &&& write_single_status(self.frame@, WRITE_HOLDING_REGISTER) is Ok
    }

    /// Parses a frame as this request, or names the exception to answer with.
    pub fn parse_from(frame: Frame<'a>) -> (r: Result<Request<'a>, Exception>)
        ensures
            parsed_as(r, write_single_status(frame@, WRITE_HOLDING_REGISTER), frame@),
    {
        if frame.function().0 != WRITE_HOLDING_REGISTER {
            Err(Exception(ILLEGAL_FUNCTION))
        } else if frame.payload().len() == 4 {
            Ok(Request { frame })
        } else {
            Err(Exception(ILLEGAL_DATA))
        }
    }

    /// The device the request is addressed to.
    pub fn device(&self) -> (r: Device)
        ensures
            r.address() == self@[0],
    {
        self.frame.device()
    }

    /// The function code.
    pub fn function(&self) -> (r: Function)
        ensures
            r.0 == self@[1],
    {
        self.frame.function()
    }

    /// The address of the register.
    pub fn register_location(&self) -> (r: u16)
        ensures
            r == field(self@, 2),
    {
        proof {
            use_type_invariant(self);
        }
        field_at(self.frame.raw_bytes(), 2)
    }

    /// The value to write.
    pub fn register_value(&self) -> (r: u16)
        ensures
            r == field(self@, 4),
    {
        proof {
            use_type_invariant(self);
        }
        field_at(self.frame.raw_bytes(), 4)
    }

    /// The value to write, as a sequence of one register, like the
    /// write-multiple request offers.
    pub fn registers(&self) -> (r: Registers<'a>)
        ensures
            r.remaining() == seq![field(self@, 4)],
    {
        proof {
            use_type_invariant(self);
        }
        let p = self.frame.payload();
        let r = Registers::create(&p[2..p.len()]);
        assert(regs_of(p@.subrange(2, p@.len() as int)) =~= seq![field(self@, 4)]);
        r
    }

    /// Builds in `write_to` the response for `device`, which echoes the request.
    pub fn build_response<'w>(&self, write_to: &'w mut [u8], device: Device) -> (r: Frame<'w>)
        requires
            old(write_to)@.len() >= 8,
        ensures
            r@ == with_crc(seq![device.address(), WRITE_HOLDING_REGISTER] + be_bytes(
                field(self@, 2),
            ) + be_bytes(field(self@, 4))),
    {
        let (frame, _rest) = build_two_fields(
            write_to,
            device.address(),
            WRITE_HOLDING_REGISTER,
            self.register_location(),
            self.register_value(),
        );
        frame
    }
}

/// The response to a single-register write: an echo of the request.
#[derive(Debug, PartialEq)]
pub struct Response<'b> {
    req: Request<'b>,
}

impl<'b> View for Response<'b> {
    type V = Seq<u8>;

    closed spec fn view(&self) -> Seq<u8> {
        self.req@
    }
}

impl<'b> Response<'b> {
    /// Parses a frame as this response, or names the exception it stands for.
    pub fn parse_from(frame: Frame<'b>) -> (r: Result<Response<'b>, Exception>)
        ensures
            parsed_as(r, write_single_status(frame@, WRITE_HOLDING_REGISTER), frame@),
    {
        match Request::parse_from(frame) {
            Ok(req) => Ok(Response { req }),
            Err(e) => Err(e),
        }
    }

    /// The address of the register written.
    pub fn address(&self) -> (r: u16)
        ensures
            r == field(self@, 2),
    {
        self.req.register_location()
    }

    /// The value written.
    pub fn value(&self) -> (r: u16)
        ensures
            r == field(self@, 4),
    {
        self.req.register_value()
    }
}

} // verus!
