//! Classifies a frame of unknown kind by its function code.
use vstd::prelude::*;

use crate::checksum::crc_matches;
use crate::frame::Frame;
use crate::function::{
    READ_COILS, READ_DISCRETE_INPUTS, READ_HOLDING_REGISTERS, READ_INPUT_REGISTERS, WRITE_COIL,
    WRITE_HOLDING_REGISTER, WRITE_MULTIPLE_COILS, WRITE_MULTIPLE_HOLDING_REGISTERS,
};
use crate::pdu::{counted_ok, fixed_ok};
use crate::{request, response, Error};

verus! {

/// One of the function codes that the dispatch enumerations know.
pub open spec fn is_supported(code: u8) -> bool {
    code == READ_COILS || code == READ_DISCRETE_INPUTS || code == READ_HOLDING_REGISTERS || code
        == READ_INPUT_REGISTERS || code == WRITE_COIL || code == WRITE_HOLDING_REGISTER || code
        == WRITE_MULTIPLE_COILS || code == WRITE_MULTIPLE_HOLDING_REGISTERS
}

/// The length rule of the request with the frame's function code.
pub open spec fn request_len_ok(bytes: Seq<u8>) -> bool {
    if bytes[1] == WRITE_MULTIPLE_COILS || bytes[1] == WRITE_MULTIPLE_HOLDING_REGISTERS {
        counted_ok(bytes, 6)
    } else {
        fixed_ok(bytes)
    }
}

/// The length rule of the response with the frame's function code.
pub open spec fn response_len_ok(bytes: Seq<u8>) -> bool {
    if bytes[1] == READ_COILS || bytes[1] == READ_DISCRETE_INPUTS || bytes[1]
        == READ_HOLDING_REGISTERS || bytes[1] == READ_INPUT_REGISTERS {
        counted_ok(bytes, 2)
    } else {
        fixed_ok(bytes)
    }
}

/// The outcome of classifying a checked frame whose length rule is `len_ok`.
pub open spec fn dispatch_status(bytes: Seq<u8>, len_ok: bool) -> Result<(), Error> {
    if !is_supported(bytes[1]) {
        Err(Error::UnknownFunction)
    } else if !len_ok {
        Err(Error::DecodeInvalidLength)
    } else {
        Ok(())
    }
}

/// The outcome of checking raw bytes as a frame, then classifying it.
pub open spec fn dispatch_bytes_status(bytes: Seq<u8>, len_ok: bool) -> Result<(), Error> {
    if bytes.len() < 4 {
        Err(Error::InvalidLength)
    } else if !crc_matches(bytes) {
        Err(Error::InvalidChecksum)
    } else {
        dispatch_status(bytes, len_ok)
    }
}

/// Every supported request, one variant per function code.
#[derive(Debug, Clone, Copy, PartialEq, Eq)]
pub enum CommonRequests<'a> {
    ReadCoils(request::ReadCoils<'a>),
    ReadDiscreteInputs(request::ReadDiscreteInputs<'a>),
    ReadHoldingRegisters(request::ReadHoldingRegisters<'a>),
    ReadInputRegisters(request::ReadInputRegisters<'a>),
    WriteCoil(request::WriteCoil<'a>),
    WriteHoldingRegister(request::WriteHoldingRegister<'a>),
    WriteMultipleCoils(request::WriteMultipleCoils<'a>),
    WriteMultipleHoldingRegisters(request::WriteMultipleHoldingRegisters<'a>),
}

impl<'a> View for CommonRequests<'a> {
    type V = Seq<u8>;

    open spec fn view(&self) -> Seq<u8> {
        match self {
            CommonRequests::ReadCoils(m) => m@,
            CommonRequests::ReadDiscreteInputs(m) => m@,
            CommonRequests::ReadHoldingRegisters(m) => m@,
            CommonRequests::ReadInputRegisters(m) => m@,
            CommonRequests::WriteCoil(m) => m@,
            CommonRequests::WriteHoldingRegister(m) => m@,
            CommonRequests::WriteMultipleCoils(m) => m@,
            CommonRequests::WriteMultipleHoldingRegisters(m) => m@,
        }
    }
}

/// `r` is what classifying returns for `status`: on success a variant
/// whose function code is the frame's, viewing the same bytes.
pub open spec fn classified_request(r: Result<CommonRequests, Error>, status: Result<(), Error>, bytes: Seq<u8>) -> bool {
    match r {
        Ok(d) => status is Ok && d@ == bytes && d.function_code() == bytes[1],
        Err(e) => status == Err::<(), Error>(e),
    }
}

impl<'a> CommonRequests<'a> {
    /// The function code that the variant stands for.
    pub open spec fn function_code(&self) -> u8 {
        match self {
            CommonRequests::ReadCoils(_) => READ_COILS,
            CommonRequests::ReadDiscreteInputs(_) => READ_DISCRETE_INPUTS,
            CommonRequests::ReadHoldingRegisters(_) => READ_HOLDING_REGISTERS,
            CommonRequests::ReadInputRegisters(_) => READ_INPUT_REGISTERS,
            CommonRequests::WriteCoil(_) => WRITE_COIL,
            CommonRequests::WriteHoldingRegister(_) => WRITE_HOLDING_REGISTER,
            CommonRequests::WriteMultipleCoils(_) => WRITE_MULTIPLE_COILS,
            CommonRequests::WriteMultipleHoldingRegisters(_) => WRITE_MULTIPLE_HOLDING_REGISTERS,
        }
    }

    /// The frame of the request.
    pub fn as_frame(&self) -> (r: Frame<'a>)
        ensures
            r@ == self@,
    {
        match self {
            CommonRequests::ReadCoils(m) => m.as_frame(),
            CommonRequests::ReadDiscreteInputs(m) => m.as_frame(),
            CommonRequests::ReadHoldingRegisters(m) => m.as_frame(),
            CommonRequests::ReadInputRegisters(m) => m.as_frame(),
            CommonRequests::WriteCoil(m) => m.as_frame(),
            CommonRequests::WriteHoldingRegister(m) => m.as_frame(),
            CommonRequests::WriteMultipleCoils(m) => m.as_frame(),
            CommonRequests::WriteMultipleHoldingRegisters(m) => m.as_frame(),
        }
    }

    /// Classifies a checked frame by its function code and checks it as
    /// the matching request.
    pub fn try_from(frame: Frame<'a>) -> (r: Result<Self, Error>)
        ensures
            classified_request(r, dispatch_status(frame@, request_len_ok(frame@)), frame@),
    {
        let code = frame.function().0;
        if code == READ_COILS {
            match request::ReadCoils::try_from(frame) {
                Ok(m) => Ok(CommonRequests::ReadCoils(m)),
                Err(e) => Err(e),
            }
        } else if code == READ_DISCRETE_INPUTS {
            match request::ReadDiscreteInputs::try_from(frame) {
                Ok(m) => Ok(CommonRequests::ReadDiscreteInputs(m)),
                Err(e) => Err(e),
            }
        } else if code == READ_HOLDING_REGISTERS {
            match request::ReadHoldingRegisters::try_from(frame) {
                Ok(m) => Ok(CommonRequests::ReadHoldingRegisters(m)),
                Err(e) => Err(e),
            }
        } else if code == READ_INPUT_REGISTERS {
            match request::ReadInputRegisters::try_from(frame) {
                Ok(m) => Ok(CommonRequests::ReadInputRegisters(m)),
                Err(e) => Err(e),
            }
        } else if code == WRITE_COIL {
            match request::WriteCoil::try_from(frame) {
                Ok(m) => Ok(CommonRequests::WriteCoil(m)),
                Err(e) => Err(e),
            }
        } else if code == WRITE_HOLDING_REGISTER {
            match request::WriteHoldingRegister::try_from(frame) {
                Ok(m) => Ok(CommonRequests::WriteHoldingRegister(m)),
                Err(e) => Err(e),
            }
        } else if code == WRITE_MULTIPLE_COILS {
            match request::WriteMultipleCoils::try_from(frame) {
                Ok(m) => Ok(CommonRequests::WriteMultipleCoils(m)),
                Err(e) => Err(e),
            }
        } else if code == WRITE_MULTIPLE_HOLDING_REGISTERS {
            match request::WriteMultipleHoldingRegisters::try_from(frame) {
                Ok(m) => Ok(CommonRequests::WriteMultipleHoldingRegisters(m)),
                Err(e) => Err(e),
            }
        } else {
            Err(Error::UnknownFunction)
        }
    }

    /// Checks `bytes` as a frame, then classifies it.
    pub fn try_from_bytes(bytes: &'a [u8]) -> (r: Result<Self, Error>)
        ensures
            classified_request(r, dispatch_bytes_status(bytes@, request_len_ok(bytes@)), bytes@),
    {
        match Frame::try_from(bytes) {
            Ok(frame) => Self::try_from(frame),
            Err(e) => Err(e),
        }
    }
}

/// Every supported response, one variant per function code.
#[derive(Debug, Clone, Copy, PartialEq, Eq)]
pub enum CommonResponses<'a> {
    ReadCoils(response::ReadCoils<'a>),
    ReadDiscreteInputs(response::ReadDiscreteInputs<'a>),
    ReadHoldingRegisters(response::ReadHoldingRegisters<'a>),
    ReadInputRegisters(response::ReadInputRegisters<'a>),
    WriteCoil(response::WriteCoil<'a>),
    WriteHoldingRegister(response::WriteHoldingRegister<'a>),
    WriteMultipleCoils(response::WriteMultipleCoils<'a>),
    WriteMultipleHoldingRegisters(response::WriteMultipleHoldingRegisters<'a>),
}

impl<'a> View for CommonResponses<'a> {
    type V = Seq<u8>;

    open spec fn view(&self) -> Seq<u8> {
        match self {
            CommonResponses::ReadCoils(m) => m@,
            CommonResponses::ReadDiscreteInputs(m) => m@,
            CommonResponses::ReadHoldingRegisters(m) => m@,
            CommonResponses::ReadInputRegisters(m) => m@,
            CommonResponses::WriteCoil(m) => m@,
            CommonResponses::WriteHoldingRegister(m) => m@,
            CommonResponses::WriteMultipleCoils(m) => m@,
            CommonResponses::WriteMultipleHoldingRegisters(m) => m@,
        }
    }
}

/// `r` is what classifying returns for `status`: on success a variant
/// whose function code is the frame's, viewing the same bytes.
pub open spec fn classified_response(r: Result<CommonResponses, Error>, status: Result<(), Error>, bytes: Seq<u8>) -> bool {
    match r {
        Ok(d) => status is Ok && d@ == bytes && d.function_code() == bytes[1],
        Err(e) => status == Err::<(), Error>(e),
    }
}

impl<'a> CommonResponses<'a> {
    /// The function code that the variant stands for.
    pub open spec fn function_code(&self) -> u8 {
        match self {
            CommonResponses::ReadCoils(_) => READ_COILS,
            CommonResponses::ReadDiscreteInputs(_) => READ_DISCRETE_INPUTS,
            CommonResponses::ReadHoldingRegisters(_) => READ_HOLDING_REGISTERS,
            CommonResponses::ReadInputRegisters(_) => READ_INPUT_REGISTERS,
            CommonResponses::WriteCoil(_) => WRITE_COIL,
            CommonResponses::WriteHoldingRegister(_) => WRITE_HOLDING_REGISTER,
            CommonResponses::WriteMultipleCoils(_) => WRITE_MULTIPLE_COILS,
            CommonResponses::WriteMultipleHoldingRegisters(_) => WRITE_MULTIPLE_HOLDING_REGISTERS,
        }
    }

    /// The frame of the response.
    pub fn as_frame(&self) -> (r: Frame<'a>)
        ensures
            r@ == self@,
    {
        match self {
            CommonResponses::ReadCoils(m) => m.as_frame(),
            CommonResponses::ReadDiscreteInputs(m) => m.as_frame(),
            CommonResponses::ReadHoldingRegisters(m) => m.as_frame(),
            CommonResponses::ReadInputRegisters(m) => m.as_frame(),
            CommonResponses::WriteCoil(m) => m.as_frame(),
            CommonResponses::WriteHoldingRegister(m) => m.as_frame(),
            CommonResponses::WriteMultipleCoils(m) => m.as_frame(),
            CommonResponses::WriteMultipleHoldingRegisters(m) => m.as_frame(),
        }
    }

    /// Classifies a checked frame by its function code and checks it as
    /// the matching response.
    pub fn try_from(frame: Frame<'a>) -> (r: Result<Self, Error>)
        ensures
            classified_response(r, dispatch_status(frame@, response_len_ok(frame@)), frame@),
    {
        let code = frame.function().0;
        if code == READ_COILS {
            match response::ReadCoils::try_from(frame) {
                Ok(m) => Ok(CommonResponses::ReadCoils(m)),
                Err(e) => Err(e),
            }
        } else if code == READ_DISCRETE_INPUTS {
            match response::ReadDiscreteInputs::try_from(frame) {
                Ok(m) => Ok(CommonResponses::ReadDiscreteInputs(m)),
                Err(e) => Err(e),
            }
        } else if code == READ_HOLDING_REGISTERS {
            match response::ReadHoldingRegisters::try_from(frame) {
                Ok(m) => Ok(CommonResponses::ReadHoldingRegisters(m)),
                Err(e) => Err(e),
            }
        } else if code == READ_INPUT_REGISTERS {
            match response::ReadInputRegisters::try_from(frame) {
                Ok(m) => Ok(CommonResponses::ReadInputRegisters(m)),
                Err(e) => Err(e),
            }
        } else if code == WRITE_COIL {
            match response::WriteCoil::try_from(frame) {
                Ok(m) => Ok(CommonResponses::WriteCoil(m)),
                Err(e) => Err(e),
            }
        } else if code == WRITE_HOLDING_REGISTER {
            match response::WriteHoldingRegister::try_from(frame) {
                Ok(m) => Ok(CommonResponses::WriteHoldingRegister(m)),
                Err(e) => Err(e),
            }
        } else if code == WRITE_MULTIPLE_COILS {
            match response::WriteMultipleCoils::try_from(frame) {
                Ok(m) => Ok(CommonResponses::WriteMultipleCoils(m)),
                Err(e) => Err(e),
            }
        } else if code == WRITE_MULTIPLE_HOLDING_REGISTERS {
            match response::WriteMultipleHoldingRegisters::try_from(frame) {
                Ok(m) => Ok(CommonResponses::WriteMultipleHoldingRegisters(m)),
                Err(e) => Err(e),
            }
        } else {
            Err(Error::UnknownFunction)
        }
    }

    /// Checks `bytes` as a frame, then classifies it.
    pub fn try_from_bytes(bytes: &'a [u8]) -> (r: Result<Self, Error>)
        ensures
            classified_response(r, dispatch_bytes_status(bytes@, response_len_ok(bytes@)), bytes@),
    {
        match Frame::try_from(bytes) {
            Ok(frame) => Self::try_from(frame),
            Err(e) => Err(e),
        }
    }
}

} // verus!
