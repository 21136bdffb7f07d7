//! Requests, one view per supported function code.
use vstd::prelude::*;

use crate::bits::{bit_in, packed_len, packs, unpacked};
use crate::checksum::{crc_matches, with_crc};
use crate::exception::Exception;
use crate::frame::{frame_status, payload_of, Frame};
use crate::function::{
    exception_code, Function, READ_COILS, READ_DISCRETE_INPUTS, READ_HOLDING_REGISTERS,
    READ_INPUT_REGISTERS, WRITE_COIL, WRITE_HOLDING_REGISTER, WRITE_MULTIPLE_COILS,
    WRITE_MULTIPLE_HOLDING_REGISTERS,
};
use crate::pdu::{
    build_bits_counted, build_bits_response, build_regs_counted, build_regs_response,
    build_two_fields, bytes_status, counted_data, counted_len_valid, counted_ok, decoded_as, field,
    field_at, fixed_len_valid, fixed_ok, pdu_status, FunctionCode, PacketLen,
};
use crate::registers::{be_bytes, regs_bytes, regs_of, Registers};
use crate::response;
use crate::{Error, COIL_ON};

verus! {

/// A frame of three bytes is too short; a read-holding-registers request
/// whose payload is three or five bytes long has the wrong length; so has a
/// write-multiple-coils request whose byte count disagrees with the bytes
/// that follow it.
pub proof fn lemma_length_boundaries(bytes: Seq<u8>)
    ensures
        bytes.len() == 3 ==> frame_status(bytes) == Err::<(), Error>(Error::InvalidLength),
        bytes.len() >= 4 && bytes[1] == READ_HOLDING_REGISTERS && (payload_of(bytes).len() == 3
            || payload_of(bytes).len() == 5) ==> pdu_status(
            bytes,
            READ_HOLDING_REGISTERS,
            fixed_ok(bytes),
        ) == Err::<(), Error>(Error::DecodeInvalidLength),
        bytes.len() >= 7 && bytes[1] == WRITE_MULTIPLE_COILS && bytes.len() != 9 + bytes[6]
            ==> pdu_status(bytes, WRITE_MULTIPLE_COILS, counted_ok(bytes, 6)) == Err::<(), Error>(
            Error::DecodeInvalidLength,
        ),
{
}

/// Each coil state paired with its address, counting up from `start` (wrapping at 65536).
pub open spec fn indexed_coils(start: u16, bits: Seq<bool>) -> Seq<(u16, bool)> {
    Seq::new(bits.len(), |i: int| (((start as int + i) % 65536) as u16, bits[i]))
}

/// Request to read coils: a start address and a count.
#[derive(Debug, Clone, Copy, PartialEq, Eq)]
pub struct ReadCoils<'a> {
    frame: Frame<'a>,
}

impl<'a> View for ReadCoils<'a> {
    type V = Seq<u8>;

    closed spec fn view(&self) -> Seq<u8> {
        self.frame@
    }
}

impl<'a> ReadCoils<'a> {
    /// Whether a frame's bytes are laid out as this request.
    pub open spec fn accepts(bytes: Seq<u8>) -> bool {
        bytes[1] == READ_COILS && fixed_ok(bytes)
    }

    #[verifier::type_invariant]
    closed spec fn well_formed(self) -> bool {
        Self::accepts(self.frame@)
    }

    /// Views a frame that is known to be laid out as this request.
    pub fn from_frame_unchecked(frame: Frame<'a>) -> (r: Self)
        requires
            Self::accepts(frame@),
        ensures
            r@ == frame@,
    {
        ReadCoils { frame }
    }

    /// Views bytes that are known to be laid out as this request.
    pub fn from_bytes_unchecked(bytes: &'a [u8]) -> (r: Self)
        requires
            Self::accepts(bytes@),
        ensures
            r@ == bytes@,
    {
        ReadCoils { frame: Frame::new_unchecked(bytes) }
    }

    /// The underlying frame.
    pub fn as_frame(&self) -> (r: Frame<'a>)
        ensures
            r@ == self@,
    {
        self.frame
    }

    /// Views a checked frame as this request, checking its function code and length.
    pub fn try_from(frame: Frame<'a>) -> (r: Result<Self, Error>)
        ensures
            decoded_as(r, pdu_status(frame@, READ_COILS, fixed_ok(frame@)), frame@),
    {
        if frame.function().0 != READ_COILS {
            Err(Error::UnexpectedFunction)
        } else if !fixed_len_valid(&frame) {
            Err(Error::DecodeInvalidLength)
        } else {
            Ok(ReadCoils { frame })
        }
    }

    /// Checks `bytes` as a frame, then as this request.
    pub fn try_from_bytes(bytes: &'a [u8]) -> (r: Result<Self, Error>)
        ensures
            decoded_as(r, bytes_status(bytes@, READ_COILS, fixed_ok(bytes@)), bytes@),
    {
        match Frame::try_from(bytes) {
            Ok(frame) => Self::try_from(frame),
            Err(e) => Err(e),
        }
    }

    /// Builds the request for `address`: `count` states from `start_index`.
    pub fn new(frame_buffer: &'a mut [u8], address: u8, start_index: u16, count: u16) -> (r: (Self, &'a mut [u8]))
        requires
            old(frame_buffer)@.len() >= 8,
        ensures
            r.0@ == with_crc(seq![address, READ_COILS] + be_bytes(start_index) + be_bytes(count)),
            r.1@.len() == old(frame_buffer)@.len() - 8,
    {
        let (frame, rem) = build_two_fields(frame_buffer, address, READ_COILS, start_index, count);
        (ReadCoils { frame }, rem)
    }

    /// The address of the first state to read.
    pub fn start_index(&self) -> (r: u16)
        ensures
            r == field(self@, 2),
    {
        proof {
            use_type_invariant(self);
        }
        field_at(self.frame.raw_bytes(), 2)
    }

    /// How many states to read.
    pub fn coil_count(&self) -> (r: u16)
        ensures
            r == field(self@, 4),
    {
        proof {
            use_type_invariant(self);
        }
        field_at(self.frame.raw_bytes(), 4)
    }

    /// Builds in `response_buffer` the response that carries `coils`.
    pub fn response_builder<'buff>(&self, response_buffer: &'buff mut [u8], coils: &[bool]) -> (r: (
        response::ReadCoils<'buff>,
        &'buff mut [u8],
    ))
        requires
            coils@.len() <= 2000,
            old(response_buffer)@.len() >= 5 + packed_len(coils@.len() as nat),
        ensures
            r.0@.len() == 5 + packed_len(coils@.len() as nat),
            r.0@.subrange(0, 3) == seq![self@[0], READ_COILS, packed_len(coils@.len() as nat) as u8],
            packs(counted_data(r.0@, 2), coils@),
            crc_matches(r.0@),
            r.1@.len() == old(response_buffer)@.len() - 5 - packed_len(coils@.len() as nat),
    {
        let (frame, rem) = build_bits_response(response_buffer, self.frame.address(), READ_COILS, coils);
        (response::ReadCoils::from_frame_unchecked(frame), rem)
    }

    /// Builds in `response_buffer` the exception response to this request.
    pub fn response_exception<'buff>(
        &self,
        response_buffer: &'buff mut [u8],
        exception: Exception,
    ) -> (r: (Frame<'buff>, &'buff mut [u8]))
        requires
            old(response_buffer)@.len() >= 5,
        ensures
            r.0@ == with_crc(seq![self@[0], exception_code(self@[1]), exception.0]),
            r.1@.len() == old(response_buffer)@.len() - 5,
    {
        self.frame.response_exception(response_buffer, exception)
    }
}

/// Request to read discrete inputs: a start address and a count.
#[derive(Debug, Clone, Copy, PartialEq, Eq)]
pub struct ReadDiscreteInputs<'a> {
    frame: Frame<'a>,
}

impl<'a> View for ReadDiscreteInputs<'a> {
    type V = Seq<u8>;

    closed spec fn view(&self) -> Seq<u8> {
        self.frame@
    }
}

impl<'a> ReadDiscreteInputs<'a> {
    /// Whether a frame's bytes are laid out as this request.
    pub open spec fn accepts(bytes: Seq<u8>) -> bool {
        bytes[1] == READ_DISCRETE_INPUTS && fixed_ok(bytes)
    }

    #[verifier::type_invariant]
    closed spec fn well_formed(self) -> bool {
        Self::accepts(self.frame@)
    }

    /// Views a frame that is known to be laid out as this request.
    pub fn from_frame_unchecked(frame: Frame<'a>) -> (r: Self)
        requires
            Self::accepts(frame@),
        ensures
            r@ == frame@,
    {
        ReadDiscreteInputs { frame }
    }

    /// Views bytes that are known to be laid out as this request.
    pub fn from_bytes_unchecked(bytes: &'a [u8]) -> (r: Self)
        requires
            Self::accepts(bytes@),
        ensures
            r@ == bytes@,
    {
        ReadDiscreteInputs { frame: Frame::new_unchecked(bytes) }
    }

    /// The underlying frame.
    pub fn as_frame(&self) -> (r: Frame<'a>)
        ensures
            r@ == self@,
    {
        self.frame
    }

    /// Views a checked frame as this request, checking its function code and length.
    pub fn try_from(frame: Frame<'a>) -> (r: Result<Self, Error>)
        ensures
            decoded_as(r, pdu_status(frame@, READ_DISCRETE_INPUTS, fixed_ok(frame@)), frame@),
    {
        if frame.function().0 != READ_DISCRETE_INPUTS {
            Err(Error::UnexpectedFunction)
        } else if !fixed_len_valid(&frame) {
            Err(Error::DecodeInvalidLength)
        } else {
            Ok(ReadDiscreteInputs { frame })
        }
    }

    /// Checks `bytes` as a frame, then as this request.
    pub fn try_from_bytes(bytes: &'a [u8]) -> (r: Result<Self, Error>)
        ensures
            decoded_as(r, bytes_status(bytes@, READ_DISCRETE_INPUTS, fixed_ok(bytes@)), bytes@),
    {
        match Frame::try_from(bytes) {
            Ok(frame) => Self::try_from(frame),
            Err(e) => Err(e),
        }
    }

    /// Builds the request for `address`: `count` states from `start_index`.
    pub fn new(frame_buffer: &'a mut [u8], address: u8, start_index: u16, count: u16) -> (r: (Self, &'a mut [u8]))
        requires
            old(frame_buffer)@.len() >= 8,
        ensures
            r.0@ == with_crc(seq![address, READ_DISCRETE_INPUTS] + be_bytes(start_index) + be_bytes(count)),
            r.1@.len() == old(frame_buffer)@.len() - 8,
    {
        let (frame, rem) = build_two_fields(frame_buffer, address, READ_DISCRETE_INPUTS, start_index, count);
        (ReadDiscreteInputs { frame }, rem)
    }

    /// The address of the first state to read.
    pub fn start_index(&self) -> (r: u16)
        ensures
            r == field(self@, 2),
    {
        proof {
            use_type_invariant(self);
        }
        field_at(self.frame.raw_bytes(), 2)
    }

    /// How many states to read.
    pub fn input_count(&self) -> (r: u16)
        ensures
            r == field(self@, 4),
    {
        proof {
            use_type_invariant(self);
        }
        field_at(self.frame.raw_bytes(), 4)
    }

    /// Builds in `response_buffer` the response that carries `inputs`.
    pub fn response_builder<'buff>(&self, response_buffer: &'buff mut [u8], inputs: &[bool]) -> (r: (
        response::ReadDiscreteInputs<'buff>,
        &'buff mut [u8],
    ))
        requires
            inputs@.len() <= 2000,
            old(response_buffer)@.len() >= 5 + packed_len(inputs@.len() as nat),
        ensures
            r.0@.len() == 5 + packed_len(inputs@.len() as nat),
            r.0@.subrange(0, 3) == seq![self@[0], READ_DISCRETE_INPUTS, packed_len(inputs@.len() as nat) as u8],
            packs(counted_data(r.0@, 2), inputs@),
            crc_matches(r.0@),
            r.1@.len() == old(response_buffer)@.len() - 5 - packed_len(inputs@.len() as nat),
    {
        let (frame, rem) = build_bits_response(response_buffer, self.frame.address(), READ_DISCRETE_INPUTS, inputs);
        (response::ReadDiscreteInputs::from_frame_unchecked(frame), rem)
    }

    /// Builds in `response_buffer` the exception response to this request.
    pub fn response_exception<'buff>(
        &self,
        response_buffer: &'buff mut [u8],
        exception: Exception,
    ) -> (r: (Frame<'buff>, &'buff mut [u8]))
        requires
            old(response_buffer)@.len() >= 5,
        ensures
            r.0@ == with_crc(seq![self@[0], exception_code(self@[1]), exception.0]),
            r.1@.len() == old(response_buffer)@.len() - 5,
    {
        self.frame.response_exception(response_buffer, exception)
    }
}

/// Request to read holding registers: a start address and a count.
#[derive(Debug, Clone, Copy, PartialEq, Eq)]
pub struct ReadHoldingRegisters<'a> {
    frame: Frame<'a>,
}

impl<'a> View for ReadHoldingRegisters<'a> {
    type V = Seq<u8>;

    closed spec fn view(&self) -> Seq<u8> {
        self.frame@
    }
}

impl<'a> ReadHoldingRegisters<'a> {
    /// Whether a frame's bytes are laid out as this request.
    pub open spec fn accepts(bytes: Seq<u8>) -> bool {
        bytes[1] == READ_HOLDING_REGISTERS && fixed_ok(bytes)
    }

    #[verifier::type_invariant]
    closed spec fn well_formed(self) -> bool {
        Self::accepts(self.frame@)
    }

    /// Views a frame that is known to be laid out as this request.
    pub fn from_frame_unchecked(frame: Frame<'a>) -> (r: Self)
        requires
            Self::accepts(frame@),
        ensures
            r@ == frame@,
    {
        ReadHoldingRegisters { frame }
    }

    /// Views bytes that are known to be laid out as this request.
    pub fn from_bytes_unchecked(bytes: &'a [u8]) -> (r: Self)
        requires
            Self::accepts(bytes@),
        ensures
            r@ == bytes@,
    {
        ReadHoldingRegisters { frame: Frame::new_unchecked(bytes) }
    }

    /// The underlying frame.
    pub fn as_frame(&self) -> (r: Frame<'a>)
        ensures
            r@ == self@,
    {
        self.frame
    }

    /// Views a checked frame as this request, checking its function code and length.
    pub fn try_from(frame: Frame<'a>) -> (r: Result<Self, Error>)
        ensures
            decoded_as(r, pdu_status(frame@, READ_HOLDING_REGISTERS, fixed_ok(frame@)), frame@),
    {
        if frame.function().0 != READ_HOLDING_REGISTERS {
            Err(Error::UnexpectedFunction)
        } else if !fixed_len_valid(&frame) {
            Err(Error::DecodeInvalidLength)
        } else {
            Ok(ReadHoldingRegisters { frame })
        }
    }

    /// Checks `bytes` as a frame, then as this request.
    pub fn try_from_bytes(bytes: &'a [u8]) -> (r: Result<Self, Error>)
        ensures
            decoded_as(r, bytes_status(bytes@, READ_HOLDING_REGISTERS, fixed_ok(bytes@)), bytes@),
    {
        match Frame::try_from(bytes) {
            Ok(frame) => Self::try_from(frame),
            Err(e) => Err(e),
        }
    }

    /// Builds the request for `address`: `count` registers from `start_index`.
    pub fn new(frame_buffer: &'a mut [u8], address: u8, start_index: u16, count: u16) -> (r: (Self, &'a mut [u8]))
        requires
            old(frame_buffer)@.len() >= 8,
        ensures
            r.0@ == with_crc(seq![address, READ_HOLDING_REGISTERS] + be_bytes(start_index) + be_bytes(count)),
            r.1@.len() == old(frame_buffer)@.len() - 8,
    {
        let (frame, rem) = build_two_fields(frame_buffer, address, READ_HOLDING_REGISTERS, start_index, count);
        (ReadHoldingRegisters { frame }, rem)
    }

    /// The address of the first register to read.
    pub fn start_index(&self) -> (r: u16)
        ensures
            r == field(self@, 2),
    {
        proof {
            use_type_invariant(self);
        }
        field_at(self.frame.raw_bytes(), 2)
    }

    /// How many registers to read.
    pub fn register_count(&self) -> (r: u16)
        ensures
            r == field(self@, 4),
    {
        proof {
            use_type_invariant(self);
        }
        field_at(self.frame.raw_bytes(), 4)
    }

    /// Builds in `response_buffer` the response that carries `registers`.
    pub fn response_builder<'buff>(&self, response_buffer: &'buff mut [u8], registers: &[u16]) -> (r: (
        response::ReadHoldingRegisters<'buff>,
        &'buff mut [u8],
    ))
        requires
            2 * registers@.len() <= 250,
            old(response_buffer)@.len() >= 5 + 2 * registers@.len(),
        ensures
            r.0@ == with_crc(seq![self@[0], READ_HOLDING_REGISTERS, (2 * registers@.len()) as u8] + regs_bytes(
                registers@,
            )),
            r.1@.len() == old(response_buffer)@.len() - 5 - 2 * registers@.len(),
    {
        let (frame, rem) = build_regs_response(
            response_buffer,
            self.frame.address(),
            READ_HOLDING_REGISTERS,
            registers,
        );
        (response::ReadHoldingRegisters::from_frame_unchecked(frame), rem)
    }

    /// Builds in `response_buffer` the exception response to this request.
    pub fn response_exception<'buff>(
        &self,
        response_buffer: &'buff mut [u8],
        exception: Exception,
    ) -> (r: (Frame<'buff>, &'buff mut [u8]))
        requires
            old(response_buffer)@.len() >= 5,
        ensures
            r.0@ == with_crc(seq![self@[0], exception_code(self@[1]), exception.0]),
            r.1@.len() == old(response_buffer)@.len() - 5,
    {
        self.frame.response_exception(response_buffer, exception)
    }
}

/// Request to read input registers: a start address and a count.
#[derive(Debug, Clone, Copy, PartialEq, Eq)]
pub struct ReadInputRegisters<'a> {
    frame: Frame<'a>,
}

impl<'a> View for ReadInputRegisters<'a> {
    type V = Seq<u8>;

    closed spec fn view(&self) -> Seq<u8> {
        self.frame@
    }
}

impl<'a> ReadInputRegisters<'a> {
    /// Whether a frame's bytes are laid out as this request.
    pub open spec fn accepts(bytes: Seq<u8>) -> bool {
        bytes[1] == READ_INPUT_REGISTERS && fixed_ok(bytes)
    }

    #[verifier::type_invariant]
    closed spec fn well_formed(self) -> bool {
        Self::accepts(self.frame@)
    }

    /// Views a frame that is known to be laid out as this request.
    pub fn from_frame_unchecked(frame: Frame<'a>) -> (r: Self)
        requires
            Self::accepts(frame@),
        ensures
            r@ == frame@,
    {
        ReadInputRegisters { frame }
    }

    /// Views bytes that are known to be laid out as this request.
    pub fn from_bytes_unchecked(bytes: &'a [u8]) -> (r: Self)
        requires
            Self::accepts(bytes@),
        ensures
            r@ == bytes@,
    {
        ReadInputRegisters { frame: Frame::new_unchecked(bytes) }
    }

    /// The underlying frame.
    pub fn as_frame(&self) -> (r: Frame<'a>)
        ensures
            r@ == self@,
    {
        self.frame
    }

    /// Views a checked frame as this request, checking its function code and length.
    pub fn try_from(frame: Frame<'a>) -> (r: Result<Self, Error>)
        ensures
            decoded_as(r, pdu_status(frame@, READ_INPUT_REGISTERS, fixed_ok(frame@)), frame@),
    {
        if frame.function().0 != READ_INPUT_REGISTERS {
            Err(Error::UnexpectedFunction)
        } else if !fixed_len_valid(&frame) {
            Err(Error::DecodeInvalidLength)
        } else {
            Ok(ReadInputRegisters { frame })
        }
    }

    /// Checks `bytes` as a frame, then as this request.
    pub fn try_from_bytes(bytes: &'a [u8]) -> (r: Result<Self, Error>)
        ensures
            decoded_as(r, bytes_status(bytes@, READ_INPUT_REGISTERS, fixed_ok(bytes@)), bytes@),
    {
        match Frame::try_from(bytes) {
            Ok(frame) => Self::try_from(frame),
            Err(e) => Err(e),
        }
    }

    /// Builds the request for `address`: `count` registers from `start_index`.
    pub fn new(frame_buffer: &'a mut [u8], address: u8, start_index: u16, count: u16) -> (r: (Self, &'a mut [u8]))
        requires
            old(frame_buffer)@.len() >= 8,
        ensures
            r.0@ == with_crc(seq![address, READ_INPUT_REGISTERS] + be_bytes(start_index) + be_bytes(count)),
            r.1@.len() == old(frame_buffer)@.len() - 8,
    {
        let (frame, rem) = build_two_fields(frame_buffer, address, READ_INPUT_REGISTERS, start_index, count);
        (ReadInputRegisters { frame }, rem)
    }

    /// The address of the first register to read.
    pub fn start_index(&self) -> (r: u16)
        ensures
            r == field(self@, 2),
    {
        proof {
            use_type_invariant(self);
        }
        field_at(self.frame.raw_bytes(), 2)
    }

    /// How many registers to read.
    pub fn register_count(&self) -> (r: u16)
        ensures
            r == field(self@, 4),
    {
        proof {
            use_type_invariant(self);
        }
        field_at(self.frame.raw_bytes(), 4)
    }

    /// Builds in `response_buffer` the response that carries `registers`.
    pub fn response_builder<'buff>(&self, response_buffer: &'buff mut [u8], registers: &[u16]) -> (r: (
        response::ReadInputRegisters<'buff>,
        &'buff mut [u8],
    ))
        requires
            2 * registers@.len() <= 250,
            old(response_buffer)@.len() >= 5 + 2 * registers@.len(),
        ensures
            r.0@ == with_crc(seq![self@[0], READ_INPUT_REGISTERS, (2 * registers@.len()) as u8] + regs_bytes(
                registers@,
            )),
            r.1@.len() == old(response_buffer)@.len() - 5 - 2 * registers@.len(),
    {
        let (frame, rem) = build_regs_response(
            response_buffer,
            self.frame.address(),
            READ_INPUT_REGISTERS,
            registers,
        );
        (response::ReadInputRegisters::from_frame_unchecked(frame), rem)
    }

    /// Builds in `response_buffer` the exception response to this request.
    pub fn response_exception<'buff>(
        &self,
        response_buffer: &'buff mut [u8],
        exception: Exception,
    ) -> (r: (Frame<'buff>, &'buff mut [u8]))
        requires
            old(response_buffer)@.len() >= 5,
        ensures
            r.0@ == with_crc(seq![self@[0], exception_code(self@[1]), exception.0]),
            r.1@.len() == old(response_buffer)@.len() - 5,
    {
        self.frame.response_exception(response_buffer, exception)
    }
}

/// Request to write a single coil.
#[derive(Debug, Clone, Copy, PartialEq, Eq)]
pub struct WriteCoil<'a> {
    frame: Frame<'a>,
}

impl<'a> View for WriteCoil<'a> {
    type V = Seq<u8>;

    closed spec fn view(&self) -> Seq<u8> {
        self.frame@
    }
}

impl<'a> WriteCoil<'a> {
    /// Whether a frame's bytes are laid out as this request.
    pub open spec fn accepts(bytes: Seq<u8>) -> bool {
        bytes[1] == WRITE_COIL && fixed_ok(bytes)
    }

    #[verifier::type_invariant]
    closed spec fn well_formed(self) -> bool {
        Self::accepts(self.frame@)
    }

    /// Views a frame that is known to be laid out as this request.
    pub fn from_frame_unchecked(frame: Frame<'a>) -> (r: Self)
        requires
            Self::accepts(frame@),
        ensures
            r@ == frame@,
    {
        WriteCoil { frame }
    }

    /// Views bytes that are known to be laid out as this request.
    pub fn from_bytes_unchecked(bytes: &'a [u8]) -> (r: Self)
        requires
            Self::accepts(bytes@),
        ensures
            r@ == bytes@,
    {
        WriteCoil { frame: Frame::new_unchecked(bytes) }
    }

    /// The underlying frame.
    pub fn as_frame(&self) -> (r: Frame<'a>)
        ensures
            r@ == self@,
    {
        self.frame
    }

    /// Views a checked frame as this request, checking its function code and length.
    pub fn try_from(frame: Frame<'a>) -> (r: Result<Self, Error>)
        ensures
            decoded_as(r, pdu_status(frame@, WRITE_COIL, fixed_ok(frame@)), frame@),
    {
        if frame.function().0 != WRITE_COIL {
            Err(Error::UnexpectedFunction)
        } else if !fixed_len_valid(&frame) {
            Err(Error::DecodeInvalidLength)
        } else {
            Ok(WriteCoil { frame })
        }
    }

    /// Checks `bytes` as a frame, then as this request.
    pub fn try_from_bytes(bytes: &'a [u8]) -> (r: Result<Self, Error>)
        ensures
            decoded_as(r, bytes_status(bytes@, WRITE_COIL, fixed_ok(bytes@)), bytes@),
    {
        match Frame::try_from(bytes) {
            Ok(frame) => Self::try_from(frame),
            Err(e) => Err(e),
        }
    }

    /// Builds the request for `address`.
    pub fn new(frame_buffer: &'a mut [u8], address: u8, index: u16, value: u16) -> (r: (Self, &'a mut [u8]))
        requires
            old(frame_buffer)@.len() >= 8,
        ensures
            r.0@ == with_crc(seq![address, WRITE_COIL] + be_bytes(index) + be_bytes(value)),
            r.1@.len() == old(frame_buffer)@.len() - 8,
    {
        let (frame, rem) = build_two_fields(frame_buffer, address, WRITE_COIL, index, value);
        (WriteCoil { frame }, rem)
    }

    /// The address of the coil.
    pub fn index(&self) -> (r: u16)
        ensures
            r == field(self@, 2),
    {
        proof {
            use_type_invariant(self);
        }
        field_at(self.frame.raw_bytes(), 2)
    }

    /// The value to write: 0xFF00 for on, 0x0000 for off.
    pub fn value(&self) -> (r: u16)
        ensures
            r == field(self@, 4),
    {
        proof {
            use_type_invariant(self);
        }
        field_at(self.frame.raw_bytes(), 4)
    }

    /// Whether the request switches the coil on.
    pub fn is_on(&self) -> (r: bool)
        ensures
            r == (field(self@, 4) == COIL_ON),
    {
        self.value() == COIL_ON
    }

    /// Builds in `response_buffer` the response, which echoes the request.
    pub fn response_builder<'buff>(&self, response_buffer: &'buff mut [u8]) -> (r: (
        response::WriteCoil<'buff>,
        &'buff mut [u8],
    ))
        requires
            old(response_buffer)@.len() >= 8,
        ensures
            r.0@ == with_crc(seq![self@[0], WRITE_COIL] + be_bytes(field(self@, 2)) + be_bytes(
                field(self@, 4),
            )),
            r.1@.len() == old(response_buffer)@.len() - 8,
    {
        let (frame, rem) = build_two_fields(
            response_buffer,
            self.frame.address(),
            WRITE_COIL,
            self.index(),
            self.value(),
        );
        (response::WriteCoil::from_frame_unchecked(frame), rem)
    }

    /// Builds in `response_buffer` the exception response to this request.
    pub fn response_exception<'buff>(
        &self,
        response_buffer: &'buff mut [u8],
        exception: Exception,
    ) -> (r: (Frame<'buff>, &'buff mut [u8]))
        requires
            old(response_buffer)@.len() >= 5,
        ensures
            r.0@ == with_crc(seq![self@[0], exception_code(self@[1]), exception.0]),
            r.1@.len() == old(response_buffer)@.len() - 5,
    {
        self.frame.response_exception(response_buffer, exception)
    }
}

/// Request to write a single holding register.
#[derive(Debug, Clone, Copy, PartialEq, Eq)]
pub struct WriteHoldingRegister<'a> {
    frame: Frame<'a>,
}

impl<'a> View for WriteHoldingRegister<'a> {
    type V = Seq<u8>;

    closed spec fn view(&self) -> Seq<u8> {
        self.frame@
    }
}

impl<'a> WriteHoldingRegister<'a> {
    /// Whether a frame's bytes are laid out as this request.
    pub open spec fn accepts(bytes: Seq<u8>) -> bool {
        bytes[1] == WRITE_HOLDING_REGISTER && fixed_ok(bytes)
    }

    #[verifier::type_invariant]
    closed spec fn well_formed(self) -> bool {
        Self::accepts(self.frame@)
    }

    /// Views a frame that is known to be laid out as this request.
    pub fn from_frame_unchecked(frame: Frame<'a>) -> (r: Self)
        requires
            Self::accepts(frame@),
        ensures
            r@ == frame@,
    {
        WriteHoldingRegister { frame }
    }

    /// Views bytes that are known to be laid out as this request.
    pub fn from_bytes_unchecked(bytes: &'a [u8]) -> (r: Self)
        requires
            Self::accepts(bytes@),
        ensures
            r@ == bytes@,
    {
        WriteHoldingRegister { frame: Frame::new_unchecked(bytes) }
    }

    /// The underlying frame.
    pub fn as_frame(&self) -> (r: Frame<'a>)
        ensures
            r@ == self@,
    {
        self.frame
    }

    /// Views a checked frame as this request, checking its function code and length.
    pub fn try_from(frame: Frame<'a>) -> (r: Result<Self, Error>)
        ensures
            decoded_as(r, pdu_status(frame@, WRITE_HOLDING_REGISTER, fixed_ok(frame@)), frame@),
    {
        if frame.function().0 != WRITE_HOLDING_REGISTER {
            Err(Error::UnexpectedFunction)
        } else if !fixed_len_valid(&frame) {
            Err(Error::DecodeInvalidLength)
        } else {
            Ok(WriteHoldingRegister { frame })
        }
    }

    /// Checks `bytes` as a frame, then as this request.
    pub fn try_from_bytes(bytes: &'a [u8]) -> (r: Result<Self, Error>)
        ensures
            decoded_as(r, bytes_status(bytes@, WRITE_HOLDING_REGISTER, fixed_ok(bytes@)), bytes@),
    {
        match Frame::try_from(bytes) {
            Ok(frame) => Self::try_from(frame),
            Err(e) => Err(e),
        }
    }

    /// Builds the request for `address`.
    pub fn new(frame_buffer: &'a mut [u8], address: u8, index: u16, value: u16) -> (r: (Self, &'a mut [u8]))
        requires
            old(frame_buffer)@.len() >= 8,
        ensures
            r.0@ == with_crc(seq![address, WRITE_HOLDING_REGISTER] + be_bytes(index) + be_bytes(value)),
            r.1@.len() == old(frame_buffer)@.len() - 8,
    {
        let (frame, rem) = build_two_fields(frame_buffer, address, WRITE_HOLDING_REGISTER, index, value);
        (WriteHoldingRegister { frame }, rem)
    }

    /// The address of the register.
    pub fn index(&self) -> (r: u16)
        ensures
            r == field(self@, 2),
    {
        proof {
            use_type_invariant(self);
        }
        field_at(self.frame.raw_bytes(), 2)
    }

    /// The value to write.
    pub fn value(&self) -> (r: u16)
        ensures
            r == field(self@, 4),
    {
        proof {
            use_type_invariant(self);
        }
        field_at(self.frame.raw_bytes(), 4)
    }

    /// Builds in `response_buffer` the response, which echoes the request.
    pub fn response_builder<'buff>(&self, response_buffer: &'buff mut [u8]) -> (r: (
        response::WriteHoldingRegister<'buff>,
        &'buff mut [u8],
    ))
        requires
            old(response_buffer)@.len() >= 8,
        ensures
            r.0@ == with_crc(seq![self@[0], WRITE_HOLDING_REGISTER] + be_bytes(field(self@, 2)) + be_bytes(
                field(self@, 4),
            )),
            r.1@.len() == old(response_buffer)@.len() - 8,
    {
        let (frame, rem) = build_two_fields(
            response_buffer,
            self.frame.address(),
            WRITE_HOLDING_REGISTER,
            self.index(),
            self.value(),
        );
        (response::WriteHoldingRegister::from_frame_unchecked(frame), rem)
    }

    /// Builds in `response_buffer` the exception response to this request.
    pub fn response_exception<'buff>(
        &self,
        response_buffer: &'buff mut [u8],
        exception: Exception,
    ) -> (r: (Frame<'buff>, &'buff mut [u8]))
        requires
            old(response_buffer)@.len() >= 5,
        ensures
            r.0@ == with_crc(seq![self@[0], exception_code(self@[1]), exception.0]),
            r.1@.len() == old(response_buffer)@.len() - 5,
    {
        self.frame.response_exception(response_buffer, exception)
    }
}

/// Request to write coils: start, count, byte count, packed states.
#[derive(Debug, Clone, Copy, PartialEq, Eq)]
pub struct WriteMultipleCoils<'a> {
    frame: Frame<'a>,
}

impl<'a> View for WriteMultipleCoils<'a> {
    type V = Seq<u8>;

    closed spec fn view(&self) -> Seq<u8> {
        self.frame@
    }
}

impl<'a> WriteMultipleCoils<'a> {
    /// Whether a frame's bytes are laid out as this request.
    pub open spec fn accepts(bytes: Seq<u8>) -> bool {
        bytes[1] == WRITE_MULTIPLE_COILS && counted_ok(bytes, 6)
    }

    #[verifier::type_invariant]
    closed spec fn well_formed(self) -> bool {
        Self::accepts(self.frame@)
    }

    /// Views a frame that is known to be laid out as this request.
    pub fn from_frame_unchecked(frame: Frame<'a>) -> (r: Self)
        requires
            Self::accepts(frame@),
        ensures
            r@ == frame@,
    {
        WriteMultipleCoils { frame }
    }

    /// Views bytes that are known to be laid out as this request.
    pub fn from_bytes_unchecked(bytes: &'a [u8]) -> (r: Self)
        requires
            Self::accepts(bytes@),
        ensures
            r@ == bytes@,
    {
        WriteMultipleCoils { frame: Frame::new_unchecked(bytes) }
    }

    /// The underlying frame.
    pub fn as_frame(&self) -> (r: Frame<'a>)
        ensures
            r@ == self@,
    {
        self.frame
    }

    /// Views a checked frame as this request, checking its function code and length.
    pub fn try_from(frame: Frame<'a>) -> (r: Result<Self, Error>)
        ensures
            decoded_as(r, pdu_status(frame@, WRITE_MULTIPLE_COILS, counted_ok(frame@, 6)), frame@),
    {
        if frame.function().0 != WRITE_MULTIPLE_COILS {
            Err(Error::UnexpectedFunction)
        } else if !counted_len_valid(&frame, 6) {
            Err(Error::DecodeInvalidLength)
        } else {
            Ok(WriteMultipleCoils { frame })
        }
    }

    /// Checks `bytes` as a frame, then as this request.
    pub fn try_from_bytes(bytes: &'a [u8]) -> (r: Result<Self, Error>)
        ensures
            decoded_as(r, bytes_status(bytes@, WRITE_MULTIPLE_COILS, counted_ok(bytes@, 6)), bytes@),
    {
        match Frame::try_from(bytes) {
            Ok(frame) => Self::try_from(frame),
            Err(e) => Err(e),
        }
    }

    /// Builds the request for `address`: `coils` from `start_index`.
    pub fn new(frame_buffer: &'a mut [u8], address: u8, start_index: u16, coils: &[bool]) -> (r: (
        Self,
        &'a mut [u8],
    ))
        requires
            coils@.len() <= 1968,
            old(frame_buffer)@.len() >= 9 + packed_len(coils@.len() as nat),
        ensures
            r.0@.len() == 9 + packed_len(coils@.len() as nat),
            r.0@.subrange(0, 7) == seq![address, WRITE_MULTIPLE_COILS] + be_bytes(start_index)
                + be_bytes(coils@.len() as u16) + seq![packed_len(coils@.len() as nat) as u8],
            packs(counted_data(r.0@, 6), coils@),
            crc_matches(r.0@),
            r.1@.len() == old(frame_buffer)@.len() - 9 - packed_len(coils@.len() as nat),
    {
        let (frame, rem) = build_bits_counted(
            frame_buffer,
            address,
            WRITE_MULTIPLE_COILS,
            start_index,
            coils,
        );
        (WriteMultipleCoils { frame }, rem)
    }

    /// The address of the first coil to write.
    pub fn start_index(&self) -> (r: u16)
        ensures
            r == field(self@, 2),
    {
        proof {
            use_type_invariant(self);
        }
        field_at(self.frame.raw_bytes(), 2)
    }

    /// How many coils to write.
    pub fn coil_count(&self) -> (r: u16)
        ensures
            r == field(self@, 4),
    {
        proof {
            use_type_invariant(self);
        }
        field_at(self.frame.raw_bytes(), 4)
    }

    /// The byte count of the packed states.
    pub fn payload_len(&self) -> (r: u8)
        ensures
            r == self@[6],
    {
        proof {
            use_type_invariant(self);
        }
        self.frame.raw_bytes()[6]
    }

    /// The states to write, each with its coil address; as many as the count
    /// says, or as the packed bytes hold if they hold fewer.
    pub fn iter_coils(&self) -> (r: Vec<(u16, bool)>)
        ensures
            r@ == indexed_coils(
                field(self@, 2),
                unpacked(
                    counted_data(self@, 6),
                    vstd::math::min(field(self@, 4) as int, 8 * counted_data(self@, 6).len() as int) as nat,
                ),
            ),
    {
        proof {
            use_type_invariant(self);
        }
        let bytes = self.frame.raw_bytes();
        let data = &bytes[7..bytes.len() - 2];
        let start = self.start_index();
        let count = self.coil_count() as usize;
        let n = if count < 8 * data.len() {
            count
        } else {
            8 * data.len()
        };
        let ghost bits = unpacked(data@, n as nat);
        let mut r: Vec<(u16, bool)> = Vec::new();
        let mut i: usize = 0;
        while i < n
            invariant
                i <= n,
                n <= 8 * data@.len(),
                n <= 65535,
                bits == unpacked(data@, n as nat),
                r@ == indexed_coils(start, bits).subrange(0, i as int),
            decreases n - i,
        {
            let bit = bit_in(data[i / 8], (i % 8) as u8);
            r.push((((start as usize + i) % 65536) as u16, bit));
            i += 1;
            assert(r@ =~= indexed_coils(start, bits).subrange(0, i as int));
        }
        assert(indexed_coils(start, bits).subrange(0, i as int) =~= indexed_coils(start, bits));
        r
    }

    /// Builds in `response_buffer` the response: the start and the count.
    pub fn response_builder<'buff>(&self, response_buffer: &'buff mut [u8]) -> (r: (
        response::WriteMultipleCoils<'buff>,
        &'buff mut [u8],
    ))
        requires
            old(response_buffer)@.len() >= 8,
        ensures
            r.0@ == with_crc(seq![self@[0], WRITE_MULTIPLE_COILS] + be_bytes(field(self@, 2)) + be_bytes(
                field(self@, 4),
            )),
            r.1@.len() == old(response_buffer)@.len() - 8,
    {
        let (frame, rem) = build_two_fields(
            response_buffer,
            self.frame.address(),
            WRITE_MULTIPLE_COILS,
            self.start_index(),
            self.coil_count(),
        );
        (response::WriteMultipleCoils::from_frame_unchecked(frame), rem)
    }

    /// Builds in `response_buffer` the exception response to this request.
    pub fn response_exception<'buff>(
        &self,
        response_buffer: &'buff mut [u8],
        exception: Exception,
    ) -> (r: (Frame<'buff>, &'buff mut [u8]))
        requires
            old(response_buffer)@.len() >= 5,
        ensures
            r.0@ == with_crc(seq![self@[0], exception_code(self@[1]), exception.0]),
            r.1@.len() == old(response_buffer)@.len() - 5,
    {
        self.frame.response_exception(response_buffer, exception)
    }
}

/// Request to write holding registers: start, count, byte count, values.
#[derive(Debug, Clone, Copy, PartialEq, Eq)]
pub struct WriteMultipleHoldingRegisters<'a> {
    frame: Frame<'a>,
}

impl<'a> View for WriteMultipleHoldingRegisters<'a> {
    type V = Seq<u8>;

    closed spec fn view(&self) -> Seq<u8> {
        self.frame@
    }
}

impl<'a> WriteMultipleHoldingRegisters<'a> {
    /// Whether a frame's bytes are laid out as this request.
    pub open spec fn accepts(bytes: Seq<u8>) -> bool {
        bytes[1] == WRITE_MULTIPLE_HOLDING_REGISTERS && counted_ok(bytes, 6)
    }

    #[verifier::type_invariant]
    closed spec fn well_formed(self) -> bool {
        Self::accepts(self.frame@)
    }

    /// Views a frame that is known to be laid out as this request.
    pub fn from_frame_unchecked(frame: Frame<'a>) -> (r: Self)
        requires
            Self::accepts(frame@),
        ensures
            r@ == frame@,
    {
        WriteMultipleHoldingRegisters { frame }
    }

    /// Views bytes that are known to be laid out as this request.
    pub fn from_bytes_unchecked(bytes: &'a [u8]) -> (r: Self)
        requires
            Self::accepts(bytes@),
        ensures
            r@ == bytes@,
    {
        WriteMultipleHoldingRegisters { frame: Frame::new_unchecked(bytes) }
    }

    /// The underlying frame.
    pub fn as_frame(&self) -> (r: Frame<'a>)
        ensures
            r@ == self@,
    {
        self.frame
    }

    /// Views a checked frame as this request, checking its function code and length.
    pub fn try_from(frame: Frame<'a>) -> (r: Result<Self, Error>)
        ensures
            decoded_as(r, pdu_status(frame@, WRITE_MULTIPLE_HOLDING_REGISTERS, counted_ok(frame@, 6)), frame@),
    {
        if frame.function().0 != WRITE_MULTIPLE_HOLDING_REGISTERS {
            Err(Error::UnexpectedFunction)
        } else if !counted_len_valid(&frame, 6) {
            Err(Error::DecodeInvalidLength)
        } else {
            Ok(WriteMultipleHoldingRegisters { frame })
        }
    }

    /// Checks `bytes` as a frame, then as this request.
    pub fn try_from_bytes(bytes: &'a [u8]) -> (r: Result<Self, Error>)
        ensures
            decoded_as(r, bytes_status(bytes@, WRITE_MULTIPLE_HOLDING_REGISTERS, counted_ok(bytes@, 6)), bytes@),
    {
        match Frame::try_from(bytes) {
            Ok(frame) => Self::try_from(frame),
            Err(e) => Err(e),
        }
    }

    /// Builds the request for `address`: `registers` from `start_index`.
    pub fn new(frame_buffer: &'a mut [u8], address: u8, start_index: u16, registers: &[u16]) -> (r: (
        Self,
        &'a mut [u8],
    ))
        requires
            2 * registers@.len() <= 246,
            old(frame_buffer)@.len() >= 9 + 2 * registers@.len(),
        ensures
            r.0@ == with_crc(
                seq![address, WRITE_MULTIPLE_HOLDING_REGISTERS] + be_bytes(start_index) + be_bytes(
                    registers@.len() as u16,
                ) + seq![(2 * registers@.len()) as u8] + regs_bytes(registers@),
            ),
            r.1@.len() == old(frame_buffer)@.len() - 9 - 2 * registers@.len(),
    {
        let (frame, rem) = build_regs_counted(
            frame_buffer,
            address,
            WRITE_MULTIPLE_HOLDING_REGISTERS,
            start_index,
            registers,
        );
        (WriteMultipleHoldingRegisters { frame }, rem)
    }

    /// The byte count of the register values.
    pub fn payload_len(&self) -> (r: u8)
        ensures
            r == self@[6],
    {
        proof {
            use_type_invariant(self);
        }
        self.frame.raw_bytes()[6]
    }

    /// The address of the first register to write.
    pub fn start_index(&self) -> (r: u16)
        ensures
            r == field(self@, 2),
    {
        proof {
            use_type_invariant(self);
        }
        field_at(self.frame.raw_bytes(), 2)
    }

    /// How many registers to write.
    pub fn register_count(&self) -> (r: u16)
        ensures
            r == field(self@, 4),
    {
        proof {
            use_type_invariant(self);
        }
        field_at(self.frame.raw_bytes(), 4)
    }

    /// The values to write, in order.
    pub fn iter_registers(&self) -> (r: Vec<u16>)
        ensures
            r@ == regs_of(counted_data(self@, 6)),
    {
        proof {
            use_type_invariant(self);
        }
        let bytes = self.frame.raw_bytes();
        let data = &bytes[7..bytes.len() - 2];
        let r = Registers::create(data).collect();
        r
    }

    /// Builds in `response_buffer` the response: the start and the count.
    pub fn response_builder<'buff>(&self, response_buffer: &'buff mut [u8]) -> (r: (
        response::WriteMultipleHoldingRegisters<'buff>,
        &'buff mut [u8],
    ))
        requires
            old(response_buffer)@.len() >= 8,
        ensures
            r.0@ == with_crc(seq![self@[0], WRITE_MULTIPLE_HOLDING_REGISTERS] + be_bytes(field(self@, 2)) + be_bytes(
                field(self@, 4),
            )),
            r.1@.len() == old(response_buffer)@.len() - 8,
    {
        let (frame, rem) = build_two_fields(
            response_buffer,
            self.frame.address(),
            WRITE_MULTIPLE_HOLDING_REGISTERS,
            self.start_index(),
            self.register_count(),
        );
        (response::WriteMultipleHoldingRegisters::from_frame_unchecked(frame), rem)
    }

    /// Builds in `response_buffer` the exception response to this request.
    pub fn response_exception<'buff>(
        &self,
        response_buffer: &'buff mut [u8],
        exception: Exception,
    ) -> (r: (Frame<'buff>, &'buff mut [u8]))
        requires
            old(response_buffer)@.len() >= 5,
        ensures
            r.0@ == with_crc(seq![self@[0], exception_code(self@[1]), exception.0]),
            r.1@.len() == old(response_buffer)@.len() - 5,
    {
        self.frame.response_exception(response_buffer, exception)
    }
}

impl<'a> FunctionCode for ReadCoils<'a> {
    open spec fn code() -> u8 {
        READ_COILS
    }

    fn function_code() -> (r: Function) {
        Function(READ_COILS)
    }
}

impl<'a> PacketLen for ReadCoils<'a> {
    open spec fn min_len() -> nat {
        8
    }

    fn minimum_len() -> (r: u8) {
        8
    }

    fn packet_len(&self) -> (r: u16) {
        proof {
            use_type_invariant(self);
        }
        8
    }
}

impl<'a> FunctionCode for ReadDiscreteInputs<'a> {
    open spec fn code() -> u8 {
        READ_DISCRETE_INPUTS
    }

    fn function_code() -> (r: Function) {
        Function(READ_DISCRETE_INPUTS)
    }
}

impl<'a> PacketLen for ReadDiscreteInputs<'a> {
    open spec fn min_len() -> nat {
        8
    }

    fn minimum_len() -> (r: u8) {
        8
    }

    fn packet_len(&self) -> (r: u16) {
        proof {
            use_type_invariant(self);
        }
        8
    }
}

impl<'a> FunctionCode for ReadHoldingRegisters<'a> {
    open spec fn code() -> u8 {
        READ_HOLDING_REGISTERS
    }

    fn function_code() -> (r: Function) {
        Function(READ_HOLDING_REGISTERS)
    }
}

impl<'a> PacketLen for ReadHoldingRegisters<'a> {
    open spec fn min_len() -> nat {
        8
    }

    fn minimum_len() -> (r: u8) {
        8
    }

    fn packet_len(&self) -> (r: u16) {
        proof {
            use_type_invariant(self);
        }
        8
    }
}

impl<'a> FunctionCode for ReadInputRegisters<'a> {
    open spec fn code() -> u8 {
        READ_INPUT_REGISTERS
    }

    fn function_code() -> (r: Function) {
        Function(READ_INPUT_REGISTERS)
    }
}

impl<'a> PacketLen for ReadInputRegisters<'a> {
    open spec fn min_len() -> nat {
        8
    }

    fn minimum_len() -> (r: u8) {
        8
    }

    fn packet_len(&self) -> (r: u16) {
        proof {
            use_type_invariant(self);
        }
        8
    }
}

impl<'a> FunctionCode for WriteCoil<'a> {
    open spec fn code() -> u8 {
        WRITE_COIL
    }

    fn function_code() -> (r: Function) {
        Function(WRITE_COIL)
    }
}

impl<'a> PacketLen for WriteCoil<'a> {
    open spec fn min_len() -> nat {
        8
    }

    fn minimum_len() -> (r: u8) {
        8
    }

    fn packet_len(&self) -> (r: u16) {
        proof {
            use_type_invariant(self);
        }
        8
    }
}

impl<'a> FunctionCode for WriteHoldingRegister<'a> {
    open spec fn code() -> u8 {
        WRITE_HOLDING_REGISTER
    }

    fn function_code() -> (r: Function) {
        Function(WRITE_HOLDING_REGISTER)
    }
}

impl<'a> PacketLen for WriteHoldingRegister<'a> {
    open spec fn min_len() -> nat {
        8
    }

    fn minimum_len() -> (r: u8) {
        8
    }

    fn packet_len(&self) -> (r: u16) {
        proof {
            use_type_invariant(self);
        }
        8
    }
}

impl<'a> FunctionCode for WriteMultipleCoils<'a> {
    open spec fn code() -> u8 {
        WRITE_MULTIPLE_COILS
    }

    fn function_code() -> (r: Function) {
        Function(WRITE_MULTIPLE_COILS)
    }
}

impl<'a> PacketLen for WriteMultipleCoils<'a> {
    open spec fn min_len() -> nat {
        9
    }

    fn minimum_len() -> (r: u8) {
        9
    }

    fn packet_len(&self) -> (r: u16) {
        proof {
            use_type_invariant(self);
        }
        9 + self.frame.raw_bytes()[6] as u16
    }
}

impl<'a> FunctionCode for WriteMultipleHoldingRegisters<'a> {
    open spec fn code() -> u8 {
        WRITE_MULTIPLE_HOLDING_REGISTERS
    }

    fn function_code() -> (r: Function) {
        Function(WRITE_MULTIPLE_HOLDING_REGISTERS)
    }
}

impl<'a> PacketLen for WriteMultipleHoldingRegisters<'a> {
    open spec fn min_len() -> nat {
        9
    }

    fn minimum_len() -> (r: u8) {
        9
    }

    fn packet_len(&self) -> (r: u16) {
        proof {
            use_type_invariant(self);
        }
        9 + self.frame.raw_bytes()[6] as u16
    }
}

} // verus!
