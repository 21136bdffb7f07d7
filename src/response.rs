//! Responses, one view per supported function code.
use vstd::prelude::*;

use crate::bits::{packed_len, packs, unpack, unpacked};
use crate::checksum::{crc_matches, with_crc};
use crate::frame::Frame;
use crate::function::{
    Function, READ_COILS, READ_DISCRETE_INPUTS, READ_HOLDING_REGISTERS, READ_INPUT_REGISTERS,
    WRITE_COIL, WRITE_HOLDING_REGISTER, WRITE_MULTIPLE_COILS, WRITE_MULTIPLE_HOLDING_REGISTERS,
};
use crate::pdu::{
    build_bits_response, build_regs_response, build_two_fields, bytes_status, counted_data,
    counted_len_valid, counted_ok, decoded_as, field, field_at, fixed_len_valid, fixed_ok,
    pdu_status, FunctionCode, PacketLen,
};
use crate::registers::{be_bytes, regs_bytes, regs_of, Registers};
use crate::Error;
use crate::{COIL_OFF, COIL_ON};

verus! {
/// Response to a read-coils request: the packed coil states.
#[derive(Debug, Clone, Copy, PartialEq, Eq)]
pub struct ReadCoils<'a> {
    frame: Frame<'a>,
}

impl<'a> View for ReadCoils<'a> {
    type V = Seq<u8>;

    closed spec fn view(&self) -> Seq<u8> {
        self.frame@
    }
}

impl<'a> ReadCoils<'a> {
    /// Whether a frame's bytes are laid out as this response.
    pub open spec fn accepts(bytes: Seq<u8>) -> bool {
        bytes[1] == READ_COILS && counted_ok(bytes, 2)
    }

    #[verifier::type_invariant]
    closed spec fn well_formed(self) -> bool {
        Self::accepts(self.frame@)
    }

    /// Views a frame that is known to be laid out as this response.
    pub fn from_frame_unchecked(frame: Frame<'a>) -> (r: Self)
        requires
            Self::accepts(frame@),
        ensures
            r@ == frame@,
    {
        ReadCoils { frame }
    }

    /// Views bytes that are known to be laid out as this response.
    pub fn from_bytes_unchecked(bytes: &'a [u8]) -> (r: Self)
        requires
            Self::accepts(bytes@),
        ensures
            r@ == bytes@,
    {
        ReadCoils { frame: Frame::new_unchecked(bytes) }
    }

    /// The underlying frame.
    pub fn as_frame(&self) -> (r: Frame<'a>)
        ensures
            r@ == self@,
    {
        self.frame
    }

    /// Views a checked frame as this response, checking its function code and length.
    pub fn try_from(frame: Frame<'a>) -> (r: Result<Self, Error>)
        ensures
            decoded_as(r, pdu_status(frame@, READ_COILS, counted_ok(frame@, 2)), frame@),
    {
        if frame.function().0 != READ_COILS {
            Err(Error::UnexpectedFunction)
        } else if !counted_len_valid(&frame, 2) {
            Err(Error::DecodeInvalidLength)
        } else {
            Ok(ReadCoils { frame })
        }
    }

    /// Checks `bytes` as a frame, then as this response.
    pub fn try_from_bytes(bytes: &'a [u8]) -> (r: Result<Self, Error>)
        ensures
            decoded_as(r, bytes_status(bytes@, READ_COILS, counted_ok(bytes@, 2)), bytes@),
    {
        match Frame::try_from(bytes) {
            Ok(frame) => Self::try_from(frame),
            Err(e) => Err(e),
        }
    }

    /// Builds the response for `address`, packing `bits` after their byte count.
    pub fn new(frame_buffer: &'a mut [u8], address: u8, bits: &[bool]) -> (r: (Self, &'a mut [u8]))
        requires
            bits@.len() <= 2000,
            old(frame_buffer)@.len() >= 5 + packed_len(bits@.len() as nat),
        ensures
            r.0@.len() == 5 + packed_len(bits@.len() as nat),
            r.0@.subrange(0, 3) == seq![address, READ_COILS, packed_len(bits@.len() as nat) as u8],
            packs(counted_data(r.0@, 2), bits@),
            crc_matches(r.0@),
            r.1@.len() == old(frame_buffer)@.len() - 5 - packed_len(bits@.len() as nat),
    {
        let (frame, rem) = build_bits_response(frame_buffer, address, READ_COILS, bits);
        (ReadCoils { frame }, rem)
    }

    /// The byte count of the packed states.
    pub fn payload_len(&self) -> (r: u8)
        ensures
            r == self@[2],
    {
        proof {
            use_type_invariant(self);
        }
        self.frame.raw_bytes()[2]
    }

    /// Every packed state, lowest bit of each byte first, padding included.
    pub fn iter_coils(&self) -> (r: Vec<bool>)
        ensures
            r@ == unpacked(counted_data(self@, 2), 8 * counted_data(self@, 2).len()),
    {
        proof {
            use_type_invariant(self);
        }
        let bytes = self.frame.raw_bytes();
        let data = &bytes[3..bytes.len() - 2];
        unpack(data, 8 * data.len())
    }
}

/// Response to a read-discrete-inputs request: the packed input states.
#[derive(Debug, Clone, Copy, PartialEq, Eq)]
pub struct ReadDiscreteInputs<'a> {
    frame: Frame<'a>,
}

impl<'a> View for ReadDiscreteInputs<'a> {
    type V = Seq<u8>;

    closed spec fn view(&self) -> Seq<u8> {
        self.frame@
    }
}

impl<'a> ReadDiscreteInputs<'a> {
    /// Whether a frame's bytes are laid out as this response.
    pub open spec fn accepts(bytes: Seq<u8>) -> bool {
        bytes[1] == READ_DISCRETE_INPUTS && counted_ok(bytes, 2)
    }

    #[verifier::type_invariant]
    closed spec fn well_formed(self) -> bool {
        Self::accepts(self.frame@)
    }

    /// Views a frame that is known to be laid out as this response.
    pub fn from_frame_unchecked(frame: Frame<'a>) -> (r: Self)
        requires
            Self::accepts(frame@),
        ensures
            r@ == frame@,
    {
        ReadDiscreteInputs { frame }
    }

    /// Views bytes that are known to be laid out as this response.
    pub fn from_bytes_unchecked(bytes: &'a [u8]) -> (r: Self)
        requires
            Self::accepts(bytes@),
        ensures
            r@ == bytes@,
    {
        ReadDiscreteInputs { frame: Frame::new_unchecked(bytes) }
    }

    /// The underlying frame.
    pub fn as_frame(&self) -> (r: Frame<'a>)
        ensures
            r@ == self@,
    {
        self.frame
    }

    /// Views a checked frame as this response, checking its function code and length.
    pub fn try_from(frame: Frame<'a>) -> (r: Result<Self, Error>)
        ensures
            decoded_as(r, pdu_status(frame@, READ_DISCRETE_INPUTS, counted_ok(frame@, 2)), frame@),
    {
        if frame.function().0 != READ_DISCRETE_INPUTS {
            Err(Error::UnexpectedFunction)
        } else if !counted_len_valid(&frame, 2) {
            Err(Error::DecodeInvalidLength)
        } else {
            Ok(ReadDiscreteInputs { frame })
        }
    }

    /// Checks `bytes` as a frame, then as this response.
    pub fn try_from_bytes(bytes: &'a [u8]) -> (r: Result<Self, Error>)
        ensures
            decoded_as(r, bytes_status(bytes@, READ_DISCRETE_INPUTS, counted_ok(bytes@, 2)), bytes@),
    {
        match Frame::try_from(bytes) {
            Ok(frame) => Self::try_from(frame),
            Err(e) => Err(e),
        }
    }

    /// Builds the response for `address`, packing `bits` after their byte count.
    pub fn new(frame_buffer: &'a mut [u8], address: u8, bits: &[bool]) -> (r: (Self, &'a mut [u8]))
        requires
            bits@.len() <= 2000,
            old(frame_buffer)@.len() >= 5 + packed_len(bits@.len() as nat),
        ensures
            r.0@.len() == 5 + packed_len(bits@.len() as nat),
            r.0@.subrange(0, 3) == seq![address, READ_DISCRETE_INPUTS, packed_len(bits@.len() as nat) as u8],
            packs(counted_data(r.0@, 2), bits@),
            crc_matches(r.0@),
            r.1@.len() == old(frame_buffer)@.len() - 5 - packed_len(bits@.len() as nat),
    {
        let (frame, rem) = build_bits_response(frame_buffer, address, READ_DISCRETE_INPUTS, bits);
        (ReadDiscreteInputs { frame }, rem)
    }

    /// The byte count of the packed states.
    pub fn payload_len(&self) -> (r: u8)
        ensures
            r == self@[2],
    {
        proof {
            use_type_invariant(self);
        }
        self.frame.raw_bytes()[2]
    }

    /// Every packed state, lowest bit of each byte first, padding included.
    pub fn iter_inputs(&self) -> (r: Vec<bool>)
        ensures
            r@ == unpacked(counted_data(self@, 2), 8 * counted_data(self@, 2).len()),
    {
        proof {
            use_type_invariant(self);
        }
        let bytes = self.frame.raw_bytes();
        let data = &bytes[3..bytes.len() - 2];
        unpack(data, 8 * data.len())
    }
}

/// Response to a read-holding-registers request: the register values.
#[derive(Debug, Clone, Copy, PartialEq, Eq)]
pub struct ReadHoldingRegisters<'a> {
    frame: Frame<'a>,
}

impl<'a> View for ReadHoldingRegisters<'a> {
    type V = Seq<u8>;

    closed spec fn view(&self) -> Seq<u8> {
        self.frame@
    }
}

impl<'a> ReadHoldingRegisters<'a> {
    /// Whether a frame's bytes are laid out as this response.
    pub open spec fn accepts(bytes: Seq<u8>) -> bool {
        bytes[1] == READ_HOLDING_REGISTERS && counted_ok(bytes, 2)
    }

    #[verifier::type_invariant]
    closed spec fn well_formed(self) -> bool {
        Self::accepts(self.frame@)
    }

    /// Views a frame that is known to be laid out as this response.
    pub fn from_frame_unchecked(frame: Frame<'a>) -> (r: Self)
        requires
            Self::accepts(frame@),
        ensures
            r@ == frame@,
    {
        ReadHoldingRegisters { frame }
    }

    /// Views bytes that are known to be laid out as this response.
    pub fn from_bytes_unchecked(bytes: &'a [u8]) -> (r: Self)
        requires
            Self::accepts(bytes@),
        ensures
            r@ == bytes@,
    {
        ReadHoldingRegisters { frame: Frame::new_unchecked(bytes) }
    }

    /// The underlying frame.
    pub fn as_frame(&self) -> (r: Frame<'a>)
        ensures
            r@ == self@,
    {
        self.frame
    }

    /// Views a checked frame as this response, checking its function code and length.
    pub fn try_from(frame: Frame<'a>) -> (r: Result<Self, Error>)
        ensures
            decoded_as(r, pdu_status(frame@, READ_HOLDING_REGISTERS, counted_ok(frame@, 2)), frame@),
    {
        if frame.function().0 != READ_HOLDING_REGISTERS {
            Err(Error::UnexpectedFunction)
        } else if !counted_len_valid(&frame, 2) {
            Err(Error::DecodeInvalidLength)
        } else {
            Ok(ReadHoldingRegisters { frame })
        }
    }

    /// Checks `bytes` as a frame, then as this response.
    pub fn try_from_bytes(bytes: &'a [u8]) -> (r: Result<Self, Error>)
        ensures
            decoded_as(r, bytes_status(bytes@, READ_HOLDING_REGISTERS, counted_ok(bytes@, 2)), bytes@),
    {
        match Frame::try_from(bytes) {
            Ok(frame) => Self::try_from(frame),
            Err(e) => Err(e),
        }
    }

    /// Builds the response for `address`: the byte count, then `registers`.
    pub fn new(frame_buffer: &'a mut [u8], address: u8, registers: &[u16]) -> (r: (
        Self,
        &'a mut [u8],
    ))
        requires
            2 * registers@.len() <= 250,
            old(frame_buffer)@.len() >= 5 + 2 * registers@.len(),
        ensures
            r.0@ == with_crc(seq![address, READ_HOLDING_REGISTERS, (2 * registers@.len()) as u8] + regs_bytes(
                registers@,
            )),
            r.1@.len() == old(frame_buffer)@.len() - 5 - 2 * registers@.len(),
    {
        let (frame, rem) = build_regs_response(frame_buffer, address, READ_HOLDING_REGISTERS, registers);
        (ReadHoldingRegisters { frame }, rem)
    }

    /// The byte count of the register values.
    pub fn payload_len(&self) -> (r: u8)
        ensures
            r == self@[2],
    {
        proof {
            use_type_invariant(self);
        }
        self.frame.raw_bytes()[2]
    }

    /// The register values, in order.
    pub fn iter_registers(&self) -> (r: Vec<u16>)
        ensures
            r@ == regs_of(counted_data(self@, 2)),
    {
        proof {
            use_type_invariant(self);
        }
        let bytes = self.frame.raw_bytes();
        let data = &bytes[3..bytes.len() - 2];
        let r = Registers::create(data).collect();
        r
    }
}

/// Response to a read-input-registers request: the register values.
#[derive(Debug, Clone, Copy, PartialEq, Eq)]
pub struct ReadInputRegisters<'a> {
    frame: Frame<'a>,
}

impl<'a> View for ReadInputRegisters<'a> {
    type V = Seq<u8>;

    closed spec fn view(&self) -> Seq<u8> {
        self.frame@
    }
}

impl<'a> ReadInputRegisters<'a> {
    /// Whether a frame's bytes are laid out as this response.
    pub open spec fn accepts(bytes: Seq<u8>) -> bool {
        bytes[1] == READ_INPUT_REGISTERS && counted_ok(bytes, 2)
    }

    #[verifier::type_invariant]
    closed spec fn well_formed(self) -> bool {
        Self::accepts(self.frame@)
    }

    /// Views a frame that is known to be laid out as this response.
    pub fn from_frame_unchecked(frame: Frame<'a>) -> (r: Self)
        requires
            Self::accepts(frame@),
        ensures
            r@ == frame@,
    {
        ReadInputRegisters { frame }
    }

    /// Views bytes that are known to be laid out as this response.
    pub fn from_bytes_unchecked(bytes: &'a [u8]) -> (r: Self)
        requires
            Self::accepts(bytes@),
        ensures
            r@ == bytes@,
    {
        ReadInputRegisters { frame: Frame::new_unchecked(bytes) }
    }

    /// The underlying frame.
    pub fn as_frame(&self) -> (r: Frame<'a>)
        ensures
            r@ == self@,
    {
        self.frame
    }

    /// Views a checked frame as this response, checking its function code and length.
    pub fn try_from(frame: Frame<'a>) -> (r: Result<Self, Error>)
        ensures
            decoded_as(r, pdu_status(frame@, READ_INPUT_REGISTERS, counted_ok(frame@, 2)), frame@),
    {
        if frame.function().0 != READ_INPUT_REGISTERS {
            Err(Error::UnexpectedFunction)
        } else if !counted_len_valid(&frame, 2) {
            Err(Error::DecodeInvalidLength)
        } else {
            Ok(ReadInputRegisters { frame })
        }
    }

    /// Checks `bytes` as a frame, then as this response.
    pub fn try_from_bytes(bytes: &'a [u8]) -> (r: Result<Self, Error>)
        ensures
            decoded_as(r, bytes_status(bytes@, READ_INPUT_REGISTERS, counted_ok(bytes@, 2)), bytes@),
    {
        match Frame::try_from(bytes) {
            Ok(frame) => Self::try_from(frame),
            Err(e) => Err(e),
        }
    }

    /// Builds the response for `address`: the byte count, then `registers`.
    pub fn new(frame_buffer: &'a mut [u8], address: u8, registers: &[u16]) -> (r: (
        Self,
        &'a mut [u8],
    ))
        requires
            2 * registers@.len() <= 250,
            old(frame_buffer)@.len() >= 5 + 2 * registers@.len(),
        ensures
            r.0@ == with_crc(seq![address, READ_INPUT_REGISTERS, (2 * registers@.len()) as u8] + regs_bytes(
                registers@,
            )),
            r.1@.len() == old(frame_buffer)@.len() - 5 - 2 * registers@.len(),
    {
        let (frame, rem) = build_regs_response(frame_buffer, address, READ_INPUT_REGISTERS, registers);
        (ReadInputRegisters { frame }, rem)
    }

    /// The byte count of the register values.
    pub fn payload_len(&self) -> (r: u8)
        ensures
            r == self@[2],
    {
        proof {
            use_type_invariant(self);
        }
        self.frame.raw_bytes()[2]
    }

    /// The register values, in order.
    pub fn iter_registers(&self) -> (r: Vec<u16>)
        ensures
            r@ == regs_of(counted_data(self@, 2)),
    {
        proof {
            use_type_invariant(self);
        }
        let bytes = self.frame.raw_bytes();
        let data = &bytes[3..bytes.len() - 2];
        let r = Registers::create(data).collect();
        r
    }
}

/// Response to a write-coil request: an echo of it.
#[derive(Debug, Clone, Copy, PartialEq, Eq)]
pub struct WriteCoil<'a> {
    frame: Frame<'a>,
}

impl<'a> View for WriteCoil<'a> {
    type V = Seq<u8>;

    closed spec fn view(&self) -> Seq<u8> {
        self.frame@
    }
}

impl<'a> WriteCoil<'a> {
    /// Whether a frame's bytes are laid out as this response.
    pub open spec fn accepts(bytes: Seq<u8>) -> bool {
        bytes[1] == WRITE_COIL && fixed_ok(bytes)
    }

    #[verifier::type_invariant]
    closed spec fn well_formed(self) -> bool {
        Self::accepts(self.frame@)
    }

    /// Views a frame that is known to be laid out as this response.
    pub fn from_frame_unchecked(frame: Frame<'a>) -> (r: Self)
        requires
            Self::accepts(frame@),
        ensures
            r@ == frame@,
    {
        WriteCoil { frame }
    }

    /// Views bytes that are known to be laid out as this response.
    pub fn from_bytes_unchecked(bytes: &'a [u8]) -> (r: Self)
        requires
            Self::accepts(bytes@),
        ensures
            r@ == bytes@,
    {
        WriteCoil { frame: Frame::new_unchecked(bytes) }
    }

    /// The underlying frame.
    pub fn as_frame(&self) -> (r: Frame<'a>)
        ensures
            r@ == self@,
    {
        self.frame
    }

    /// Views a checked frame as this response, checking its function code and length.
    pub fn try_from(frame: Frame<'a>) -> (r: Result<Self, Error>)
        ensures
            decoded_as(r, pdu_status(frame@, WRITE_COIL, fixed_ok(frame@)), frame@),
    {
        if frame.function().0 != WRITE_COIL {
            Err(Error::UnexpectedFunction)
        } else if !fixed_len_valid(&frame) {
            Err(Error::DecodeInvalidLength)
        } else {
            Ok(WriteCoil { frame })
        }
    }

    /// Checks `bytes` as a frame, then as this response.
    pub fn try_from_bytes(bytes: &'a [u8]) -> (r: Result<Self, Error>)
        ensures
            decoded_as(r, bytes_status(bytes@, WRITE_COIL, fixed_ok(bytes@)), bytes@),
    {
        match Frame::try_from(bytes) {
            Ok(frame) => Self::try_from(frame),
            Err(e) => Err(e),
        }
    }

    /// Builds the response for `address`: the coil and its new state.
    pub fn new(frame_buffer: &'a mut [u8], address: u8, coil_address: u16, write_on: bool) -> (r: (
        Self,
        &'a mut [u8],
    ))
        requires
            old(frame_buffer)@.len() >= 8,
        ensures
            r.0@ == with_crc(seq![address, WRITE_COIL] + be_bytes(coil_address) + be_bytes(
                if write_on {
                    COIL_ON
                } else {
                    COIL_OFF
                },
            )),
            r.1@.len() == old(frame_buffer)@.len() - 8,
    {
        let value = if write_on {
            COIL_ON
        } else {
            COIL_OFF
        };
        let (frame, rem) = build_two_fields(frame_buffer, address, WRITE_COIL, coil_address, value);
        (WriteCoil { frame }, rem)
    }

    /// The address of the coil.
    pub fn index(&self) -> (r: u16)
        ensures
            r == field(self@, 2),
    {
        proof {
            use_type_invariant(self);
        }
        field_at(self.frame.raw_bytes(), 2)
    }

    /// Whether the coil was switched on.
    pub fn is_on(&self) -> (r: bool)
        ensures
            r == (field(self@, 4) == COIL_ON),
    {
        proof {
            use_type_invariant(self);
        }
        field_at(self.frame.raw_bytes(), 4) == COIL_ON
    }
}

/// Response to a write-register request: an echo of it.
#[derive(Debug, Clone, Copy, PartialEq, Eq)]
pub struct WriteHoldingRegister<'a> {
    frame: Frame<'a>,
}

impl<'a> View for WriteHoldingRegister<'a> {
    type V = Seq<u8>;

    closed spec fn view(&self) -> Seq<u8> {
        self.frame@
    }
}

impl<'a> WriteHoldingRegister<'a> {
    /// Whether a frame's bytes are laid out as this response.
    pub open spec fn accepts(bytes: Seq<u8>) -> bool {
        bytes[1] == WRITE_HOLDING_REGISTER && fixed_ok(bytes)
    }

    #[verifier::type_invariant]
    closed spec fn well_formed(self) -> bool {
        Self::accepts(self.frame@)
    }

    /// Views a frame that is known to be laid out as this response.
    pub fn from_frame_unchecked(frame: Frame<'a>) -> (r: Self)
        requires
            Self::accepts(frame@),
        ensures
            r@ == frame@,
    {
        WriteHoldingRegister { frame }
    }

    /// Views bytes that are known to be laid out as this response.
    pub fn from_bytes_unchecked(bytes: &'a [u8]) -> (r: Self)
        requires
            Self::accepts(bytes@),
        ensures
            r@ == bytes@,
    {
        WriteHoldingRegister { frame: Frame::new_unchecked(bytes) }
    }

    /// The underlying frame.
    pub fn as_frame(&self) -> (r: Frame<'a>)
        ensures
            r@ == self@,
    {
        self.frame
    }

    /// Views a checked frame as this response, checking its function code and length.
    pub fn try_from(frame: Frame<'a>) -> (r: Result<Self, Error>)
        ensures
            decoded_as(r, pdu_status(frame@, WRITE_HOLDING_REGISTER, fixed_ok(frame@)), frame@),
    {
        if frame.function().0 != WRITE_HOLDING_REGISTER {
            Err(Error::UnexpectedFunction)
        } else if !fixed_len_valid(&frame) {
            Err(Error::DecodeInvalidLength)
        } else {
            Ok(WriteHoldingRegister { frame })
        }
    }

    /// Checks `bytes` as a frame, then as this response.
    pub fn try_from_bytes(bytes: &'a [u8]) -> (r: Result<Self, Error>)
        ensures
            decoded_as(r, bytes_status(bytes@, WRITE_HOLDING_REGISTER, fixed_ok(bytes@)), bytes@),
    {
        match Frame::try_from(bytes) {
            Ok(frame) => Self::try_from(frame),
            Err(e) => Err(e),
        }
    }

    /// Builds the response for `address`.
    pub fn new(frame_buffer: &'a mut [u8], address: u8, index: u16, value: u16) -> (r: (Self, &'a mut [u8]))
        requires
            old(frame_buffer)@.len() >= 8,
        ensures
            r.0@ == with_crc(seq![address, WRITE_HOLDING_REGISTER] + be_bytes(index) + be_bytes(value)),
            r.1@.len() == old(frame_buffer)@.len() - 8,
    {
        let (frame, rem) = build_two_fields(frame_buffer, address, WRITE_HOLDING_REGISTER, index, value);
        (WriteHoldingRegister { frame }, rem)
    }

    /// The address of the register.
    pub fn index(&self) -> (r: u16)
        ensures
            r == field(self@, 2),
    {
        proof {
            use_type_invariant(self);
        }
        field_at(self.frame.raw_bytes(), 2)
    }

    /// The value written.
    pub fn value(&self) -> (r: u16)
        ensures
            r == field(self@, 4),
    {
        proof {
            use_type_invariant(self);
        }
        field_at(self.frame.raw_bytes(), 4)
    }
}

/// Response to a write-multiple-coils request: where writing started and how many coils.
#[derive(Debug, Clone, Copy, PartialEq, Eq)]
pub struct WriteMultipleCoils<'a> {
    frame: Frame<'a>,
}

impl<'a> View for WriteMultipleCoils<'a> {
    type V = Seq<u8>;

    closed spec fn view(&self) -> Seq<u8> {
        self.frame@
    }
}

impl<'a> WriteMultipleCoils<'a> {
    /// Whether a frame's bytes are laid out as this response.
    pub open spec fn accepts(bytes: Seq<u8>) -> bool {
        bytes[1] == WRITE_MULTIPLE_COILS && fixed_ok(bytes)
    }

    #[verifier::type_invariant]
    closed spec fn well_formed(self) -> bool {
        Self::accepts(self.frame@)
    }

    /// Views a frame that is known to be laid out as this response.
    pub fn from_frame_unchecked(frame: Frame<'a>) -> (r: Self)
        requires
            Self::accepts(frame@),
        ensures
            r@ == frame@,
    {
        WriteMultipleCoils { frame }
    }

    /// Views bytes that are known to be laid out as this response.
    pub fn from_bytes_unchecked(bytes: &'a [u8]) -> (r: Self)
        requires
            Self::accepts(bytes@),
        ensures
            r@ == bytes@,
    {
        WriteMultipleCoils { frame: Frame::new_unchecked(bytes) }
    }

    /// The underlying frame.
    pub fn as_frame(&self) -> (r: Frame<'a>)
        ensures
            r@ == self@,
    {
        self.frame
    }

    /// Views a checked frame as this response, checking its function code and length.
    pub fn try_from(frame: Frame<'a>) -> (r: Result<Self, Error>)
        ensures
            decoded_as(r, pdu_status(frame@, WRITE_MULTIPLE_COILS, fixed_ok(frame@)), frame@),
    {
        if frame.function().0 != WRITE_MULTIPLE_COILS {
            Err(Error::UnexpectedFunction)
        } else if !fixed_len_valid(&frame) {
            Err(Error::DecodeInvalidLength)
        } else {
            Ok(WriteMultipleCoils { frame })
        }
    }

    /// Checks `bytes` as a frame, then as this response.
    pub fn try_from_bytes(bytes: &'a [u8]) -> (r: Result<Self, Error>)
        ensures
            decoded_as(r, bytes_status(bytes@, WRITE_MULTIPLE_COILS, fixed_ok(bytes@)), bytes@),
    {
        match Frame::try_from(bytes) {
            Ok(frame) => Self::try_from(frame),
            Err(e) => Err(e),
        }
    }

    /// Builds the response for `address`.
    pub fn new(frame_buffer: &'a mut [u8], address: u8, start_address: u16, coil_count: u16) -> (r: (Self, &'a mut [u8]))
        requires
            old(frame_buffer)@.len() >= 8,
        ensures
            r.0@ == with_crc(seq![address, WRITE_MULTIPLE_COILS] + be_bytes(start_address) + be_bytes(coil_count)),
            r.1@.len() == old(frame_buffer)@.len() - 8,
    {
        let (frame, rem) = build_two_fields(frame_buffer, address, WRITE_MULTIPLE_COILS, start_address, coil_count);
        (WriteMultipleCoils { frame }, rem)
    }

    /// The address of the first coil written.
    pub fn start_index(&self) -> (r: u16)
        ensures
            r == field(self@, 2),
    {
        proof {
            use_type_invariant(self);
        }
        field_at(self.frame.raw_bytes(), 2)
    }

    /// The number of coils written.
    pub fn register_count(&self) -> (r: u16)
        ensures
            r == field(self@, 4),
    {
        proof {
            use_type_invariant(self);
        }
        field_at(self.frame.raw_bytes(), 4)
    }
}

/// Response to a write-multiple-registers request: where writing started and how many registers.
#[derive(Debug, Clone, Copy, PartialEq, Eq)]
pub struct WriteMultipleHoldingRegisters<'a> {
    frame: Frame<'a>,
}

impl<'a> View for WriteMultipleHoldingRegisters<'a> {
    type V = Seq<u8>;

    closed spec fn view(&self) -> Seq<u8> {
        self.frame@
    }
}

impl<'a> WriteMultipleHoldingRegisters<'a> {
    /// Whether a frame's bytes are laid out as this response.
    pub open spec fn accepts(bytes: Seq<u8>) -> bool {
        bytes[1] == WRITE_MULTIPLE_HOLDING_REGISTERS && fixed_ok(bytes)
    }

    #[verifier::type_invariant]
    closed spec fn well_formed(self) -> bool {
        Self::accepts(self.frame@)
    }

    /// Views a frame that is known to be laid out as this response.
    pub fn from_frame_unchecked(frame: Frame<'a>) -> (r: Self)
        requires
            Self::accepts(frame@),
        ensures
            r@ == frame@,
    {
        WriteMultipleHoldingRegisters { frame }
    }

    /// Views bytes that are known to be laid out as this response.
    pub fn from_bytes_unchecked(bytes: &'a [u8]) -> (r: Self)
        requires
            Self::accepts(bytes@),
        ensures
            r@ == bytes@,
    {
        WriteMultipleHoldingRegisters { frame: Frame::new_unchecked(bytes) }
    }

    /// The underlying frame.
    pub fn as_frame(&self) -> (r: Frame<'a>)
        ensures
            r@ == self@,
    {
        self.frame
    }

    /// Views a checked frame as this response, checking its function code and length.
    pub fn try_from(frame: Frame<'a>) -> (r: Result<Self, Error>)
        ensures
            decoded_as(r, pdu_status(frame@, WRITE_MULTIPLE_HOLDING_REGISTERS, fixed_ok(frame@)), frame@),
    {
        if frame.function().0 != WRITE_MULTIPLE_HOLDING_REGISTERS {
            Err(Error::UnexpectedFunction)
        } else if !fixed_len_valid(&frame) {
            Err(Error::DecodeInvalidLength)
        } else {
            Ok(WriteMultipleHoldingRegisters { frame })
        }
    }

    /// Checks `bytes` as a frame, then as this response.
    pub fn try_from_bytes(bytes: &'a [u8]) -> (r: Result<Self, Error>)
        ensures
            decoded_as(r, bytes_status(bytes@, WRITE_MULTIPLE_HOLDING_REGISTERS, fixed_ok(bytes@)), bytes@),
    {
        match Frame::try_from(bytes) {
            Ok(frame) => Self::try_from(frame),
            Err(e) => Err(e),
        }
    }

    /// Builds the response for `address`.
    pub fn new(frame_buffer: &'a mut [u8], address: u8, start_index: u16, register_count: u16) -> (r: (Self, &'a mut [u8]))
        requires
            old(frame_buffer)@.len() >= 8,
        ensures
            r.0@ == with_crc(seq![address, WRITE_MULTIPLE_HOLDING_REGISTERS] + be_bytes(start_index) + be_bytes(register_count)),
            r.1@.len() == old(frame_buffer)@.len() - 8,
    {
        let (frame, rem) = build_two_fields(frame_buffer, address, WRITE_MULTIPLE_HOLDING_REGISTERS, start_index, register_count);
        (WriteMultipleHoldingRegisters { frame }, rem)
    }

    /// The address of the first register written.
    pub fn start_index(&self) -> (r: u16)
        ensures
            r == field(self@, 2),
    {
        proof {
            use_type_invariant(self);
        }
        field_at(self.frame.raw_bytes(), 2)
    }

    /// The number of registers written.
    pub fn register_count(&self) -> (r: u16)
        ensures
            r == field(self@, 4),
    {
        proof {
            use_type_invariant(self);
        }
        field_at(self.frame.raw_bytes(), 4)
    }
}

impl<'a> FunctionCode for ReadCoils<'a> {
    open spec fn code() -> u8 {
        READ_COILS
    }

    fn function_code() -> (r: Function) {
        Function(READ_COILS)
    }
}

impl<'a> PacketLen for ReadCoils<'a> {
    open spec fn min_len() -> nat {
        5
    }

    fn minimum_len() -> (r: u8) {
        5
    }

    fn packet_len(&self) -> (r: u16) {
        proof {
            use_type_invariant(self);
        }
        5 + self.frame.raw_bytes()[2] as u16
    }
}

impl<'a> FunctionCode for ReadDiscreteInputs<'a> {
    open spec fn code() -> u8 {
        READ_DISCRETE_INPUTS
    }

    fn function_code() -> (r: Function) {
        Function(READ_DISCRETE_INPUTS)
    }
}

impl<'a> PacketLen for ReadDiscreteInputs<'a> {
    open spec fn min_len() -> nat {
        5
    }

    fn minimum_len() -> (r: u8) {
        5
    }

    fn packet_len(&self) -> (r: u16) {
        proof {
            use_type_invariant(self);
        }
        5 + self.frame.raw_bytes()[2] as u16
    }
}

impl<'a> FunctionCode for ReadHoldingRegisters<'a> {
    open spec fn code() -> u8 {
        READ_HOLDING_REGISTERS
    }

    fn function_code() -> (r: Function) {
        Function(READ_HOLDING_REGISTERS)
    }
}

impl<'a> PacketLen for ReadHoldingRegisters<'a> {
    open spec fn min_len() -> nat {
        5
    }

    fn minimum_len() -> (r: u8) {
        5
    }

    fn packet_len(&self) -> (r: u16) {
        proof {
            use_type_invariant(self);
        }
        5 + self.frame.raw_bytes()[2] as u16
    }
}

impl<'a> FunctionCode for ReadInputRegisters<'a> {
    open spec fn code() -> u8 {
        READ_INPUT_REGISTERS
    }

    fn function_code() -> (r: Function) {
        Function(READ_INPUT_REGISTERS)
    }
}

impl<'a> PacketLen for ReadInputRegisters<'a> {
    open spec fn min_len() -> nat {
        5
    }

    fn minimum_len() -> (r: u8) {
        5
    }

    fn packet_len(&self) -> (r: u16) {
        proof {
            use_type_invariant(self);
        }
        5 + self.frame.raw_bytes()[2] as u16
    }
}

impl<'a> FunctionCode for WriteCoil<'a> {
    open spec fn code() -> u8 {
        WRITE_COIL
    }

    fn function_code() -> (r: Function) {
        Function(WRITE_COIL)
    }
}

impl<'a> PacketLen for WriteCoil<'a> {
    open spec fn min_len() -> nat {
        8
    }

    fn minimum_len() -> (r: u8) {
        8
    }

    fn packet_len(&self) -> (r: u16) {
        proof {
            use_type_invariant(self);
        }
        8
    }
}

impl<'a> FunctionCode for WriteHoldingRegister<'a> {
    open spec fn code() -> u8 {
        WRITE_HOLDING_REGISTER
    }

    fn function_code() -> (r: Function) {
        Function(WRITE_HOLDING_REGISTER)
    }
}

impl<'a> PacketLen for WriteHoldingRegister<'a> {
    open spec fn min_len() -> nat {
        8
    }

    fn minimum_len() -> (r: u8) {
        8
    }

    fn packet_len(&self) -> (r: u16) {
        proof {
            use_type_invariant(self);
        }
        8
    }
}

impl<'a> FunctionCode for WriteMultipleCoils<'a> {
    open spec fn code() -> u8 {
        WRITE_MULTIPLE_COILS
    }

    fn function_code() -> (r: Function) {
        Function(WRITE_MULTIPLE_COILS)
    }
}

impl<'a> PacketLen for WriteMultipleCoils<'a> {
    open spec fn min_len() -> nat {
        8
    }

    fn minimum_len() -> (r: u8) {
        8
    }

    fn packet_len(&self) -> (r: u16) {
        proof {
            use_type_invariant(self);
        }
        8
    }
}

impl<'a> FunctionCode for WriteMultipleHoldingRegisters<'a> {
    open spec fn code() -> u8 {
        WRITE_MULTIPLE_HOLDING_REGISTERS
    }

    fn function_code() -> (r: Function) {
        Function(WRITE_MULTIPLE_HOLDING_REGISTERS)
    }
}

impl<'a> PacketLen for WriteMultipleHoldingRegisters<'a> {
    open spec fn min_len() -> nat {
        8
    }

    fn minimum_len() -> (r: u8) {
        8
    }

    fn packet_len(&self) -> (r: u16) {
        proof {
            use_type_invariant(self);
        }
        8
    }
}

} // verus!
