//! Binary (RTU) frames: `address(1) | function(1) | payload(0..252) | crc16(2, little-endian)`.
use vstd::prelude::*;

use crate::checksum::{
    calculate_crc16, checked_part, checksum_part, crc16_of, crc_matches, le_bytes, verify_crc16,
    with_crc,
};
use crate::ascii::{ascii_encoding, encode};
use crate::builder::{build_frame, AddData, Builder};
use crate::device::Device;
use crate::exception::Exception;
use crate::function::{exception_code, Function};
use crate::Error;

verus! {

/// The payload of a frame: the bytes between the function code and the checksum.
pub open spec fn payload_of(bytes: Seq<u8>) -> Seq<u8> {
    bytes.subrange(2, bytes.len() - 2)
}

/// The longest frame on the wire: address, function, 252 payload bytes, checksum.
pub const MAX_FRAME_LEN: usize = 256;

/// The outcome of checking bytes as a frame: long enough, then a matching checksum.
pub open spec fn frame_status(bytes: Seq<u8>) -> Result<(), Error> {
    if bytes.len() < 4 {
        Err(Error::InvalidLength)
    } else if !crc_matches(bytes) {
        Err(Error::InvalidChecksum)
    } else {
        Ok(())
    }
}

/// Checks the length and checksum of `bytes`.
pub fn validate(bytes: &[u8]) -> (r: Result<(), Error>)
    ensures
        r == frame_status(bytes@),
{
    if bytes.len() < 4 {
        Err(Error::InvalidLength)
    } else if !verify_crc16(bytes) {
        Err(Error::InvalidChecksum)
    } else {
        Ok(())
    }
}

/// A borrowed view of a byte slice as a binary frame.
#[derive(Debug, Clone, Copy, PartialEq, Eq)]
pub struct Frame<'b> {
    data: &'b [u8],
}

impl<'b> View for Frame<'b> {
    type V = Seq<u8>;

    closed spec fn view(&self) -> Seq<u8> {
        self.data@
    }
}

impl<'b> Frame<'b> {
    #[verifier::type_invariant]
    closed spec fn long_enough(self) -> bool {
        self.data@.len() >= 4
    }

    /// Creates a frame without checking its checksum; the caller has
    /// established it (the builder writes it itself).
    pub fn new_unchecked(bytes: &'b [u8]) -> (r: Frame<'b>)
        requires
            bytes@.len() >= 4,
        ensures
            r@ == bytes@,
    {
        Frame { data: bytes }
    }

    /// Validates length and checksum and views `bytes` as a frame.
    pub fn try_from(bytes: &'b [u8]) -> (r: Result<Frame<'b>, Error>)
        ensures
            bytes@.len() < 4 ==> r == Err::<Frame<'b>, Error>(Error::InvalidLength),
            bytes@.len() >= 4 && !crc_matches(bytes@) ==> r == Err::<Frame<'b>, Error>(
                Error::InvalidChecksum,
            ),
            r is Ok <==> bytes@.len() >= 4 && crc_matches(bytes@),
            r matches Ok(f) ==> f@ == bytes@,
    {
        if bytes.len() < 4 {
            Err(Error::InvalidLength)
        } else if !verify_crc16(bytes) {
            Err(Error::InvalidChecksum)
        } else {
            Ok(Frame::new_unchecked(bytes))
        }
    }

    /// The number of bytes in the frame, checksum included.
    pub fn len(&self) -> (r: usize)
        ensures
            r == self@.len(),
            r >= 4,
    {
        proof {
            use_type_invariant(self);
        }
        self.data.len()
    }

    /// The address byte.
    pub fn address(&self) -> (r: u8)
        ensures
            r == self@[0],
    {
        proof {
            use_type_invariant(self);
        }
        self.data[0]
    }

    /// The device the frame is addressed to.
    pub fn device(&self) -> (r: Device)
        ensures
            r.address() == self@[0],
    {
        Device::new(self.address())
    }

    /// The function code.
    pub fn function(&self) -> (r: Function)
        ensures
            r.0 == self@[1],
            self@.len() >= 4,
    {
        proof {
            use_type_invariant(self);
        }
        Function(self.data[1])
    }

    /// The CRC16 of the bytes before the checksum field, as it should be.
    pub fn calculate_crc(&self) -> (r: u16)
        ensures
            r == crc16_of(checked_part(self@)),
    {
        proof {
            use_type_invariant(self);
        }
        let n = self.data.len() - 2;
        calculate_crc16(&self.data[0..n])
    }

    /// All bytes between the function code and the checksum.
    pub fn payload(&self) -> (r: &'b [u8])
        ensures
            r@ == payload_of(self@),
            self@.len() >= 4,
    {
        proof {
            use_type_invariant(self);
        }
        let n = self.data.len() - 2;
        &self.data[2..n]
    }

    /// The checksum field as a number.
    pub fn crc(&self) -> (r: u16)
        ensures
            le_bytes(r) == checksum_part(self@),
    {
        proof {
            use_type_invariant(self);
        }
        let n = self.data.len() - 2;
        let lo = self.data[n];
        let hi = self.data[n + 1];
        let r = (hi as u16) * 256 + lo as u16;
        assert(le_bytes(r) =~= checksum_part(self@));
        r
    }

    /// The two checksum bytes.
    pub fn crc_bytes(&self) -> (r: &'b [u8])
        ensures
            r@ == checksum_part(self@),
    {
        proof {
            use_type_invariant(self);
        }
        let n = self.data.len() - 2;
        &self.data[n..self.data.len()]
    }

    /// All bytes of the frame: address, function, payload and checksum.
    pub fn raw_bytes(&self) -> (r: &'b [u8])
        ensures
            r@ == self@,
    {
        self.data
    }

    /// All bytes of the frame, consuming the view.
    pub fn into_raw_bytes(self) -> (r: &'b [u8])
        ensures
            r@ == self@,
    {
        self.data
    }

    /// Writes into `out` the ASCII frame that carries the same address,
    /// function and payload.
    pub fn ascii_bytes<'o>(&self, out: &'o mut [u8]) -> (r: crate::ascii::Frame<'o>)
        requires
            old(out)@.len() >= 2 * self@.len() + 1,
        ensures
            r@ == ascii_encoding(checked_part(self@)),
    {
        encode(self, out)
    }

    /// The bytes in RTU wire order.
    pub fn rtu_bytes(&self) -> (r: &'b [u8])
        ensures
            r@ == self@,
    {
        self.data
    }

    /// Starts a response to this frame in `response_buffer`, with the same
    /// address and function code.
    pub fn response_builder<'buff>(&self, response_buffer: &'buff mut [u8]) -> (r: Builder<
        'buff,
        AddData,
    >)
        requires
            old(response_buffer)@.len() >= 2,
        ensures
            r.written() == seq![self@[0], self@[1]],
            r.capacity() == old(response_buffer)@.len(),
    {
        let r = build_frame(response_buffer).for_address(self.address()).function(self.function());
        assert(r.written() =~= seq![self@[0], self@[1]]);
        r
    }

    /// Builds in `response_buffer` the exception response to this frame.
    pub fn response_exception<'buff>(
        &self,
        response_buffer: &'buff mut [u8],
        exception: Exception,
    ) -> (r: (Frame<'buff>, &'buff mut [u8]))
        requires
            old(response_buffer)@.len() >= 5,
        ensures
            r.0@ == with_crc(seq![self@[0], exception_code(self@[1]), exception.0]),
            r.1@.len() == old(response_buffer)@.len() - 5,
            r.1@ == old(response_buffer)@.subrange(5, old(response_buffer)@.len() as int),
    {
        let start = build_frame(response_buffer);
        let b = start.for_address(self.address());
        let r = b.exception(self.function(), exception);
        proof {
            let len = start.capacity() as int;
            assert forall|k: int| 0 <= k < r.1@.len() implies r.1@[k] == start.contents()[5 + k] by {
                assert(b.contents().subrange(1, len)[k + 4] == start.contents().subrange(1, len)[k
                    + 4]);
            }
            assert(r.1@ =~= start.contents().subrange(5, len));
        }
        assert(seq![self@[0]] + seq![exception_code(self@[1]), exception.0] =~= seq![
            self@[0],
            exception_code(self@[1]),
            exception.0,
        ]);
        r
    }
}

} // verus!
