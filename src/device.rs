//! A device on the bus, known by its address.
use vstd::prelude::*;

use crate::frame::{frame_status, Frame, MAX_FRAME_LEN};
use crate::Error;

verus! {

/// A device address.
#[derive(Debug, Clone, Copy, PartialEq, Eq, Structural)]
pub struct Device {
    adr: u8,
}

impl Device {
    /// The address, in specifications.
    pub closed spec fn spec_address(&self) -> u8 {
        self.adr
    }

    /// The device at `address`.
    pub fn new(address: u8) -> (r: Device)
        ensures
            r.address() == address,
    {
        Device { adr: address }
    }

    /// The device's address.
    #[verifier::when_used_as_spec(spec_address)]
    pub fn address(&self) -> (r: u8)
        ensures
            r == self.spec_address(),
    {
        self.adr
    }

    /// Checks `bytes` as a frame addressed to this device: at most 256 bytes
    /// long, then a valid frame, then this device's address.
    pub fn decode<'b>(&self, bytes: &'b [u8]) -> (r: Result<Frame<'b>, Error>)
        ensures
            match r {
                Ok(f) => {
                    &&& bytes@.len() <= MAX_FRAME_LEN
                    &&& frame_status(bytes@) is Ok
                    &&& bytes@[0] == self.address()
                    &&& f@ == bytes@
                },
                Err(e) => if bytes@.len() > MAX_FRAME_LEN {
                    e == Error::InvalidLength
                } else if frame_status(bytes@) is Err {
                    frame_status(bytes@) == Err::<(), Error>(e)
                } else {
                    bytes@[0] != self.address() && e == Error::OtherAddress
                },
            },
    {
        if bytes.len() > MAX_FRAME_LEN {
            return Err(Error::InvalidLength);
        }
        match Frame::try_from(bytes) {
            Ok(frame) => {
                if frame.address() == self.adr {
                    Ok(frame)
                } else {
                    Err(Error::OtherAddress)
                }
            },
            Err(e) => Err(e),
        }
    }
}

} // verus!
