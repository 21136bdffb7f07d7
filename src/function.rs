//! Function codes: the second byte of every frame.
use vstd::prelude::*;

verus! {

/// A function code; the top bit marks an exception response.
#[derive(Debug, PartialEq, Eq, Structural, PartialOrd, Ord, Clone, Copy, Hash)]
pub struct Function(pub u8);

/// Read coils (1).
pub const READ_COILS: u8 = 1;

/// Read discrete inputs (2).
pub const READ_DISCRETE_INPUTS: u8 = 2;

/// Read holding registers (3).
pub const READ_HOLDING_REGISTERS: u8 = 3;

/// Read input registers (4).
pub const READ_INPUT_REGISTERS: u8 = 4;

/// Write a single coil (5).
pub const WRITE_COIL: u8 = 5;

/// Write a single holding register (6).
pub const WRITE_HOLDING_REGISTER: u8 = 6;

/// Write multiple coils (15).
pub const WRITE_MULTIPLE_COILS: u8 = 15;

/// Write multiple holding registers (16).
pub const WRITE_MULTIPLE_HOLDING_REGISTERS: u8 = 16;

/// Report server id (17).
pub const REPORT_SERVER_ID: u8 = 17;

/// The code of an exception response to `base`: its top bit set.
pub open spec fn exception_code(base: u8) -> u8 {
    base | 0x80
}

impl Function {
    /// The code of the exception response to this function.
    pub fn exception(self) -> (r: Function)
        ensures
            r.0 == exception_code(self.0),
    {
        Function(self.0 | 0x80)
    }

    /// True when the top bit marks this code as an exception response.
    pub fn is_exception(self) -> (r: bool)
        ensures
            r == (self.0 >= 128),
    {
        self.0 >= 0x80
    }
}

impl From<u8> for Function {
    fn from(f: u8) -> (r: Function)
        ensures
            r.0 == f,
    {
        Function(f)
    }
}

impl vstd::std_specs::convert::FromSpecImpl<u8> for Function {
    open spec fn obeys_from_spec() -> bool {
        true
    }

    open spec fn from_spec(f: u8) -> Function {
        Function(f)
    }
}

} // verus!
