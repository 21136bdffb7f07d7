//! Entity numbers: the long decimal form of an input, coil or register
//! address. The first digit gives the type (0 coil, 1 discrete input,
//! 3 input register, 4 holding register); the other four or five digits give
//! the 1-based location, so `40001` is the holding register at address 0.
use vstd::prelude::*;
use vstd::string::StringSliceAdditionalSpecFns;

use crate::Error;

verus! {

/// The kind of data point an entity number names.
#[derive(Debug, PartialEq, Eq, Structural, Clone, Copy)]
pub enum EntityType {
    Coil,
    DiscreteInput,
    InputRegister,
    HoldingRegister,
}

/// The leading digit of an entity number of type `t`.
pub open spec fn type_digit(t: EntityType) -> u8 {
    match t {
        EntityType::Coil => 48,
        EntityType::DiscreteInput => 49,
        EntityType::InputRegister => 51,
        EntityType::HoldingRegister => 52,
    }
}

/// The type that a leading digit names, if any.
pub open spec fn type_of_digit(c: u8) -> Option<EntityType> {
    if c == 48 {
        Some(EntityType::Coil)
    } else if c == 49 {
        Some(EntityType::DiscreteInput)
    } else if c == 51 {
        Some(EntityType::InputRegister)
    } else if c == 52 {
        Some(EntityType::HoldingRegister)
    } else {
        None
    }
}

/// The last `n` decimal digits of `val`, zero-padded, most significant first.
pub open spec fn digits(val: nat, n: nat) -> Seq<u8>
    decreases n,
{
    if n == 0 {
        Seq::empty()
    } else {
        digits(val / 10, (n - 1) as nat).push((48 + val % 10) as u8)
    }
}

/// Whether every byte is a decimal digit.
pub open spec fn all_digits(s: Seq<u8>) -> bool {
    forall|i: int| 0 <= i < s.len() ==> 48 <= #[trigger] s[i] <= 57
}

/// The number that decimal digits spell.
pub open spec fn decimal_value(s: Seq<u8>) -> nat
    decreases s.len(),
{
    if s.len() == 0 {
        0
    } else {
        decimal_value(s.drop_last()) * 10 + (s.last() - 48) as nat
    }
}

/// Ten to the power `n`.
pub open spec fn pow10(n: nat) -> nat
    decreases n,
{
    if n == 0 {
        1
    } else {
        10 * pow10((n - 1) as nat)
    }
}

/// What an entity number's text reads as: a type and a 0-based address.
pub open spec fn entity_status(text: Seq<u8>) -> Result<(EntityType, u16), Error> {
    if text.len() != 5 && text.len() != 6 {
        Err(Error::InvalidLength)
    } else if type_of_digit(text[0]) is None {
        Err(Error::InvalidEncoding)
    } else if !all_digits(text.drop_first()) {
        Err(Error::InvalidEncoding)
    } else if decimal_value(text.drop_first()) == 0 || decimal_value(text.drop_first()) > 65536 {
        Err(Error::InvalidEncoding)
    } else {
        Ok((type_of_digit(text[0])->Some_0, (decimal_value(text.drop_first()) - 1) as u16))
    }
}

/// A data point: its type and its 0-based address.
#[derive(Debug, PartialEq, Eq, Structural, Clone, Copy)]
pub struct Entity {
    t: EntityType,
    address: u16,
}

fn type_char(t: EntityType) -> (r: u8)
    ensures
        r == type_digit(t),
{
    match t {
        EntityType::Coil => 48,
        EntityType::DiscreteInput => 49,
        EntityType::InputRegister => 51,
        EntityType::HoldingRegister => 52,
    }
}

/// Writes the last `n` decimal digits of `val` into `out[0..n]`.
fn encode_decimal_to(val: u32, out: &mut [u8], n: usize)
    requires
        n <= old(out)@.len(),
    ensures
        final(out)@.len() == old(out)@.len(),
        final(out)@.subrange(0, n as int) == digits(val as nat, n as nat),
        final(out)@.subrange(n as int, final(out)@.len() as int) == old(out)@.subrange(
            n as int,
            old(out)@.len() as int,
        ),
    decreases n,
{
    if n > 0 {
        assert(out@.len() == out.len());
        out[n - 1] = (48 + val % 10) as u8;
        let ghost mid = out@;
        encode_decimal_to(val / 10, out, n - 1);
        let ghost len = out@.len() as int;
        assert(out@.subrange(n - 1, len)[0] == mid.subrange(n - 1, len)[0]);
        assert(out@[n - 1] == (48 + val % 10) as u8);
        assert forall|j: int| n <= j < len implies out@[j] == old(out)@[j] by {
            assert(out@.subrange(n - 1, len)[j - (n - 1)] == mid.subrange(n - 1, len)[j - (n - 1)]);
        }
        assert(out@.subrange(0, n as int) =~= digits((val / 10) as nat, (n - 1) as nat).push(
            (48 + val % 10) as u8,
        ));
        assert(out@.subrange(n as int, out@.len() as int) =~= old(out)@.subrange(
            n as int,
            old(out)@.len() as int,
        ));
    } else {
        assert(out@.subrange(0, 0) =~= digits(val as nat, 0));
    }
}

impl Entity {
    /// The type, in specifications.
    pub closed spec fn spec_etype(&self) -> EntityType {
        self.t
    }

    /// The address, in specifications.
    pub closed spec fn spec_address(&self) -> u16 {
        self.address
    }

    /// The entity of type `t` at 0-based `address`.
    pub fn from_address(t: EntityType, address: u16) -> (r: Entity)
        ensures
            r.etype() == t,
            r.address() == address,
    {
        Entity { t, address }
    }

    /// The type, which decides the functions that apply to the entity.
    #[verifier::when_used_as_spec(spec_etype)]
    pub fn etype(&self) -> (r: EntityType)
        ensures
            r == self.spec_etype(),
    {
        self.t
    }

    /// The 0-based address used in requests.
    #[verifier::when_used_as_spec(spec_address)]
    pub fn address(&self) -> (r: u16)
        ensures
            r == self.spec_address(),
    {
        self.address
    }

    /// The 1-based location.
    pub fn location(&self) -> (r: u32)
        ensures
            r == self.address() + 1,
    {
        self.address as u32 + 1
    }

    /// The five-character entity number, for addresses up to 9998.
    pub fn encode_to_str<'a>(&self, bytes: &'a mut [u8]) -> (r: Result<&'a [u8], Error>)
        ensures
            match r {
                Ok(s) => old(bytes)@.len() >= 5 && self.address() <= 9998 && s@ == seq![
                    type_digit(self.etype()),
                ] + digits((self.address() + 1) as nat, 4),
                Err(e) => e == Error::InvalidLength && (old(bytes)@.len() < 5 || self.address()
                    > 9998),
            },
    {
        if bytes.len() < 5 || self.address > 9998 {
            Err(Error::InvalidLength)
        } else {
            let (head, _rest) = bytes.split_at_mut(5);
            head[0] = type_char(self.t);
            let (_first, tail) = head.split_at_mut(1);
            encode_decimal_to(self.address as u32 + 1, tail, 4);
            assert(head@ =~= seq![type_digit(self.t)] + digits((self.address + 1) as nat, 4));
            Ok(head)
        }
    }

    /// The six-character entity number, for any address.
    pub fn encode_to_str_ext<'a>(&self, bytes: &'a mut [u8]) -> (r: Result<&'a [u8], Error>)
        ensures
            match r {
                Ok(s) => old(bytes)@.len() >= 6 && s@ == seq![type_digit(self.etype())] + digits(
                    (self.address() + 1) as nat,
                    5,
                ),
                Err(e) => e == Error::InvalidLength && old(bytes)@.len() < 6,
            },
    {
        if bytes.len() < 6 {
            Err(Error::InvalidLength)
        } else {
            let (head, _rest) = bytes.split_at_mut(6);
            head[0] = type_char(self.t);
            let (_first, tail) = head.split_at_mut(1);
            encode_decimal_to(self.address as u32 + 1, tail, 5);
            assert(head@ =~= seq![type_digit(self.t)] + digits((self.address + 1) as nat, 5));
            Ok(head)
        }
    }

    /// Reads an entity number: a type digit, then four or five digits of a
    /// location from 1 to 65536.
    pub fn try_from(value: &str) -> (r: Result<Entity, Error>)
        ensures
            match r {
                Ok(e) => entity_status(value.spec_bytes()) == Ok::<(EntityType, u16), Error>(
                    (e.etype(), e.address()),
                ),
                Err(x) => entity_status(value.spec_bytes()) == Err::<(EntityType, u16), Error>(x),
            },
    {
        let bytes = value.as_bytes();
        if bytes.len() != 5 && bytes.len() != 6 {
            return Err(Error::InvalidLength);
        }
        let t = if bytes[0] == 48 {
            EntityType::Coil
        } else if bytes[0] == 49 {
            EntityType::DiscreteInput
        } else if bytes[0] == 51 {
            EntityType::InputRegister
        } else if bytes[0] == 52 {
            EntityType::HoldingRegister
        } else {
            return Err(Error::InvalidEncoding);
        };
        let ghost rest = bytes@.drop_first();
        let mut location: u32 = 0;
        let mut i: usize = 1;
        proof {
            reveal_with_fuel(pow10, 6);
        }
        while i < bytes.len()
            invariant
                1 <= i <= bytes@.len(),
                bytes@.len() == 5 || bytes@.len() == 6,
                bytes@ == value.spec_bytes(),
                type_of_digit(bytes@[0]) == Some(t),
                rest == bytes@.drop_first(),
                all_digits(rest.subrange(0, i - 1)),
                location as nat == decimal_value(rest.subrange(0, i - 1)),
                location < pow10((i - 1) as nat),
                pow10(5) == 100000,
                pow10(4) == 10000,
                pow10(3) == 1000,
                pow10(2) == 100,
                pow10(1) == 10,
                pow10(0) == 1,
            decreases bytes@.len() - i,
        {
            let b = bytes[i];
            if b < 48 || b > 57 {
                assert(rest[i - 1] == b);
                return Err(Error::InvalidEncoding);
            }
            location = location * 10 + (b - 48) as u32;
            i += 1;
            proof {
                let pre = rest.subrange(0, i - 1);
                assert(pre.drop_last() =~= rest.subrange(0, i - 2));
            }
        }
        assert(rest.subrange(0, i - 1) =~= rest);
        if location == 0 || location > 65536 {
            Err(Error::InvalidEncoding)
        } else {
            Ok(Entity { t, address: (location - 1) as u16 })
        }
    }
}

} // verus!
