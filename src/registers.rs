//! Registers on the wire: 16-bit values, most significant byte first.
use vstd::prelude::*;

verus! {

/// The two bytes of `v`, most significant first.
pub open spec fn be_bytes(v: u16) -> Seq<u8> {
    seq![(v / 256) as u8, (v % 256) as u8]
}

/// The value of two bytes, the first the most significant.
pub open spec fn be_u16(hi: u8, lo: u8) -> u16 {
    (hi as int * 256 + lo as int) as u16
}

/// The wire bytes of a register sequence.
pub open spec fn regs_bytes(regs: Seq<u16>) -> Seq<u8>
    decreases regs.len(),
{
    if regs.len() == 0 {
        Seq::empty()
    } else {
        regs_bytes(regs.drop_last()) + be_bytes(regs.last())
    }
}

/// The registers that `bytes` encode, two bytes each; an odd last byte is ignored.
pub open spec fn regs_of(bytes: Seq<u8>) -> Seq<u16> {
    Seq::new(bytes.len() / 2, |i: int| be_u16(bytes[2 * i], bytes[2 * i + 1]))
}

/// Register `i` of an encoded sequence sits at bytes `2i` and `2i + 1`.
pub proof fn lemma_regs_bytes_index(regs: Seq<u16>, i: int)
    requires
        0 <= i < regs.len(),
    ensures
        regs_bytes(regs).len() == 2 * regs.len(),
        regs_bytes(regs)[2 * i] == be_bytes(regs[i])[0],
        regs_bytes(regs)[2 * i + 1] == be_bytes(regs[i])[1],
    decreases regs.len(),
{
    lemma_regs_bytes_len(regs);
    if i < regs.len() - 1 {
        lemma_regs_bytes_index(regs.drop_last(), i);
    }
}

pub proof fn lemma_regs_bytes_len(regs: Seq<u16>)
    ensures
        regs_bytes(regs).len() == 2 * regs.len(),
    decreases regs.len(),
{
    if regs.len() > 0 {
        lemma_regs_bytes_len(regs.drop_last());
    }
}

/// The value of two bytes, the first the most significant.
pub fn read_be_u16(hi: u8, lo: u8) -> (r: u16)
    ensures
        r == be_u16(hi, lo),
{
    (hi as u16) * 256 + lo as u16
}

/// An iterator over the registers that a payload encodes.
pub struct Registers<'a> {
    payload: &'a [u8],
    pos: usize,
}

impl<'a> Registers<'a> {
    /// The registers of `payload` that have not been returned yet.
    pub closed spec fn remaining(&self) -> Seq<u16> {
        regs_of(self.payload@.subrange(self.pos as int, self.payload@.len() as int))
    }

    #[verifier::type_invariant]
    closed spec fn within(self) -> bool {
        self.pos <= self.payload@.len()
    }

    /// Starts at the first register of `payload`.
    pub fn create(payload: &'a [u8]) -> (r: Registers<'a>)
        ensures
            r.remaining() == regs_of(payload@),
    {
        let r = Registers { payload, pos: 0 };
        assert(payload@.subrange(0, payload@.len() as int) =~= payload@);
        r
    }

    /// The next register, if two more bytes are left.
    pub fn next(&mut self) -> (r: Option<u16>)
        ensures
            old(self).remaining().len() == 0 ==> r is None && final(self).remaining() == old(
                self,
            ).remaining(),
            old(self).remaining().len() > 0 ==> r == Some(old(self).remaining()[0])
                && final(self).remaining() == old(self).remaining().drop_first(),
    {
        proof {
            use_type_invariant(&*self);
        }
        let ghost before = self.payload@.subrange(self.pos as int, self.payload@.len() as int);
        if self.payload.len() - self.pos < 2 {
            None
        } else {
            let v = read_be_u16(self.payload[self.pos], self.payload[self.pos + 1]);
            self.pos = self.pos + 2;
            let ghost after = self.payload@.subrange(self.pos as int, self.payload@.len() as int);
            assert(after =~= before.subrange(2, before.len() as int));
            assert(regs_of(after) =~= regs_of(before).drop_first());
            Some(v)
        }
    }

    /// Collects the remaining registers.
    pub fn collect(self) -> (r: Vec<u16>)
        ensures
            r@ == self.remaining(),
    {
        let mut it = self;
        let mut r: Vec<u16> = Vec::new();
        loop
            invariant
                r@ + it.remaining() == self.remaining(),
            decreases it.remaining().len(),
        {
            match it.next() {
                Some(v) => {
                    r.push(v);
                },
                None => {
                    assert(r@ + it.remaining() =~= r@);
                    return r;
                },
            }
        }
    }
}

} // verus!
