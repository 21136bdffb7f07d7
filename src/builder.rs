//! Writes frames into a caller-supplied buffer: address, then function code,
//! then payload, then the checksum. Each step is a state of its own, so
//! nothing can be written out of order.
use vstd::prelude::*;

use crate::bits::{bit_at, bit_of, lemma_set_bit, lemma_zero_bits, packed_len, packs};
use crate::checksum::{calculate_crc16, checked_part, crc_matches, lemma_with_crc, with_crc};
use crate::exception::Exception;
use crate::frame::{payload_of, Frame};
use crate::function::{exception_code, Function};
use crate::registers::{be_bytes, lemma_regs_bytes_len, regs_bytes};

verus! {

/// A frame under construction in a borrowed buffer.
pub struct Builder<'b, STATE> {
    buffer: &'b mut [u8],
    idx: usize,
    state: STATE,
}

/// Builder state: nothing written yet.
pub struct Initial;

/// Builder state: the address is written, the function code comes next.
pub struct AddFunction;

/// Builder state: address and function are written; payload may follow.
pub struct AddData;

/// `after` holds the bytes of `before` from position `from` on.
pub open spec fn tail_kept(after: Seq<u8>, before: Seq<u8>, from: int) -> bool {
    &&& after.len() == before.len()
    &&& after.subrange(from, after.len() as int) == before.subrange(from, before.len() as int)
}

/// Keeping a tail twice keeps the shorter tail.
pub proof fn lemma_tail_kept_trans(c: Seq<u8>, b: Seq<u8>, a: Seq<u8>, i: int, j: int)
    requires
        tail_kept(c, b, j),
        tail_kept(b, a, i),
        0 <= i <= j <= a.len(),
    ensures
        tail_kept(c, a, j),
{
    assert forall|k: int| j <= k < a.len() implies c[k] == a[k] by {
        assert(c.subrange(j, c.len() as int)[k - j] == b.subrange(j, b.len() as int)[k - j]);
        assert(b.subrange(i, b.len() as int)[k - i] == a.subrange(i, a.len() as int)[k - i]);
    }
    assert(c.subrange(j, c.len() as int) =~= a.subrange(j, a.len() as int));
}

/// Starts a frame at the beginning of `buff`.
pub fn build_frame<'b>(buff: &'b mut [u8]) -> (r: Builder<'b, Initial>)
    ensures
        r.written() == Seq::<u8>::empty(),
        r.capacity() == old(buff)@.len(),
        r.contents() == old(buff)@,
{
    Builder { buffer: buff, idx: 0, state: Initial }
}

impl<'b, STATE> Builder<'b, STATE> {
    /// The bytes written so far.
    pub closed spec fn written(&self) -> Seq<u8> {
        self.buffer@.subrange(0, self.idx as int)
    }

    /// The size of the buffer.
    pub closed spec fn capacity(&self) -> nat {
        self.buffer@.len()
    }

    /// The whole buffer: the bytes written, then what it held before.
    pub closed spec fn contents(&self) -> Seq<u8> {
        self.buffer@
    }

    #[verifier::type_invariant]
    closed spec fn within(self) -> bool {
        self.idx <= self.buffer@.len()
    }

    /// The bytes written so far.
    pub fn state(&self) -> (r: &[u8])
        ensures
            r@ == self.written(),
    {
        proof {
            use_type_invariant(self);
        }
        &self.buffer[0..self.idx]
    }

    /// How many bytes are written.
    pub fn bytes_consumed(&self) -> (r: usize)
        ensures
            r == self.written().len(),
    {
        proof {
            use_type_invariant(self);
        }
        self.idx
    }

    /// How many bytes of the buffer are still free.
    pub fn bytes_remaining(&self) -> (r: usize)
        ensures
            r == self.capacity() - self.written().len(),
    {
        proof {
            use_type_invariant(self);
        }
        self.buffer.len() - self.idx
    }
}

impl<'b> Builder<'b, Initial> {
    /// Writes the address byte.
    pub fn for_address(self, address: u8) -> (r: Builder<'b, AddFunction>)
        requires
            self.capacity() >= 1,
        ensures
            r.written() == seq![address],
            r.capacity() == self.capacity(),
            tail_kept(r.contents(), self.contents(), r.written().len() as int),
    {
        let Builder { buffer, idx, state } = self;
        buffer[0] = address;
        assert(buffer@.subrange(0, 1) =~= seq![address]);
        let r = Builder { buffer, idx: 1, state: AddFunction };
        assert(r.contents().subrange(1, r.capacity() as int) =~= self.contents().subrange(
            1,
            self.capacity() as int,
        ));
        r
    }
}

impl<'b> Builder<'b, AddFunction> {
    /// Writes the function code.
    pub fn function(self, function: Function) -> (r: Builder<'b, AddData>)
        requires
            self.written().len() < self.capacity(),
        ensures
            r.written() == self.written().push(function.0),
            r.capacity() == self.capacity(),
            tail_kept(r.contents(), self.contents(), r.written().len() as int),
    {
        proof {
            use_type_invariant(&self);
        }
        let Builder { buffer, idx, state } = self;
        buffer[idx] = function.0;
        let r = Builder { buffer, idx: idx + 1, state: AddData };
        assert(r.written() =~= self.written().push(function.0));
        assert(r.contents().subrange(idx + 1, r.capacity() as int) =~= self.contents().subrange(
            idx + 1,
            self.capacity() as int,
        ));
        r
    }

    /// Finishes an exception response to `function`: the code with its top
    /// bit set, then the exception code, then the checksum.
    pub fn exception(self, function: Function, exception: Exception) -> (r: (
        Frame<'b>,
        &'b mut [u8],
    ))
        requires
            self.written().len() + 4 <= self.capacity(),
        ensures
            r.0@ == with_crc(self.written() + seq![exception_code(function.0), exception.0]),
            r.1@.len() == self.capacity() - self.written().len() - 4,
            r.1@ == self.contents().subrange(
                self.written().len() + 4int,
                self.capacity() as int,
            ),
    {
        let a = self.function(function.exception());
        let b = a.byte(exception.0);
        proof {
            lemma_tail_kept_trans(
                b.contents(),
                a.contents(),
                self.contents(),
                a.written().len() as int,
                b.written().len() as int,
            );
        }
        assert(b.written() =~= self.written() + seq![exception_code(function.0), exception.0]);
        let r = b.finalise();
        proof {
            let lb = b.written().len() as int;
            let cap = self.capacity() as int;
            assert forall|k: int| 0 <= k < r.1@.len() implies r.1@[k] == self.contents()[lb + 2 + k] by {
                assert(b.contents().subrange(lb, cap)[k + 2] == self.contents().subrange(lb, cap)[k + 2]);
            }
        }
        assert(r.1@ =~= self.contents().subrange(self.written().len() + 4int, self.capacity() as int));
        r
    }
}

impl<'b> Builder<'b, AddData> {
    /// Appends one byte.
    pub fn byte(self, b: u8) -> (r: Builder<'b, AddData>)
        requires
            self.written().len() < self.capacity(),
        ensures
            r.written() == self.written().push(b),
            r.capacity() == self.capacity(),
            tail_kept(r.contents(), self.contents(), r.written().len() as int),
    {
        proof {
            use_type_invariant(&self);
        }
        let Builder { buffer, idx, state } = self;
        buffer[idx] = b;
        let r = Builder { buffer, idx: idx + 1, state };
        assert(r.written() =~= self.written().push(b));
        assert(r.contents().subrange(idx + 1, r.capacity() as int) =~= self.contents().subrange(
            idx + 1,
            self.capacity() as int,
        ));
        r
    }

    /// Appends `bytes` as they are.
    pub fn bytes(self, bytes: &[u8]) -> (r: Builder<'b, AddData>)
        requires
            self.written().len() + bytes@.len() <= self.capacity(),
        ensures
            r.written() == self.written() + bytes@,
            r.capacity() == self.capacity(),
            tail_kept(r.contents(), self.contents(), r.written().len() as int),
    {
        let mut b = self;
        let mut i: usize = 0;
        while i < bytes.len()
            invariant
                i <= bytes@.len(),
                b.capacity() == self.capacity(),
                self.written().len() + bytes@.len() <= self.capacity(),
                b.written() == self.written() + bytes@.subrange(0, i as int),
                tail_kept(b.contents(), self.contents(), b.written().len() as int),
            decreases bytes@.len() - i,
        {
            let ghost c0 = b.contents();
            let ghost l0 = b.written().len() as int;
            b = b.byte(bytes[i]);
            proof {
                lemma_tail_kept_trans(b.contents(), c0, self.contents(), l0, b.written().len() as int);
            }
            i += 1;
            assert(b.written() =~= self.written() + bytes@.subrange(0, i as int));
        }
        assert(bytes@.subrange(0, i as int) =~= bytes@);
        b
    }

    /// Appends one register, most significant byte first.
    pub fn register(self, r: u16) -> (out: Builder<'b, AddData>)
        requires
            self.written().len() + 2 <= self.capacity(),
        ensures
            out.written() == self.written() + be_bytes(r),
            out.capacity() == self.capacity(),
            tail_kept(out.contents(), self.contents(), out.written().len() as int),
    {
        let first = self.byte((r / 256) as u8);
        let out = first.byte((r % 256) as u8);
        proof {
            lemma_tail_kept_trans(
                out.contents(),
                first.contents(),
                self.contents(),
                first.written().len() as int,
                out.written().len() as int,
            );
        }
        assert(out.written() =~= self.written() + be_bytes(r));
        out
    }

    /// Appends registers, each most significant byte first.
    pub fn registers(self, regs: &[u16]) -> (r: Builder<'b, AddData>)
        requires
            self.written().len() + 2 * regs@.len() <= self.capacity(),
        ensures
            r.written() == self.written() + regs_bytes(regs@),
            r.capacity() == self.capacity(),
            tail_kept(r.contents(), self.contents(), r.written().len() as int),
    {
        let mut b = self;
        let mut i: usize = 0;
        while i < regs.len()
            invariant
                i <= regs@.len(),
                b.capacity() == self.capacity(),
                self.written().len() + 2 * regs@.len() <= self.capacity(),
                b.written() == self.written() + regs_bytes(regs@.subrange(0, i as int)),
                b.written().len() == self.written().len() + 2 * i,
                tail_kept(b.contents(), self.contents(), b.written().len() as int),
            decreases regs@.len() - i,
        {
            let ghost c0 = b.contents();
            let ghost l0 = b.written().len() as int;
            b = b.register(regs[i]);
            proof {
                lemma_tail_kept_trans(b.contents(), c0, self.contents(), l0, b.written().len() as int);
            }
            i += 1;
            proof {
                let pre = regs@.subrange(0, i as int);
                assert(pre.drop_last() =~= regs@.subrange(0, i - 1));
                assert(b.written() =~= self.written() + regs_bytes(pre));
            }
        }
        assert(regs@.subrange(0, i as int) =~= regs@);
        b
    }

    /// Packs `bits` into bytes, the first in the least significant bit, and
    /// appends them. Also returns how many bits were written, which the packed
    /// bytes alone do not tell.
    pub fn bits(self, bits: &[bool]) -> (r: (Builder<'b, AddData>, usize))
        requires
            self.written().len() + packed_len(bits@.len() as nat) <= self.capacity(),
        ensures
            r.0.capacity() == self.capacity(),
            tail_kept(r.0.contents(), self.contents(), r.0.written().len() as int),
            r.0.written().len() == self.written().len() + packed_len(bits@.len() as nat),
            r.0.written().subrange(0, self.written().len() as int) == self.written(),
            packs(
                r.0.written().subrange(self.written().len() as int, r.0.written().len() as int),
                bits@,
            ),
            r.1 == bits@.len(),
    {
        let ghost start = self.written().len() as int;
        let mut b = self;
        let mut acc: u8 = 0;
        let mut i: usize = 0;
        assert forall|k: u8| k < 8 implies !#[trigger] bit_at(acc, k) by {
            lemma_zero_bits(k);
        }
        while i < bits.len()
            invariant
                i <= bits@.len(),
                b.capacity() == self.capacity(),
                start == self.written().len(),
                start + packed_len(bits@.len() as nat) <= self.capacity(),
                b.written().len() == start + i / 8,
                b.written().subrange(0, start) == self.written(),
                tail_kept(b.contents(), self.contents(), b.written().len() as int),
                forall|j: int|
                    0 <= j < 8 * (i / 8) ==> #[trigger] bit_of(
                        b.written().subrange(start, b.written().len() as int),
                        j,
                    ) == bits@[j],
                forall|k: u8| k < 8 ==> #[trigger] bit_at(acc, k) == (k < i % 8 && bits@[i - i % 8 + k as int]),
            decreases bits@.len() - i,
        {
            let k = (i % 8) as u8;
            let ghost acc0 = acc;
            if bits[i] {
                acc = acc | (1u8 << k);
            }
            assert forall|j: u8| j < 8 implies #[trigger] bit_at(acc, j) == (j <= k && bits@[i - i % 8 + j as int]) by {
                if bits@[i as int] {
                    lemma_set_bit(acc0, k, j);
                }
            }
            if k == 7 {
                let ghost w0 = b.written();
                let ghost c0 = b.contents();
                b = b.byte(acc);
                acc = 0;
                proof {
                    lemma_tail_kept_trans(
                        b.contents(),
                        c0,
                        self.contents(),
                        w0.len() as int,
                        b.written().len() as int,
                    );
                    let tail = b.written().subrange(start, b.written().len() as int);
                    let tail0 = w0.subrange(start, w0.len() as int);
                    assert forall|j: int| 0 <= j < 8 * ((i + 1) / 8) implies #[trigger] bit_of(
                        tail,
                        j,
                    ) == bits@[j] by {
                        if j < 8 * (i / 8) {
                            assert(bit_of(tail0, j) == bits@[j]);
                            assert(tail[j / 8] == tail0[j / 8]);
                        } else {
                            assert(j / 8 == i / 8);
                            assert(tail[j / 8] == acc0 | (1u8 << k) || tail[j / 8] == acc0);
                            assert(bit_at(tail[j / 8], (j % 8) as u8) == bits@[i - i % 8 + (j % 8)]);
                        }
                    }
                    assert(b.written().subrange(0, start) =~= self.written());
                    assert forall|j: u8| j < 8 implies #[trigger] bit_at(acc, j) == (j < (i + 1) % 8
                        && bits@[(i + 1) - (i + 1) % 8 + j as int]) by {
                        lemma_zero_bits(j);
                    }
                }
            }
            i += 1;
        }
        if i % 8 != 0 {
            let ghost w0 = b.written();
            let ghost c0 = b.contents();
            b = b.byte(acc);
            proof {
                lemma_tail_kept_trans(
                    b.contents(),
                    c0,
                    self.contents(),
                    w0.len() as int,
                    b.written().len() as int,
                );
                let tail = b.written().subrange(start, b.written().len() as int);
                let tail0 = w0.subrange(start, w0.len() as int);
                assert forall|j: int| 0 <= j < 8 * tail.len() implies #[trigger] bit_of(tail, j) == (
                j < bits@.len() && bits@[j]) by {
                    if j < 8 * (i / 8) {
                        assert(bit_of(tail0, j) == bits@[j]);
                        assert(tail[j / 8] == tail0[j / 8]);
                    } else {
                        assert(j / 8 == i / 8);
                        assert(tail[j / 8] == acc);
                        assert(bit_at(acc, (j % 8) as u8) == ((j % 8) < i % 8 && bits@[i - i % 8 + (j
                            % 8)]));
                    }
                }
                assert(b.written().subrange(0, start) =~= self.written());
            }
        } else {
            proof {
                let tail = b.written().subrange(start, b.written().len() as int);
                assert forall|j: int| 0 <= j < 8 * tail.len() implies #[trigger] bit_of(tail, j) == (
                j < bits@.len() && bits@[j]) by {
                    assert(bit_of(tail, j) == bits@[j]);
                }
            }
        }
        (b, i)
    }

    /// Reserves one byte, lets `to_count` append a sub-payload, then writes
    /// the length of that sub-payload into the reserved byte.
    pub fn count_following_bytes<F>(self, to_count: F) -> (r: Builder<'b, AddData>) where
        F: FnOnce(Builder<'b, AddData>) -> Builder<'b, AddData>,

        requires
            self.written().len() < self.capacity(),
            forall|b: Builder<'b, AddData>|
                b.capacity() == self.capacity() && b.written().len() == self.written().len() + 1
                    && b.written().subrange(0, self.written().len() as int) == self.written()
                    ==> #[trigger] to_count.requires((b,)),
            forall|b: Builder<'b, AddData>, out: Builder<'b, AddData>| #[trigger]
                to_count.ensures((b,), out) ==> out.capacity() == b.capacity()
                    && b.written().len() <= out.written().len() <= b.written().len() + 255
                    && out.written().subrange(0, b.written().len() as int) == b.written(),
        ensures
            exists|b: Builder<'b, AddData>, out: Builder<'b, AddData>|
                {
                    &&& b.capacity() == self.capacity()
                    &&& b.written().len() == self.written().len() + 1
                    &&& b.written().subrange(0, self.written().len() as int) == self.written()
                    &&& #[trigger] to_count.ensures((b,), out)
                    &&& r.capacity() == out.capacity()
                    &&& r.written() == out.written().update(
                        self.written().len() as int,
                        (out.written().len() - self.written().len() - 1) as u8,
                    )
                },
    {
        proof {
            use_type_invariant(&self);
        }
        assert(self.written().len() == self.idx);
        let Builder { buffer, idx, state } = self;
        let at = idx;
        assert(buffer@.len() == buffer.len());
        let reserved = Builder { buffer, idx: idx + 1, state };
        assert(reserved.written().subrange(0, at as int) =~= self.written());
        let ghost b = reserved;
        let out = to_count(reserved);
        proof {
            use_type_invariant(&out);
        }
        let Builder { buffer, idx, state } = out;
        let count = (idx - at - 1) as u8;
        buffer[at] = count;
        let r = Builder { buffer, idx, state };
        assert(r.written() =~= out.written().update(at as int, count));
        r
    }

    /// Appends the number of registers, the number of bytes that follow, and
    /// the registers themselves, as the write-multiple requests lay them out.
    pub fn count_registers(self, regs: &[u16]) -> (r: Builder<'b, AddData>)
        requires
            2 * regs@.len() <= 255,
            self.written().len() + 3 + 2 * regs@.len() <= self.capacity(),
        ensures
            r.written() == self.written() + be_bytes(regs@.len() as u16) + seq![
                (2 * regs@.len()) as u8,
            ] + regs_bytes(regs@),
            r.capacity() == self.capacity(),
            tail_kept(r.contents(), self.contents(), r.written().len() as int),
    {
        proof {
            lemma_regs_bytes_len(regs@);
        }
        let a = self.register(regs.len() as u16);
        let b = a.byte((2 * regs.len()) as u8);
        let r = b.registers(regs);
        proof {
            let la = a.written().len() as int;
            let lb = b.written().len() as int;
            let lr = r.written().len() as int;
            lemma_tail_kept_trans(b.contents(), a.contents(), self.contents(), la, lb);
            lemma_tail_kept_trans(r.contents(), b.contents(), self.contents(), lb, lr);
        }
        assert(r.written() =~= self.written() + be_bytes(regs@.len() as u16) + seq![
            (2 * regs@.len()) as u8,
        ] + regs_bytes(regs@));
        r
    }

    /// Appends the number of bits, the number of bytes that follow, and the
    /// packed bits, as the write-multiple-coils request lays them out.
    pub fn count_bits(self, bits: &[bool]) -> (r: Builder<'b, AddData>)
        requires
            bits@.len() <= 1968,
            self.written().len() + 3 + packed_len(bits@.len() as nat) <= self.capacity(),
        ensures
            r.capacity() == self.capacity(),
            tail_kept(r.contents(), self.contents(), r.written().len() as int),
            r.written().len() == self.written().len() + 3 + packed_len(bits@.len() as nat),
            r.written().subrange(0, self.written().len() + 3int) == self.written() + be_bytes(
                bits@.len() as u16,
            ) + seq![packed_len(bits@.len() as nat) as u8],
            packs(
                r.written().subrange(self.written().len() + 3int, r.written().len() as int),
                bits@,
            ),
    {
        let a = self.register(bits.len() as u16);
        let b = a.byte(((bits.len() + 7) / 8) as u8);
        let ghost w = b.written();
        let (r, _count) = b.bits(bits);
        proof {
            let la = a.written().len() as int;
            let lb = b.written().len() as int;
            lemma_tail_kept_trans(b.contents(), a.contents(), self.contents(), la, lb);
            lemma_tail_kept_trans(r.contents(), b.contents(), self.contents(), lb, r.written().len() as int);
            let n = self.written().len() as int;
            assert(r.written().subrange(0, n + 3) =~= w);
            assert(w =~= self.written() + be_bytes(bits@.len() as u16) + seq![
                packed_len(bits@.len() as nat) as u8,
            ]);
        }
        r
    }

    /// Appends the checksum and splits the buffer into the finished frame
    /// and the part that is still free.
    pub fn finalise(self) -> (r: (Frame<'b>, &'b mut [u8]))
        requires
            self.written().len() >= 2,
            self.written().len() + 2 <= self.capacity(),
        ensures
            r.0@ == with_crc(self.written()),
            r.1@.len() == self.capacity() - self.written().len() - 2,
            r.1@ == self.contents().subrange(
                self.written().len() + 2int,
                self.capacity() as int,
            ),
    {
        proof {
            use_type_invariant(&self);
        }
        let Builder { buffer, idx, state } = self;
        let crc = calculate_crc16(&buffer[0..idx]);
        buffer[idx] = (crc % 256) as u8;
        buffer[idx + 1] = (crc / 256) as u8;
        let (frame, rest) = buffer.split_at_mut(idx + 2);
        assert(frame@ =~= with_crc(self.written()));
        assert(rest@ =~= self.contents().subrange(idx + 2, self.capacity() as int));
        (Frame::new_unchecked(frame), rest)
    }
}

/// A frame built from an address, a function code and a payload passes the
/// frame check and reads back the same address, function code and payload.
pub proof fn lemma_build_then_parse(address: u8, function: u8, payload: Seq<u8>)
    ensures
        with_crc(seq![address, function] + payload).len() >= 4,
        crc_matches(with_crc(seq![address, function] + payload)),
        with_crc(seq![address, function] + payload)[0] == address,
        with_crc(seq![address, function] + payload)[1] == function,
        payload_of(with_crc(seq![address, function] + payload)) == payload,
{
    let w = seq![address, function] + payload;
    lemma_with_crc(w);
    assert(checked_part(with_crc(w)) == w);
    assert(with_crc(w)[0] == w[0]);
    assert(with_crc(w)[1] == w[1]);
    assert(payload_of(with_crc(w)) =~= payload);
}

} // verus!
