//! The ASCII transport: `':' | hex(address) | hex(function) | hex(payload) | hex(lrc) | "\r\n"`,
//! each byte as two upper-case hex digits, high nibble first.
use vstd::prelude::*;

use crate::checksum::checked_part;
use crate::device::Device;
use crate::function::Function;
use crate::lrc::{byte_sum, calculate, lemma_byte_sum_concat, lrc_of};
use crate::registers::{be_bytes, regs_bytes};
use crate::Error;
use vstd::arithmetic::div_mod::{lemma_add_mod_noop, lemma_add_mod_noop_right, lemma_small_mod};

verus! {

/// The start delimiter `':'`.
pub const START: u8 = 58;

/// The carriage return of the terminator.
pub const CR: u8 = 13;

/// The line feed of the terminator.
pub const LF: u8 = 10;

/// The upper-case hex digit of a nibble.
pub open spec fn hex_digit(n: u8) -> u8 {
    if n < 10 {
        (48 + n) as u8
    } else {
        (55 + n) as u8
    }
}

/// Whether `c` is one of `0-9A-F`.
pub open spec fn is_hex(c: u8) -> bool {
    (48 <= c <= 57) || (65 <= c <= 70)
}

/// The value of a hex digit.
pub open spec fn hex_val(c: u8) -> u8 {
    if 48 <= c <= 57 {
        (c - 48) as u8
    } else {
        (c - 55) as u8
    }
}

/// The two hex digits of a byte, high nibble first.
pub open spec fn hex_pair(b: u8) -> Seq<u8> {
    seq![hex_digit(b / 16), hex_digit(b % 16)]
}

/// The hex text of a byte sequence.
pub open spec fn hex_of(bytes: Seq<u8>) -> Seq<u8>
    decreases bytes.len(),
{
    if bytes.len() == 0 {
        Seq::empty()
    } else {
        hex_of(bytes.drop_last()) + hex_pair(bytes.last())
    }
}

/// The bytes that hex text encodes, a pair of digits each.
pub open spec fn unhex(text: Seq<u8>) -> Seq<u8> {
    Seq::new(text.len() / 2, |i: int| (hex_val(text[2 * i]) * 16 + hex_val(text[2 * i + 1])) as u8)
}

/// The ASCII frame of a message (address, function and payload).
pub open spec fn ascii_encoding(message: Seq<u8>) -> Seq<u8> {
    seq![START] + hex_of(message) + hex_pair(lrc_of(message)) + seq![CR, LF]
}

pub proof fn lemma_hex_digit(n: u8)
    requires
        n < 16,
    ensures
        is_hex(hex_digit(n)),
        hex_val(hex_digit(n)) == n,
{
}

/// The hex text of two byte sequences joined is their hex texts joined.
pub proof fn lemma_hex_of_concat(a: Seq<u8>, b: Seq<u8>)
    ensures
        hex_of(a + b) == hex_of(a) + hex_of(b),
    decreases b.len(),
{
    if b.len() == 0 {
        assert(a + b =~= a);
        assert(hex_of(a) + hex_of(b) =~= hex_of(a));
    } else {
        assert((a + b).drop_last() =~= a + b.drop_last());
        lemma_hex_of_concat(a, b.drop_last());
        assert(hex_of(a + b) =~= hex_of(a) + hex_of(b));
    }
}

pub proof fn lemma_hex_of_len(bytes: Seq<u8>)
    ensures
        hex_of(bytes).len() == 2 * bytes.len(),
    decreases bytes.len(),
{
    if bytes.len() > 0 {
        lemma_hex_of_len(bytes.drop_last());
    }
}

/// The digits of byte `i` sit at `2i` and `2i + 1` of the hex text.
pub proof fn lemma_hex_of_index(bytes: Seq<u8>, i: int)
    requires
        0 <= i < bytes.len(),
    ensures
        hex_of(bytes).len() == 2 * bytes.len(),
        hex_of(bytes)[2 * i] == hex_digit(bytes[i] / 16),
        hex_of(bytes)[2 * i + 1] == hex_digit(bytes[i] % 16),
    decreases bytes.len(),
{
    lemma_hex_of_len(bytes);
    lemma_hex_of_len(bytes.drop_last());
    if i < bytes.len() - 1 {
        lemma_hex_of_index(bytes.drop_last(), i);
    }
}

/// Hex text holds hex digits only, and decoding it gives the bytes back.
pub proof fn lemma_unhex_hex_of(bytes: Seq<u8>)
    ensures
        unhex(hex_of(bytes)) == bytes,
        forall|j: int| 0 <= j < hex_of(bytes).len() ==> is_hex(#[trigger] hex_of(bytes)[j]),
{
    lemma_hex_of_len(bytes);
    assert forall|i: int| 0 <= i < bytes.len() implies #[trigger] unhex(hex_of(bytes))[i]
        == bytes[i] by {
        lemma_hex_of_index(bytes, i);
        lemma_hex_digit(bytes[i] / 16);
        lemma_hex_digit(bytes[i] % 16);
    }
    assert(unhex(hex_of(bytes)) =~= bytes);
    assert forall|j: int| 0 <= j < hex_of(bytes).len() implies is_hex(
        #[trigger] hex_of(bytes)[j],
    ) by {
        let i = j / 2;
        lemma_hex_of_index(bytes, i);
        lemma_hex_digit(bytes[i] / 16);
        lemma_hex_digit(bytes[i] % 16);
    }
}

/// The hex digit of a nibble.
pub fn hex_nibble(n: u8) -> (r: u8)
    requires
        n < 16,
    ensures
        r == hex_digit(n),
{
    if n < 10 {
        48 + n
    } else {
        55 + n
    }
}

/// The value of a hex digit, or `None` for any other character.
pub fn hex_to_nibble(c: u8) -> (r: Option<u8>)
    ensures
        r == (if is_hex(c) {
            Some(hex_val(c))
        } else {
            None::<u8>
        }),
{
    if 48 <= c && c <= 57 {
        Some(c - 48)
    } else if 65 <= c && c <= 70 {
        Some(c - 55)
    } else {
        None
    }
}

/// The byte that two hex digits encode.
pub fn from_hex(inp: &[u8]) -> (r: u8)
    requires
        inp@.len() == 2,
        is_hex(inp@[0]),
        is_hex(inp@[1]),
    ensures
        r == (hex_val(inp@[0]) * 16 + hex_val(inp@[1])) as u8,
{
    let high = match hex_to_nibble(inp[0]) {
        Some(v) => v,
        None => 0,
    };
    let low = match hex_to_nibble(inp[1]) {
        Some(v) => v,
        None => 0,
    };
    high * 16 + low
}

/// Writes frames in ASCII form into a borrowed buffer, summing the bytes
/// for the LRC as they are written.
pub struct ASCII<'b> {
    buffer: &'b mut [u8],
    lrc_sum: u8,
    idx: usize,
}

impl<'b> ASCII<'b> {
    /// The text written so far.
    pub closed spec fn written(&self) -> Seq<u8> {
        self.buffer@.subrange(0, self.idx as int)
    }

    /// The size of the buffer.
    pub closed spec fn capacity(&self) -> nat {
        self.buffer@.len()
    }

    /// The modulo-256 sum of the bytes written so far.
    pub closed spec fn sum(&self) -> u8 {
        self.lrc_sum
    }

    #[verifier::type_invariant]
    closed spec fn within(self) -> bool {
        self.idx <= self.buffer@.len()
    }

    /// Starts with nothing written.
    pub fn new(buffer: &'b mut [u8]) -> (r: ASCII<'b>)
        ensures
            r.written() == Seq::<u8>::empty(),
            r.sum() == 0,
            r.capacity() == old(buffer)@.len(),
    {
        ASCII { buffer, lrc_sum: 0, idx: 0 }
    }

    /// How many characters are written.
    pub fn bytes_consumed(&self) -> (r: usize)
        ensures
            r == self.written().len(),
    {
        proof {
            use_type_invariant(self);
        }
        self.idx
    }

    /// How many characters still fit.
    pub fn bytes_remaining(&self) -> (r: usize)
        ensures
            r == self.capacity() - self.written().len(),
    {
        proof {
            use_type_invariant(self);
        }
        self.buffer.len() - self.idx
    }

    /// The text written so far.
    pub fn text(&self) -> (r: &[u8])
        ensures
            r@ == self.written(),
    {
        proof {
            use_type_invariant(self);
        }
        &self.buffer[0..self.idx]
    }

    /// Restarts the frame: writes the start delimiter and clears the sum.
    pub fn init(&mut self)
        requires
            old(self).capacity() >= 1,
        ensures
            final(self).written() == seq![START],
            final(self).sum() == 0,
            final(self).capacity() == old(self).capacity(),
    {
        proof {
            use_type_invariant(&*self);
        }
        self.buffer[0] = START;
        self.idx = 1;
        self.lrc_sum = 0;
        assert(self.written() =~= seq![START]);
    }

    /// Writes `byte` as two hex digits, high nibble first, and adds it to the sum.
    pub fn write_hex(&mut self, byte: u8)
        requires
            old(self).written().len() + 2 <= old(self).capacity(),
        ensures
            final(self).written() == old(self).written() + hex_pair(byte),
            final(self).sum() == (old(self).sum() + byte) % 256,
            final(self).capacity() == old(self).capacity(),
    {
        proof {
            use_type_invariant(&*self);
        }
        let ghost before = self.written();
        self.lrc_sum = ((self.lrc_sum as u16 + byte as u16) % 256) as u8;
        let i = self.idx;
        assert(self.buffer@.len() == self.buffer.len());
        self.buffer[i] = hex_nibble(byte / 16);
        self.buffer[i + 1] = hex_nibble(byte % 16);
        self.idx = i + 2;
        assert(self.written() =~= before + hex_pair(byte));
    }

    /// Writes `bytes` in hex.
    pub fn write_bytes(&mut self, bytes: &[u8])
        requires
            old(self).written().len() + 2 * bytes@.len() <= old(self).capacity(),
        ensures
            final(self).written() == old(self).written() + hex_of(bytes@),
            final(self).sum() == (old(self).sum() + byte_sum(bytes@)) % 256,
            final(self).capacity() == old(self).capacity(),
    {
        let mut i: usize = 0;
        proof {
            lemma_hex_of_len(bytes@);
        }
        while i < bytes.len()
            invariant
                i <= bytes@.len(),
                self.capacity() == old(self).capacity(),
                old(self).written().len() + 2 * bytes@.len() <= old(self).capacity(),
                self.written() == old(self).written() + hex_of(bytes@.subrange(0, i as int)),
                self.written().len() == old(self).written().len() + 2 * i,
                self.sum() == (old(self).sum() + byte_sum(bytes@.subrange(0, i as int))) % 256,
            decreases bytes@.len() - i,
        {
            let ghost s0 = self.sum();
            self.write_hex(bytes[i]);
            i += 1;
            proof {
                let pre = bytes@.subrange(0, i as int);
                let prev = bytes@.subrange(0, i - 1);
                assert(pre.drop_last() =~= prev);
                assert(self.written() =~= old(self).written() + hex_of(pre));
                let o = old(self).sum() as int;
                let bs = byte_sum(prev) as int;
                let b = bytes@[i - 1] as int;
                assert(byte_sum(pre) == (bs + b) % 256);
                lemma_add_mod_noop_right(o, bs + b, 256);
                lemma_add_mod_noop(o + bs, b, 256);
                lemma_small_mod(b as nat, 256);
                assert(self.sum() == (s0 + b) % 256);
                assert((o + bs + b) % 256 == (o + (bs + b) % 256) % 256);
            }
        }
        assert(bytes@.subrange(0, i as int) =~= bytes@);
    }

    /// Writes registers in hex, most significant byte first.
    pub fn write_registers(&mut self, registers: &[u16])
        requires
            old(self).written().len() + 4 * registers@.len() <= old(self).capacity(),
        ensures
            final(self).written() == old(self).written() + hex_of(regs_bytes(registers@)),
            final(self).sum() == (old(self).sum() + byte_sum(regs_bytes(registers@))) % 256,
            final(self).capacity() == old(self).capacity(),
    {
        let mut i: usize = 0;
        while i < registers.len()
            invariant
                i <= registers@.len(),
                self.capacity() == old(self).capacity(),
                old(self).written().len() + 4 * registers@.len() <= old(self).capacity(),
                self.written() == old(self).written() + hex_of(
                    regs_bytes(registers@.subrange(0, i as int)),
                ),
                self.written().len() == old(self).written().len() + 4 * i,
                self.sum() == (old(self).sum() + byte_sum(
                    regs_bytes(registers@.subrange(0, i as int)),
                )) % 256,
            decreases registers@.len() - i,
        {
            let r = registers[i];
            let pair = [(r / 256) as u8, (r % 256) as u8];
            let ghost w0 = self.written();
            let ghost s0 = self.sum();
            proof {
                assert(pair@ =~= be_bytes(r));
                lemma_hex_of_len(be_bytes(r));
            }
            self.write_bytes(&pair);
            i += 1;
            proof {
                let pre = registers@.subrange(0, i as int);
                let prev = registers@.subrange(0, i - 1);
                assert(pre.drop_last() =~= prev);
                assert(regs_bytes(pre) == regs_bytes(prev) + be_bytes(r));
                lemma_hex_of_concat(regs_bytes(prev), be_bytes(r));
                lemma_byte_sum_concat(regs_bytes(prev), be_bytes(r));
                assert(self.written() =~= old(self).written() + hex_of(regs_bytes(pre)));
                let o = old(self).sum() as int;
                let x = byte_sum(regs_bytes(prev)) as int;
                let y = byte_sum(be_bytes(r)) as int;
                vstd::arithmetic::div_mod::lemma_add_mod_noop(o + x, y, 256);
                vstd::arithmetic::div_mod::lemma_add_mod_noop_right(o, x + y, 256);
                vstd::arithmetic::div_mod::lemma_add_mod_noop(o, x + y, 256);
                vstd::arithmetic::div_mod::lemma_small_mod(y as nat, 256);
                vstd::arithmetic::div_mod::lemma_small_mod(o as nat, 256);
            }
        }
        assert(registers@.subrange(0, i as int) =~= registers@);
    }

    /// Writes the LRC of the summed bytes and the terminator, and returns the
    /// finished text as a frame.
    pub fn finalise(self) -> (r: Frame<'b>)
        requires
            self.written().len() + 4 <= self.capacity(),
            self.written().len() >= 5,
            forall|j: int| 1 <= j < self.written().len() ==> is_hex(#[trigger] self.written()[j]),
        ensures
            r@ == self.written() + hex_pair(((256 - self.sum()) % 256) as u8) + seq![CR, LF],
    {
        proof {
            use_type_invariant(&self);
        }
        let ghost before = self.written();
        let lrc = ((256 - self.lrc_sum as u16) % 256) as u8;
        let mut me = self;
        me.write_hex(lrc);
        proof {
            use_type_invariant(&me);
        }
        assert(me.written().len() == me.idx);
        let ASCII { buffer, lrc_sum, idx } = me;
        assert(buffer@.len() == buffer.len());
        buffer[idx] = CR;
        buffer[idx + 1] = LF;
        let (text, _rest) = buffer.split_at_mut(idx + 2);
        let ghost out = before + hex_pair(lrc) + seq![CR, LF];
        assert(text@ =~= out);
        proof {
            lemma_hex_digit(lrc / 16);
            lemma_hex_digit(lrc % 16);
            assert forall|j: int| 1 <= j < out.len() - 2 implies is_hex(#[trigger] out[j]) by {
                if j < before.len() {
                    assert(out[j] == before[j]);
                }
            }
        }
        Frame::new(text)
    }
}

/// A borrowed view of ASCII frame text.
pub struct Frame<'b> {
    data: &'b [u8],
}

impl<'b> View for Frame<'b> {
    type V = Seq<u8>;

    closed spec fn view(&self) -> Seq<u8> {
        self.data@
    }
}

/// Text with room for start, address, function, LRC and terminator, and hex
/// digits between start and terminator.
pub open spec fn text_well_formed(text: Seq<u8>) -> bool {
    &&& text.len() >= 9
    &&& forall|j: int| 1 <= j < text.len() - 2 ==> is_hex(#[trigger] text[j])
}

impl<'b> Frame<'b> {
    #[verifier::type_invariant]
    closed spec fn well_formed(self) -> bool {
        text_well_formed(self.data@)
    }

    /// Views `buffer` as ASCII frame text.
    pub fn new(buffer: &'b [u8]) -> (r: Frame<'b>)
        requires
            text_well_formed(buffer@),
        ensures
            r@ == buffer@,
    {
        Frame { data: buffer }
    }

    /// The device the frame is addressed to.
    pub fn device(&self) -> (r: Device)
        ensures
            r.address() == (hex_val(self@[1]) * 16 + hex_val(self@[2])) as u8,
    {
        proof {
            use_type_invariant(self);
        }
        Device::new(from_hex(&self.data[1..3]))
    }

    /// The function code.
    pub fn function(&self) -> (r: Function)
        ensures
            r.0 == (hex_val(self@[3]) * 16 + hex_val(self@[4])) as u8,
    {
        proof {
            use_type_invariant(self);
        }
        Function(from_hex(&self.data[3..5]))
    }

    /// The LRC byte, the two digits before the terminator.
    pub fn lrc(&self) -> (r: u8)
        ensures
            r == (hex_val(self@[self@.len() - 4]) * 16 + hex_val(self@[self@.len() - 3])) as u8,
    {
        proof {
            use_type_invariant(self);
        }
        let i = self.data.len() - 4;
        from_hex(&self.data[i..i + 2])
    }

    /// The hex text of the payload, between function code and LRC.
    pub fn payload(&self) -> (r: &'b [u8])
        ensures
            r@ == self@.subrange(5, self@.len() - 4),
    {
        proof {
            use_type_invariant(self);
        }
        let i = self.data.len() - 4;
        &self.data[5..i]
    }

    /// The whole text, delimiter and terminator included.
    pub fn raw_bytes(&self) -> (r: &'b [u8])
        ensures
            r@ == self@,
    {
        self.data
    }
}

/// The hex text between start delimiter and terminator.
pub open spec fn ascii_body(text: Seq<u8>) -> Seq<u8> {
    text.subrange(1, text.len() - 2)
}

/// The message that ASCII text carries: its decoded bytes without the LRC.
pub open spec fn ascii_message(text: Seq<u8>) -> Seq<u8> {
    unhex(ascii_body(text)).drop_last()
}

/// The outcome of decoding ASCII text.
pub open spec fn ascii_status(text: Seq<u8>) -> Result<(), Error> {
    if text.len() < 9 {
        Err(Error::InvalidLength)
    } else if text[0] != START || text[text.len() - 2] != CR || text[text.len() - 1] != LF {
        Err(Error::InvalidEncoding)
    } else if (text.len() - 3) % 2 != 0 {
        Err(Error::InvalidEncoding)
    } else if !(forall|j: int| 1 <= j < text.len() - 2 ==> is_hex(#[trigger] text[j])) {
        Err(Error::InvalidEncoding)
    } else if lrc_of(ascii_message(text)) != unhex(ascii_body(text)).last() {
        Err(Error::InvalidChecksum)
    } else {
        Ok(())
    }
}

/// Checks ASCII frame text and turns its hex digits back into bytes in place.
/// On success returns the message (address, function, payload) at the start
/// of the buffer and the rest of the buffer, which starts with the LRC byte;
/// on failure, the error and the whole buffer, untouched unless the failure
/// is a checksum mismatch found after the digits were converted.
pub fn decode<'a>(bytes: &'a mut [u8]) -> (r: (Result<&'a [u8], Error>, &'a mut [u8]))
    ensures
        match r.0 {
            Ok(m) => {
                &&& ascii_status(old(bytes)@) is Ok
                &&& m@ == ascii_message(old(bytes)@)
                &&& r.1@ == seq![lrc_of(m@)] + old(bytes)@.subrange(
                    m@.len() + 1int,
                    old(bytes)@.len() as int,
                )
            },
            Err(e) => {
                &&& ascii_status(old(bytes)@) == Err::<(), Error>(e)
                &&& r.1@.len() == old(bytes)@.len()
                &&& e != Error::InvalidChecksum ==> r.1@ == old(bytes)@
            },
        },
{
    let ghost orig = bytes@;
    let n = bytes.len();
    if n < 9 {
        return (Err(Error::InvalidLength), bytes);
    }
    if bytes[0] != START || bytes[n - 2] != CR || bytes[n - 1] != LF {
        return (Err(Error::InvalidEncoding), bytes);
    }
    if (n - 3) % 2 != 0 {
        return (Err(Error::InvalidEncoding), bytes);
    }
    let mut j: usize = 1;
    while j < n - 2
        invariant
            1 <= j <= n - 2,
            n >= 9,
            (n - 3) % 2 == 0,
            orig[0] == START && orig[n - 2] == CR && orig[n - 1] == LF,
            old(bytes)@ == orig,
            n == bytes@.len(),
            bytes@ == orig,
            forall|k: int| 1 <= k < j ==> is_hex(#[trigger] orig[k]),
        decreases n - 2 - j,
    {
        if hex_to_nibble(bytes[j]).is_none() {
            assert(!is_hex(orig[j as int]));
            assert(!(forall|k: int| 1 <= k < orig.len() - 2 ==> is_hex(#[trigger] orig[k])));
            return (Err(Error::InvalidEncoding), bytes);
        }
        j += 1;
    }
    let end = (n - 3) / 2;
    let ghost body = ascii_body(orig);
    let mut i: usize = 0;
    while i < end
        invariant
            i <= end,
            end == (n - 3) / 2,
            n == orig.len(),
            n >= 9,
            (n - 3) % 2 == 0,
            orig[0] == START && orig[n - 2] == CR && orig[n - 1] == LF,
            old(bytes)@ == orig,
            bytes@.len() == n,
            body == ascii_body(orig),
            forall|k: int| 1 <= k < n - 2 ==> is_hex(#[trigger] orig[k]),
            forall|k: int| 0 <= k < i ==> bytes@[k] == #[trigger] unhex(body)[k],
            forall|k: int| i <= k < n ==> bytes@[k] == #[trigger] orig[k],
        decreases end - i,
    {
        let hi = match hex_to_nibble(bytes[1 + 2 * i]) {
            Some(v) => v,
            None => 0,
        };
        let lo = match hex_to_nibble(bytes[2 + 2 * i]) {
            Some(v) => v,
            None => 0,
        };
        proof {
            assert(orig[1 + 2 * i] == body[2 * i]);
            assert(orig[2 + 2 * i] == body[2 * i + 1]);
        }
        bytes[i] = hi * 16 + lo;
        i += 1;
    }
    assert(bytes@.subrange(0, end as int) =~= unhex(body));
    let lrc = calculate(&bytes[0..end - 1]);
    assert(bytes@.subrange(0, end - 1) =~= ascii_message(orig));
    if lrc != bytes[end - 1] {
        return (Err(Error::InvalidChecksum), bytes);
    }
    let ghost before = bytes@;
    let (message, rest) = bytes.split_at_mut(end - 1);
    assert(rest@ =~= seq![lrc_of(message@)] + orig.subrange(end as int, n as int));
    (Ok(message), rest)
}

/// Writes into `out` the ASCII frame of a binary frame's address, function
/// and payload (its checksum is replaced by the LRC).
pub fn encode<'o>(frame: &crate::frame::Frame, out: &'o mut [u8]) -> (r: Frame<'o>)
    requires
        old(out)@.len() >= 2 * frame@.len() + 1,
    ensures
        r@ == ascii_encoding(checked_part(frame@)),
{
    let raw = frame.raw_bytes();
    let n = frame.len();
    let m = &raw[0..n - 2];
    let ghost msg = checked_part(frame@);
    assert(m@ =~= msg);
    let mut text = ASCII::new(out);
    text.init();
    text.write_bytes(m);
    proof {
        lemma_unhex_hex_of(msg);
        lemma_hex_of_len(msg);
        assert forall|j: int| 1 <= j < text.written().len() implies is_hex(
            #[trigger] text.written()[j],
        ) by {
            assert(text.written()[j] == hex_of(msg)[j - 1]);
        }
    }
    let r = text.finalise();
    assert(r@ =~= ascii_encoding(msg));
    r
}

/// The ASCII text of a binary frame, one character at a time.
pub struct AsBytesIter<'b> {
    frame: crate::frame::Frame<'b>,
    lrc: u8,
    idx: usize,
}

impl<'b> AsBytesIter<'b> {
    /// The characters still to come.
    pub closed spec fn remaining(&self) -> Seq<u8> {
        let text = ascii_encoding(checked_part(self.frame@));
        text.subrange(self.idx as int, text.len() as int)
    }

    #[verifier::type_invariant]
    closed spec fn consistent(self) -> bool {
        &&& self.lrc == lrc_of(checked_part(self.frame@))
        &&& self.idx <= 2 * self.frame@.len() + 1
        &&& self.frame@.len() >= 4
        &&& 2 * self.frame@.len() + 5 <= usize::MAX
    }

    /// Starts at the delimiter of `frame`'s ASCII text.
    pub fn new(frame: crate::frame::Frame<'b>) -> (r: AsBytesIter<'b>)
        requires
            2 * frame@.len() + 5 <= usize::MAX,
        ensures
            r.remaining() == ascii_encoding(checked_part(frame@)),
    {
        let raw = frame.raw_bytes();
        let n = frame.len();
        let lrc = calculate(&raw[0..n - 2]);
        proof {
            assert(raw@.subrange(0, raw@.len() - 2) =~= checked_part(frame@));
            lemma_hex_of_len(checked_part(frame@));
        }
        let r = AsBytesIter { frame, lrc, idx: 0 };
        assert(r.remaining() =~= ascii_encoding(checked_part(frame@)));
        r
    }

    /// The next character, if any is left.
    pub fn next(&mut self) -> (r: Option<u8>)
        ensures
            old(self).remaining().len() == 0 ==> r is None && final(self).remaining() == old(
                self,
            ).remaining(),
            old(self).remaining().len() > 0 ==> r == Some(old(self).remaining()[0])
                && final(self).remaining() == old(self).remaining().drop_first(),
    {
        proof {
            use_type_invariant(&*self);
        }
        let ghost msg = checked_part(self.frame@);
        let ghost text = ascii_encoding(msg);
        proof {
            lemma_hex_of_len(msg);
        }
        let raw = self.frame.raw_bytes();
        let m = raw.len() - 2;
        let p = self.idx;
        let c: u8;
        if p == 0 {
            c = START;
        } else if p < 2 * m + 1 {
            let b = raw[(p - 1) / 2];
            proof {
                lemma_hex_of_index(msg, (p - 1) / 2);
                assert(text[p as int] == hex_of(msg)[p - 1]);
            }
            if (p - 1) % 2 == 0 {
                c = hex_nibble(b / 16);
            } else {
                c = hex_nibble(b % 16);
            }
        } else if p == 2 * m + 1 {
            c = hex_nibble(self.lrc / 16);
        } else if p == 2 * m + 2 {
            c = hex_nibble(self.lrc % 16);
        } else if p == 2 * m + 3 {
            c = CR;
        } else if p == 2 * m + 4 {
            c = LF;
        } else {
            assert(self.remaining().len() == 0);
            return None;
        }
        self.idx = p + 1;
        assert(self.remaining() =~= old(self).remaining().drop_first());
        Some(c)
    }

    /// Collects the remaining characters.
    pub fn collect(self) -> (r: Vec<u8>)
        ensures
            r@ == self.remaining(),
    {
        let mut it = self;
        let mut r: Vec<u8> = Vec::new();
        loop
            invariant
                r@ + it.remaining() == self.remaining(),
            decreases it.remaining().len(),
        {
            match it.next() {
                Some(v) => {
                    r.push(v);
                },
                None => {
                    assert(r@ + it.remaining() =~= r@);
                    return r;
                },
            }
        }
    }
}

/// Decoding the ASCII frame of a message of at least two bytes succeeds and
/// gives the message back byte for byte.
pub proof fn lemma_ascii_round_trip(message: Seq<u8>)
    requires
        message.len() >= 2,
    ensures
        ascii_status(ascii_encoding(message)) is Ok,
        ascii_message(ascii_encoding(message)) == message,
{
    let lrc = lrc_of(message);
    let full = message.push(lrc);
    let text = ascii_encoding(message);
    assert(full.drop_last() =~= message);
    assert(hex_of(full) == hex_of(message) + hex_pair(lrc));
    lemma_hex_of_len(full);
    lemma_unhex_hex_of(full);
    assert(ascii_body(text) =~= hex_of(full));
    assert forall|j: int| 1 <= j < text.len() - 2 implies is_hex(#[trigger] text[j]) by {
        assert(text[j] == hex_of(full)[j - 1]);
    }
    assert(unhex(ascii_body(text)) == full);
}

} // verus!
