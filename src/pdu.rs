//! What every protocol data unit view shares: length rules, field reads and
//! the outcome of decoding.
use vstd::prelude::*;

use crate::bits::{packed_len, packs};
use crate::builder::build_frame;
use crate::checksum::{crc_matches, lemma_with_crc, with_crc};
use crate::frame::Frame;
use crate::function::Function;
use crate::registers::{be_bytes, be_u16, lemma_regs_bytes_len, read_be_u16, regs_bytes};
use crate::Error;

verus! {

/// A unit bound to one function code.
pub trait FunctionCode {
    /// The function code, in specifications.
    spec fn code() -> u8;

    /// The function code of every frame of this kind.
    fn function_code() -> (r: Function)
        ensures
            r.0 == Self::code(),
    ;
}

/// A unit whose frame length follows from its own fields.
pub trait PacketLen: View<V = Seq<u8>> {
    /// The shortest frame of this kind, in specifications.
    spec fn min_len() -> nat;

    /// The shortest frame of this kind.
    fn minimum_len() -> (r: u8)
        ensures
            r == Self::min_len(),
    ;

    /// The frame length that the fields give: fixed, or the header plus
    /// the byte count; always the actual length.
    fn packet_len(&self) -> (r: u16)
        ensures
            r == self@.len(),
            r >= Self::min_len(),
    ;
}

/// A frame of exactly eight bytes: address, function, two 16-bit fields, checksum.
pub open spec fn fixed_ok(bytes: Seq<u8>) -> bool {
    bytes.len() == 8
}

/// A frame whose byte-count field at `at` agrees with the bytes that follow
/// it up to the checksum.
pub open spec fn counted_ok(bytes: Seq<u8>, at: int) -> bool {
    &&& bytes.len() >= at + 3
    &&& bytes.len() == at + 3 + bytes[at] as int
}

/// The bytes after the byte-count field at `at`, up to the checksum.
pub open spec fn counted_data(bytes: Seq<u8>, at: int) -> Seq<u8> {
    bytes.subrange(at + 1, bytes.len() - 2)
}

/// The big-endian 16-bit field at byte `at` of a frame.
pub open spec fn field(bytes: Seq<u8>, at: int) -> u16 {
    be_u16(bytes[at], bytes[at + 1])
}

/// The outcome of viewing a checked frame as a unit with function `code`,
/// when `len_ok` tells whether its length fits the unit's rule.
pub open spec fn pdu_status(bytes: Seq<u8>, code: u8, len_ok: bool) -> Result<(), Error> {
    if bytes[1] != code {
        Err(Error::UnexpectedFunction)
    } else if !len_ok {
        Err(Error::DecodeInvalidLength)
    } else {
        Ok(())
    }
}

/// The outcome of checking raw bytes as a frame, then as a unit with function `code`.
pub open spec fn bytes_status(bytes: Seq<u8>, code: u8, len_ok: bool) -> Result<(), Error> {
    if bytes.len() < 4 {
        Err(Error::InvalidLength)
    } else if !crc_matches(bytes) {
        Err(Error::InvalidChecksum)
    } else {
        pdu_status(bytes, code, len_ok)
    }
}

/// `r` is what decoding returns for `status`: the view of `bytes` on
/// success, the same error otherwise.
pub open spec fn decoded_as<T: View<V = Seq<u8>>>(
    r: Result<T, Error>,
    status: Result<(), Error>,
    bytes: Seq<u8>,
) -> bool {
    match r {
        Ok(p) => status is Ok && p@ == bytes,
        Err(e) => status == Err::<(), Error>(e),
    }
}

/// Whether the frame is exactly eight bytes long.
pub fn fixed_len_valid(frame: &Frame) -> (r: bool)
    ensures
        r == fixed_ok(frame@),
{
    frame.len() == 8
}

/// Whether the byte-count field at `at` agrees with the frame's length.
pub fn counted_len_valid(frame: &Frame, at: usize) -> (r: bool)
    requires
        at <= 8,
    ensures
        r == counted_ok(frame@, at as int),
{
    let bytes = frame.raw_bytes();
    let n = bytes.len();
    if n < at + 3 {
        false
    } else {
        n == at + 3 + bytes[at] as usize
    }
}

/// The big-endian 16-bit field at byte `at` of `bytes`.
pub fn field_at(bytes: &[u8], at: usize) -> (r: u16)
    requires
        at + 1 < bytes@.len(),
    ensures
        r == field(bytes@, at as int),
{
    read_be_u16(bytes[at], bytes[at + 1])
}

/// Builds `address | code | a | b | crc16`, the frame of every fixed-length unit.
pub fn build_two_fields<'a>(frame_buffer: &'a mut [u8], address: u8, code: u8, a: u16, b: u16) -> (r: (
    Frame<'a>,
    &'a mut [u8],
))
    requires
        old(frame_buffer)@.len() >= 8,
    ensures
        r.0@ == with_crc(seq![address, code] + be_bytes(a) + be_bytes(b)),
        fixed_ok(r.0@),
        r.0@[0] == address,
        r.0@[1] == code,
        field(r.0@, 2) == a,
        field(r.0@, 4) == b,
        r.1@.len() == old(frame_buffer)@.len() - 8,
{
    let w = build_frame(frame_buffer).for_address(address).function(Function(code)).register(
        a,
    ).register(b);
    let ghost written = seq![address, code] + be_bytes(a) + be_bytes(b);
    assert(w.written() =~= written);
    let r = w.finalise();
    proof {
        lemma_with_crc(written);
        assert(r.0@[2] == written[2]);
        assert(r.0@[5] == written[5]);
    }
    r
}

/// Builds `address | code | byte count | registers | crc16`, a read-registers response.
pub fn build_regs_response<'a>(frame_buffer: &'a mut [u8], address: u8, code: u8, regs: &[u16]) -> (r: (
    Frame<'a>,
    &'a mut [u8],
))
    requires
        2 * regs@.len() <= 250,
        old(frame_buffer)@.len() >= 5 + 2 * regs@.len(),
    ensures
        r.0@ == with_crc(seq![address, code, (2 * regs@.len()) as u8] + regs_bytes(regs@)),
        counted_ok(r.0@, 2),
        r.0@[0] == address,
        r.0@[1] == code,
        r.1@.len() == old(frame_buffer)@.len() - 5 - 2 * regs@.len(),
{
    proof {
        lemma_regs_bytes_len(regs@);
    }
    let w = build_frame(frame_buffer).for_address(address).function(Function(code)).byte(
        (2 * regs.len()) as u8,
    ).registers(regs);
    let ghost written = seq![address, code, (2 * regs@.len()) as u8] + regs_bytes(regs@);
    assert(w.written() =~= written);
    let r = w.finalise();
    proof {
        lemma_with_crc(written);
        assert(r.0@[2] == written[2]);
    }
    r
}

/// Builds `address | code | start | count | byte count | registers | crc16`,
/// a write-multiple-registers request.
pub fn build_regs_counted<'a>(
    frame_buffer: &'a mut [u8],
    address: u8,
    code: u8,
    start: u16,
    regs: &[u16],
) -> (r: (Frame<'a>, &'a mut [u8]))
    requires
        2 * regs@.len() <= 246,
        old(frame_buffer)@.len() >= 9 + 2 * regs@.len(),
    ensures
        r.0@ == with_crc(
            seq![address, code] + be_bytes(start) + be_bytes(regs@.len() as u16) + seq![
                (2 * regs@.len()) as u8,
            ] + regs_bytes(regs@),
        ),
        counted_ok(r.0@, 6),
        r.0@[0] == address,
        r.0@[1] == code,
        field(r.0@, 2) == start,
        field(r.0@, 4) == regs@.len(),
        r.1@.len() == old(frame_buffer)@.len() - 9 - 2 * regs@.len(),
{
    proof {
        lemma_regs_bytes_len(regs@);
    }
    let w = build_frame(frame_buffer).for_address(address).function(Function(code)).register(
        start,
    ).count_registers(regs);
    let ghost written = seq![address, code] + be_bytes(start) + be_bytes(regs@.len() as u16)
        + seq![(2 * regs@.len()) as u8] + regs_bytes(regs@);
    assert(w.written() =~= written);
    let r = w.finalise();
    proof {
        lemma_with_crc(written);
        assert(r.0@[2] == written[2]);
        assert(r.0@[5] == written[5]);
        assert(r.0@[6] == written[6]);
    }
    r
}

/// Builds `address | code | byte count | packed bits | crc16`, a read-coils or
/// read-inputs response.
pub fn build_bits_response<'a>(frame_buffer: &'a mut [u8], address: u8, code: u8, bits: &[bool]) -> (r: (
    Frame<'a>,
    &'a mut [u8],
))
    requires
        bits@.len() <= 2000,
        old(frame_buffer)@.len() >= 5 + packed_len(bits@.len() as nat),
    ensures
        r.0@.len() == 5 + packed_len(bits@.len() as nat),
        r.0@.subrange(0, 3) == seq![address, code, packed_len(bits@.len() as nat) as u8],
        packs(r.0@.subrange(3, r.0@.len() - 2), bits@),
        crc_matches(r.0@),
        counted_ok(r.0@, 2),
        r.0@[0] == address,
        r.0@[1] == code,
        r.1@.len() == old(frame_buffer)@.len() - 5 - packed_len(bits@.len() as nat),
{
    let w = build_frame(frame_buffer).for_address(address).function(Function(code)).byte(
        ((bits.len() + 7) / 8) as u8,
    );
    let ghost head = w.written();
    let (w, _count) = w.bits(bits);
    let ghost written = w.written();
    let r = w.finalise();
    proof {
        lemma_with_crc(written);
        assert(head =~= seq![address, code, packed_len(bits@.len() as nat) as u8]);
        assert(r.0@.subrange(0, 3) =~= written.subrange(0, 3));
        assert(r.0@.subrange(3, r.0@.len() - 2) =~= written.subrange(3, written.len() as int));
        assert(r.0@[0] == r.0@.subrange(0, 3)[0]);
        assert(r.0@[1] == r.0@.subrange(0, 3)[1]);
        assert(r.0@[2] == r.0@.subrange(0, 3)[2]);
    }
    r
}

/// Builds `address | code | start | count | byte count | packed bits | crc16`,
/// a write-multiple-coils request.
pub fn build_bits_counted<'a>(
    frame_buffer: &'a mut [u8],
    address: u8,
    code: u8,
    start: u16,
    bits: &[bool],
) -> (r: (Frame<'a>, &'a mut [u8]))
    requires
        bits@.len() <= 1968,
        old(frame_buffer)@.len() >= 9 + packed_len(bits@.len() as nat),
    ensures
        r.0@.len() == 9 + packed_len(bits@.len() as nat),
        r.0@.subrange(0, 7) == seq![address, code] + be_bytes(start) + be_bytes(
            bits@.len() as u16,
        ) + seq![packed_len(bits@.len() as nat) as u8],
        packs(r.0@.subrange(7, r.0@.len() - 2), bits@),
        crc_matches(r.0@),
        counted_ok(r.0@, 6),
        r.0@[0] == address,
        r.0@[1] == code,
        field(r.0@, 2) == start,
        field(r.0@, 4) == bits@.len(),
        r.1@.len() == old(frame_buffer)@.len() - 9 - packed_len(bits@.len() as nat),
{
    let w = build_frame(frame_buffer).for_address(address).function(Function(code)).register(
        start,
    );
    let ghost head = w.written();
    let w = w.count_bits(bits);
    let ghost written = w.written();
    let r = w.finalise();
    proof {
        lemma_with_crc(written);
        let h = seq![address, code] + be_bytes(start) + be_bytes(bits@.len() as u16) + seq![
            packed_len(bits@.len() as nat) as u8,
        ];
        assert(head =~= seq![address, code] + be_bytes(start));
        assert(written.subrange(0, 7) =~= h);
        assert(r.0@.subrange(0, 7) =~= written.subrange(0, 7));
        assert(r.0@.subrange(7, r.0@.len() - 2) =~= written.subrange(7, written.len() as int));
        assert(r.0@[0] == h[0]);
        assert(r.0@[1] == h[1]);
        assert(r.0@[2] == h[2]);
        assert(r.0@[3] == h[3]);
        assert(r.0@[4] == h[4]);
        assert(r.0@[5] == h[5]);
        assert(r.0@[6] == h[6]);
    }
    r
}

} // verus!
