//! The CRC16 that guards binary (RTU) frames.
use vstd::prelude::*;

verus! {

/// The MODBUS CRC16 (reflected polynomial 0x8005, initial value 0xFFFF) of `bytes`.
pub uninterp spec fn crc16_of(bytes: Seq<u8>) -> u16;

/// The two bytes of `v`, least significant first.
pub open spec fn le_bytes(v: u16) -> Seq<u8> {
    seq![(v % 256) as u8, (v / 256) as u8]
}

/// The bytes that precede the two checksum bytes of a frame.
pub open spec fn checked_part(bytes: Seq<u8>) -> Seq<u8> {
    bytes.subrange(0, bytes.len() - 2)
}

/// The two checksum bytes at the end of a frame.
pub open spec fn checksum_part(bytes: Seq<u8>) -> Seq<u8> {
    bytes.subrange(bytes.len() - 2, bytes.len() as int)
}

/// The last two bytes are the little-endian CRC16 of the bytes before them.
pub open spec fn crc_matches(bytes: Seq<u8>) -> bool {
    checksum_part(bytes) == le_bytes(crc16_of(checked_part(bytes)))
}

/// `bytes` followed by their CRC16, as it is sent on the wire.
pub open spec fn with_crc(bytes: Seq<u8>) -> Seq<u8> {
    bytes + le_bytes(crc16_of(bytes))
}

/// Relies on crc16's `State::<MODBUS>::calculate`: the CRC depends on the bytes alone.
#[verifier::external_body]
fn crc16_modbus(bytes: &[u8]) -> (r: u16)
    ensures
        r == crc16_of(bytes@),
{
    crc16::State::<crc16::MODBUS>::calculate(bytes)
}

/// The CRC16 of `bytes`.
pub fn calculate_crc16(bytes: &[u8]) -> (r: u16)
    ensures
        r == crc16_of(bytes@),
{
    crc16_modbus(bytes)
}

/// The little-endian bytes of `v`.
pub fn u16_to_le(v: u16) -> (r: [u8; 2])
    ensures
        r@ == le_bytes(v),
{
    let r = [(v % 256) as u8, (v / 256) as u8];
    assert(r@ =~= le_bytes(v));
    r
}

/// True when `bytes` holds at least four bytes and its last two are the
/// CRC16 of the bytes before them.
pub fn verify_crc16(bytes: &[u8]) -> (r: bool)
    ensures
        r == (bytes@.len() >= 4 && crc_matches(bytes@)),
{
    if bytes.len() < 4 {
        false
    } else {
        let n = bytes.len() - 2;
        let crc = calculate_crc16(&bytes[0..n]);
        let lo = (crc % 256) as u8;
        let hi = (crc / 256) as u8;
        let ok = bytes[n] == lo && bytes[n + 1] == hi;
        assert(checked_part(bytes@) =~= bytes@.subrange(0, n as int));
        if ok {
            assert(checksum_part(bytes@) =~= le_bytes(crc));
        } else {
            assert(checksum_part(bytes@)[0] == bytes@[n as int]);
            assert(checksum_part(bytes@)[1] == bytes@[n + 1]);
        }
        ok
    }
}

/// Appending the CRC16 to any bytes gives bytes whose checksum matches.
pub proof fn lemma_with_crc(bytes: Seq<u8>)
    ensures
        with_crc(bytes).len() == bytes.len() + 2,
        checked_part(with_crc(bytes)) == bytes,
        checksum_part(with_crc(bytes)) == le_bytes(crc16_of(bytes)),
        crc_matches(with_crc(bytes)),
{
    assert(checked_part(with_crc(bytes)) =~= bytes);
    assert(checksum_part(with_crc(bytes)) =~= le_bytes(crc16_of(bytes)));
}

/// Any bytes with their CRC16 appended pass the frame check once they hold
/// address and function, and flipping any single bit of the appended CRC16
/// makes the check fail.
pub proof fn lemma_crc_round_trip(bytes: Seq<u8>)
    requires
        bytes.len() >= 2,
    ensures
        with_crc(bytes).len() >= 4,
        crc_matches(with_crc(bytes)),
        forall|p: int, k: u8|
            bytes.len() <= p < bytes.len() + 2 && k < 8 ==> !crc_matches(
                #[trigger] flip_bit(with_crc(bytes), p, k),
            ),
{
    lemma_with_crc(bytes);
    assert forall|p: int, k: u8| bytes.len() <= p < bytes.len() + 2 && k < 8 implies !crc_matches(
        #[trigger] flip_bit(with_crc(bytes), p, k),
    ) by {
        let w = with_crc(bytes);
        let f = flip_bit(w, p, k);
        lemma_flip_changes(w[p], k);
        assert(checked_part(f) =~= checked_part(w));
        assert(checksum_part(f)[p - bytes.len()] != checksum_part(w)[p - bytes.len()]);
    }
}

/// `bytes` with bit `k` of byte `p` inverted.
pub open spec fn flip_bit(bytes: Seq<u8>, p: int, k: u8) -> Seq<u8> {
    bytes.update(p, bytes[p] ^ (1u8 << k))
}

pub proof fn lemma_flip_changes(b: u8, k: u8)
    requires
        k < 8,
    ensures
        b ^ (1u8 << k) != b,
{
    assert(b ^ (1u8 << k) != b) by (bit_vector)
        requires
            k < 8,
    ;
}

} // verus!
