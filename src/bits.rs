//! Packing of boolean sequences (coil and input states) into bytes: the
//! first boolean is bit 0 of the first byte, unused high bits are zero.
use vstd::prelude::*;

verus! {

/// Bit `k` (0 is the least significant) of `b`.
pub open spec fn bit_at(b: u8, k: u8) -> bool {
    (b >> k) & 1u8 == 1u8
}

/// Bit `i` of a packed byte sequence: bit `i % 8` of byte `i / 8`.
pub open spec fn bit_of(bytes: Seq<u8>, i: int) -> bool {
    bit_at(bytes[i / 8], (i % 8) as u8)
}

/// The number of bytes that hold `n` packed bits.
pub open spec fn packed_len(n: nat) -> nat {
    (n + 7) / 8
}

/// `bytes` is the packing of `bits`: one bit per boolean, in order, and
/// every bit past the last boolean is zero.
pub open spec fn packs(bytes: Seq<u8>, bits: Seq<bool>) -> bool {
    &&& bytes.len() == packed_len(bits.len())
    &&& forall|i: int|
        0 <= i < 8 * bytes.len() ==> #[trigger] bit_of(bytes, i) == (i < bits.len() && bits[i])
}

/// The first `n` bits of `bytes`, lowest bit of each byte first.
pub open spec fn unpacked(bytes: Seq<u8>, n: nat) -> Seq<bool> {
    Seq::new(n, |i: int| bit_of(bytes, i))
}

pub proof fn lemma_set_bit(b: u8, k: u8, j: u8)
    requires
        k < 8,
        j < 8,
    ensures
        bit_at(b | (1u8 << k), j) == (j == k || bit_at(b, j)),
{
    assert(((b | (1u8 << k)) >> j) & 1u8 == 1u8 <==> (j == k || (b >> j) & 1u8 == 1u8))
        by (bit_vector)
        requires
            k < 8,
            j < 8,
    ;
}

pub proof fn lemma_zero_bits(j: u8)
    ensures
        !bit_at(0u8, j),
{
    assert((0u8 >> j) & 1u8 != 1u8) by (bit_vector);
}

/// Unpacking the packing of a boolean sequence gives the sequence back, and
/// the packing takes `ceil(n / 8)` bytes whose bits past the sequence are zero.
pub proof fn lemma_unpack_pack(bytes: Seq<u8>, bits: Seq<bool>)
    requires
        packs(bytes, bits),
    ensures
        unpacked(bytes, bits.len()) == bits,
        bytes.len() == (bits.len() + 7) / 8,
        forall|i: int| bits.len() <= i < 8 * bytes.len() ==> !#[trigger] bit_of(bytes, i),
{
    assert forall|i: int| 0 <= i < bits.len() implies unpacked(bytes, bits.len())[i] == bits[i] by {
        assert(bit_of(bytes, i) == (i < bits.len() && bits[i]));
    }
    assert(unpacked(bytes, bits.len()) =~= bits);
}

/// Bit `k` of `b`.
pub fn bit_in(b: u8, k: u8) -> (r: bool)
    requires
        k < 8,
    ensures
        r == bit_at(b, k),
{
    (b >> k) & 1 == 1
}

/// Reads the first `n` packed bits of `bytes`.
pub fn unpack(bytes: &[u8], n: usize) -> (r: Vec<bool>)
    requires
        n <= 8 * bytes@.len(),
    ensures
        r@ == unpacked(bytes@, n as nat),
{
    let mut r: Vec<bool> = Vec::new();
    let mut i: usize = 0;
    while i < n
        invariant
            i <= n,
            n <= 8 * bytes@.len(),
            r@ == unpacked(bytes@, i as nat),
        decreases n - i,
    {
        let bit = bit_in(bytes[i / 8], (i % 8) as u8);
        r.push(bit);
        i += 1;
        assert(r@ =~= unpacked(bytes@, i as nat));
    }
    r
}

} // verus!
