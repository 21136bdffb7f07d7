//! The longitudinal redundancy check that guards ASCII frames.
use vstd::arithmetic::div_mod::{lemma_add_mod_noop, lemma_add_mod_noop_right};
use vstd::prelude::*;

use crate::checksum::{flip_bit, lemma_flip_changes};

verus! {

/// The sum of `bytes`, modulo 256.
pub open spec fn byte_sum(bytes: Seq<u8>) -> nat
    decreases bytes.len(),
{
    if bytes.len() == 0 {
        0
    } else {
        (byte_sum(bytes.drop_last()) + bytes.last() as nat) % 256
    }
}

/// The two's complement of the modulo-256 sum of `bytes`.
pub open spec fn lrc_of(bytes: Seq<u8>) -> u8 {
    ((256 - byte_sum(bytes)) % 256) as u8
}

/// The LRC of `bytes`: what, added to their sum, gives 0 modulo 256.
pub fn calculate(bytes: &[u8]) -> (r: u8)
    ensures
        r == lrc_of(bytes@),
{
    let mut sum: u8 = 0;
    let mut i: usize = 0;
    while i < bytes.len()
        invariant
            i <= bytes@.len(),
            sum as nat == byte_sum(bytes@.subrange(0, i as int)),
        decreases bytes@.len() - i,
    {
        proof {
            let next = bytes@.subrange(0, i + 1);
            assert(next.drop_last() =~= bytes@.subrange(0, i as int));
        }
        sum = ((sum as u16 + bytes[i] as u16) % 256) as u8;
        i += 1;
    }
    assert(bytes@.subrange(0, i as int) =~= bytes@);
    ((256 - sum as u16) % 256) as u8
}

/// Whether the last byte of `bytes` is the LRC of the bytes before it.
pub open spec fn lrc_matches(bytes: Seq<u8>) -> bool {
    lrc_of(bytes.drop_last()) == bytes.last()
}

/// `bytes` followed by their LRC.
pub open spec fn with_lrc(bytes: Seq<u8>) -> Seq<u8> {
    bytes.push(lrc_of(bytes))
}

pub proof fn lemma_byte_sum_bound(bytes: Seq<u8>)
    ensures
        byte_sum(bytes) < 256,
{
}

/// The sum of two byte sequences joined is the sum of their sums, modulo 256.
pub proof fn lemma_byte_sum_concat(a: Seq<u8>, b: Seq<u8>)
    ensures
        byte_sum(a + b) == (byte_sum(a) + byte_sum(b)) % 256,
    decreases b.len(),
{
    if b.len() == 0 {
        assert(a + b =~= a);
    } else {
        assert((a + b).drop_last() =~= a + b.drop_last());
        lemma_byte_sum_concat(a, b.drop_last());
        lemma_mod_shift(byte_sum(a) + byte_sum(b.drop_last()) as int, b.last() as int);
        lemma_add_mod_noop_right(byte_sum(a) as int, byte_sum(b.drop_last()) + b.last() as int, 256);
    }
}

proof fn lemma_mod_shift(x: int, y: int)
    ensures
        ((x % 256) + y) % 256 == (x + y) % 256,
{
    lemma_add_mod_noop(x, y, 256);
    lemma_add_mod_noop_right(x % 256, y, 256);
}

/// The last byte matches exactly when the whole sum is zero modulo 256.
pub proof fn lemma_lrc_matches_sum(bytes: Seq<u8>)
    requires
        bytes.len() > 0,
    ensures
        lrc_matches(bytes) <==> byte_sum(bytes) == 0,
{
    lemma_byte_sum_bound(bytes.drop_last());
}

/// Replacing byte `p` by `v` changes the sum by `v - bytes[p]`, modulo 256.
pub proof fn lemma_byte_sum_update(bytes: Seq<u8>, p: int, v: u8)
    requires
        0 <= p < bytes.len(),
    ensures
        byte_sum(bytes.update(p, v)) == (byte_sum(bytes) as int - bytes[p] as int + v as int) % 256,
    decreases bytes.len(),
{
    let t = bytes.update(p, v);
    let d = bytes.drop_last();
    if p == bytes.len() - 1 {
        assert(t.drop_last() =~= d);
        lemma_mod_shift(byte_sum(d) + bytes[p] as int, v as int - bytes[p] as int);
    } else {
        assert(t.drop_last() =~= d.update(p, v));
        lemma_byte_sum_update(d, p, v);
        let last = bytes.last() as int;
        lemma_mod_shift(byte_sum(d) as int - bytes[p] as int + v as int, last);
        lemma_mod_shift(byte_sum(d) as int + last, v as int - bytes[p] as int);
    }
}

/// A message with its LRC appended passes the check, and changing any single
/// bit of message or LRC makes it fail.
pub proof fn lemma_lrc_round_trip(message: Seq<u8>)
    ensures
        lrc_matches(with_lrc(message)),
        forall|p: int, k: u8|
            0 <= p <= message.len() && k < 8 ==> !lrc_matches(
                #[trigger] flip_bit(with_lrc(message), p, k),
            ),
{
    let full = with_lrc(message);
    assert(full.drop_last() =~= message);
    lemma_lrc_matches_sum(full);
    assert forall|p: int, k: u8| 0 <= p <= message.len() && k < 8 implies !lrc_matches(
        #[trigger] flip_bit(full, p, k),
    ) by {
        let x = full[p];
        let y = (x ^ (1u8 << k)) as u8;
        lemma_flip_changes(x, k);
        lemma_byte_sum_update(full, p, y);
        lemma_lrc_matches_sum(flip_bit(full, p, k));
    }
}

} // verus!
