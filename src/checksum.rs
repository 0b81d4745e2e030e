//! The "sum to zero" checksum that closes every record.
use vstd::prelude::*;

verus! {

/// Sum of the bytes of `s`, as a natural number.
pub open spec fn byte_sum(s: Seq<u8>) -> nat
    decreases s.len(),
{
    if s.len() == 0 {
        0
    } else {
        byte_sum(s.drop_last()) + s.last() as nat
    }
}

/// The byte that, added to the bytes of `s`, brings their sum to zero modulo 256.
pub open spec fn checksum_of(s: Seq<u8>) -> u8 {
    ((256 - byte_sum(s) % 256) % 256) as u8
}

/// Two's-complement checksum of `bytes`.
pub fn checksum(bytes: &[u8]) -> (r: u8)
    ensures
        r == checksum_of(bytes@),
{
    let mut acc: u8 = 0;
    let mut i: usize = 0;
    while i < bytes.len()
        invariant
            i <= bytes@.len(),
            acc == byte_sum(bytes@.subrange(0, i as int)) % 256,
        decreases bytes@.len() - i,
    {
        proof {
            assert(bytes@.subrange(0, i + 1).drop_last() == bytes@.subrange(0, i as int));
        }
        acc = acc.wrapping_add(bytes[i]);
        i = i + 1;
    }
    proof {
        assert(bytes@.subrange(0, bytes@.len() as int) == bytes@);
    }
    0u8.wrapping_sub(acc)
}

/// Appending the checksum of `b` to `b` gives a sequence whose bytes sum to
/// zero modulo 256.
pub proof fn lemma_checksum_closes(b: Seq<u8>)
    ensures
        byte_sum(b.push(checksum_of(b))) % 256 == 0,
{
    assert(b.push(checksum_of(b)).drop_last() == b);
}

} // verus!
