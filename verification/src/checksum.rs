//! The MDB arithmetic checksum: the sum of a block's bytes, modulo 256.

use vstd::prelude::*;

verus! {

/// The checksum of a byte sequence: the sum of its bytes, modulo 256.
pub open spec fn checksum_spec(b: Seq<u8>) -> u8
    decreases b.len(),
{
    if b.len() == 0 {
        0u8
    } else {
        ((checksum_spec(b.drop_last()) as int + b.last() as int) % 256) as u8
    }
}

/// Computes the arithmetic checksum of a block.
pub fn checksum(b: &[u8]) -> (r: u8)
    ensures
        r == checksum_spec(b@),
{
    let mut sum: u8 = 0;
    let mut i: usize = 0;
    while i < b.len()
        invariant
            i <= b@.len(),
            sum == checksum_spec(b@.take(i as int)),
        decreases b@.len() - i,
    {
        proof {
            assert(b@.take(i + 1).drop_last() =~= b@.take(i as int));
            assert(b@.take(i + 1).last() == b@[i as int]);
        }
        sum = sum.wrapping_add(b[i]);
        i = i + 1;
    }
    proof {
        assert(b@.take(b@.len() as int) =~= b@);
    }
    sum
}

/// Appending nothing to a block leaves its checksum unchanged.
pub proof fn lemma_checksum_append_empty(a: Seq<u8>)
    ensures
        checksum_spec(a + Seq::<u8>::empty()) == checksum_spec(a),
{
    assert(a + Seq::<u8>::empty() =~= a);
}

/// The checksum of a concatenation is the sum of the two checksums, modulo
/// 256.
pub proof fn lemma_checksum_concat(a: Seq<u8>, b: Seq<u8>)
    ensures
        checksum_spec(a + b) == ((checksum_spec(a) as int + checksum_spec(b) as int) % 256) as u8,
    decreases b.len(),
{
    if b.len() == 0 {
        assert(a + b =~= a);
    } else {
        lemma_checksum_concat(a, b.drop_last());
        assert((a + b).drop_last() =~= a + b.drop_last());
        assert((a + b).last() == b.last());
    }
}

} // verus!
