//! A checksum that the benchmarking harness stamps on request and response
//! payloads: the exclusive-or of all payload bytes, widened to 64 bits.

use vstd::prelude::*;

verus! {

/// The exclusive-or of all bytes of `data`, widened to 64 bits.
pub open spec fn spec_xor_checksum(data: Seq<u8>) -> u64
    decreases data.len(),
{
    if data.len() == 0 {
        0
    } else {
        spec_xor_checksum(data.drop_last()) ^ (data.last() as u64)
    }
}

/// Folding in one more byte combines it by exclusive-or.
proof fn lemma_xor_checksum_step(data: Seq<u8>, i: int)
    requires
        0 <= i < data.len(),
    ensures
        spec_xor_checksum(data.take(i + 1)) == spec_xor_checksum(data.take(i)) ^ (data[i] as u64),
{
    let pre = data.take(i + 1);
    assert(pre.drop_last() =~= data.take(i));
    assert(pre.last() == data[i]);
}

/// The exclusive-or of all bytes of `data`, widened to 64 bits.
pub fn xor_checksum(data: &[u8]) -> (r: u64)
    ensures
        r == spec_xor_checksum(data@),
{
    let n = data.len();
    let mut acc: u64 = 0;
    let mut i: usize = 0;
    while i < n
        invariant
            0 <= i <= n,
            n == data@.len(),
            acc == spec_xor_checksum(data@.take(i as int)),
        decreases n - i,
    {
        let b = *vstd::slice::slice_index_get(data, i);
        proof {
            lemma_xor_checksum_step(data@, i as int);
        }
        acc = acc ^ (b as u64);
        i = i + 1;
    }
    proof {
        assert(data@.take(n as int) =~= data@);
    }
    acc
}

} // verus!
