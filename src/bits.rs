//! Facts about single bits of a storage chunk.

use vstd::prelude::*;

verus! {

/// Whether bit `k` (counted from the least significant end) of `c` is set.
pub open spec fn chunk_bit(c: u8, k: u8) -> bool {
    c & (1u8 << k) != 0u8
}

/// No bit of a zero chunk is set.
pub proof fn lemma_zero_chunk(k: u8)
    requires
        k < 8,
    ensures
        !chunk_bit(0u8, k),
{
    assert(0u8 & (1u8 << k) == 0u8) by (bit_vector);
}

/// Setting bit `k` with a mask sets that bit and keeps every other one.
pub proof fn lemma_set_bit(c: u8, k: u8, j: u8)
    requires
        k < 8,
        j < 8,
    ensures
        chunk_bit(c | (1u8 << k), j) == (j == k || chunk_bit(c, j)),
{
    assert((c | (1u8 << k)) & (1u8 << j) != 0u8 <==> (j == k || c & (1u8 << j) != 0u8))
        by (bit_vector)
        requires
            k < 8,
            j < 8,
    ;
}

/// Clearing bit `k` with an inverted mask clears that bit and keeps every other one.
pub proof fn lemma_clear_bit(c: u8, k: u8, j: u8)
    requires
        k < 8,
        j < 8,
    ensures
        chunk_bit(c & !(1u8 << k), j) == (j != k && chunk_bit(c, j)),
{
    assert((c & !(1u8 << k)) & (1u8 << j) != 0u8 <==> (j != k && c & (1u8 << j) != 0u8))
        by (bit_vector)
        requires
            k < 8,
            j < 8,
    ;
}

} // verus!
