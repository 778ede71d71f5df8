use vstd::prelude::*;

verus! {

/// The low 16 bits of `n`.
pub open spec fn low16(n: u32) -> u16 {
    (n % 0x1_0000) as u16
}

/// Takes the low 16 bits of `n`.
pub(crate) fn to_u16(n: u32) -> (low: u16)
    ensures
        low == low16(n),
{
    assert(n as u16 == n % 0x1_0000) by (bit_vector);
    n as u16
}

/// Whether bit `k` of `bits` is set.
pub open spec fn has_bit(bits: u16, k: u16) -> bool {
    (bits >> k) & 1 == 1
}

/// Setting a bit changes that bit alone.
pub proof fn lemma_set_bit(bits: u16, k: u16, j: u16)
    requires
        k < 16,
        j < 16,
    ensures
        has_bit(bits | (1u16 << k), j) == (j == k || has_bit(bits, j)),
{
    assert(((bits | (1u16 << k)) >> j) & 1 == 1 <==> (j == k || (bits >> j) & 1 == 1))
        by (bit_vector)
        requires
            k < 16,
            j < 16,
    ;
}

/// Zero has no bit set.
pub proof fn lemma_no_bit(k: u16)
    requires
        k < 16,
    ensures
        !has_bit(0, k),
{
    assert((0u16 >> k) & 1 == 0) by (bit_vector);
}

/// `1 << k`, with `k` taken modulo the width of the result.
pub(crate) fn bit_at(k: u16) -> (bit: u16)
    ensures
        bit == 1u16 << (k % 16),
{
    1u16 << (k % 16)
}

} // verus!
