use byteorder::{BigEndian, ByteOrder};
use vstd::prelude::*;

verus! {

/// The number that two bytes spell in network order.
pub open spec fn be16(high: u8, low: u8) -> int {
    high * 0x100 + low
}

/// The two bytes that spell `n` in network order.
pub open spec fn be16_bytes(n: u16) -> Seq<u8> {
    seq![(n / 0x100) as u8, (n % 0x100) as u8]
}

/// The number that the two bytes from `off` on spell in network order.
pub(crate) fn peek_u16(buf: &[u8], off: usize) -> (n: u16)
    requires
        off + 2 <= buf@.len(),
        off < usize::MAX,
    ensures
        n == be16(buf@[off as int], buf@[off + 1]),
{
    (buf[off] as u16) * 0x100 + buf[off + 1] as u16
}

/// Calls `byteorder::BigEndian::read_u16` on the bytes from `off` on, which reads the first two of
/// them, the high byte first, and panics when there are fewer.
#[verifier::external_body]
pub(crate) fn read_u16(buf: &[u8], off: usize) -> (n: u16)
    requires
        off + 2 <= buf@.len(),
    ensures
        n == be16(buf@[off as int], buf@[off + 1]),
{
    BigEndian::read_u16(&buf[off..])
}

/// Calls `byteorder::BigEndian::write_u16` on the bytes from `off` on, which overwrites the first
/// two of them, the high byte first, and panics when there are fewer.
#[verifier::external_body]
pub(crate) fn write_u16(buf: &mut Vec<u8>, off: usize, n: u16)
    requires
        off + 2 <= old(buf)@.len(),
    ensures
        final(buf)@ == old(buf)@.update(off as int, be16_bytes(n)[0]).update(
            off + 1,
            be16_bytes(n)[1],
        ),
{
    BigEndian::write_u16(&mut buf[off..], n)
}

/// Reading the two bytes of a number gives the number back.
pub proof fn lemma_be16_round_trip(n: u16)
    ensures
        be16(be16_bytes(n)[0], be16_bytes(n)[1]) == n,
{
}

/// Copies `src` over the bytes of `dst` from `off` on.
pub(crate) fn copy_at(dst: &mut Vec<u8>, off: usize, src: &[u8])
    requires
        off + src@.len() <= old(dst)@.len(),
    ensures
        final(dst)@ == old(dst)@.take(off as int) + src@ + old(dst)@.skip(off + src@.len()),
{
    let n: usize = src.len();
    let total: usize = dst.len();
    let ghost before = dst@;
    let mut i: usize = 0;
    while i < n
        invariant
            i <= n,
            n == src@.len(),
            off + n <= before.len(),
            before.len() == total,
            dst@.len() == before.len(),
            forall|k: int| 0 <= k < i ==> dst@[off + k] == src@[k],
            forall|k: int|
                0 <= k < before.len() && !(off <= k < off + i) ==> dst@[k] == before[k],
        decreases n - i,
    {
        dst.set(off + i, src[i]);
        i = i + 1;
    }
    assert(dst@ =~= before.take(off as int) + src@ + before.skip(off + src@.len())) by {
        assert forall|k: int| off <= k < off + n implies dst@[k] == src@[k - off] by {
            assert(dst@[off + (k - off)] == src@[k - off]);
        }
    }
}

/// A copy of the bytes `from..to`.
pub(crate) fn copy_range(src: &[u8], from: usize, to: usize) -> (out: Vec<u8>)
    requires
        from <= to <= src@.len(),
    ensures
        out@ == src@.subrange(from as int, to as int),
{
    let mut out: Vec<u8> = Vec::new();
    let mut i: usize = from;
    while i < to
        invariant
            from <= i <= to <= src@.len(),
            out@ == src@.subrange(from as int, i as int),
        decreases to - i,
    {
        out.push(src[i]);
        i = i + 1;
    }
    out
}

} // verus!
