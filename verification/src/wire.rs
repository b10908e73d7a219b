//! Big-endian integer fields, as the RFB wire format uses them.

use vstd::prelude::*;

verus! {

/// The 16-bit value two big-endian bytes carry.
pub open spec fn be16_value(hi: u8, lo: u8) -> u16 {
    (hi * 256 + lo) as u16
}

/// The 32-bit value four big-endian bytes carry.
pub open spec fn be32_value(b0: u8, b1: u8, b2: u8, b3: u8) -> u32 {
    (b0 * 0x1000000 + b1 * 0x10000 + b2 * 0x100 + b3) as u32
}

/// The two big-endian bytes of a 16-bit value.
pub open spec fn be16_bytes(n: u16) -> Seq<u8> {
    seq![(n / 256) as u8, (n % 256) as u8]
}

/// The four big-endian bytes of a 32-bit value.
pub open spec fn be32_bytes(n: u32) -> Seq<u8> {
    seq![
        (n / 0x1000000) as u8,
        ((n / 0x10000) % 256) as u8,
        ((n / 256) % 256) as u8,
        (n % 256) as u8,
    ]
}

/// Writing a 16-bit value big-endian and reading it back is the identity.
pub proof fn lemma_be16_roundtrip(n: u16)
    ensures
        be16_value(be16_bytes(n)[0], be16_bytes(n)[1]) == n,
{
}

/// Writing a 32-bit value big-endian and reading it back is the identity.
pub proof fn lemma_be32_roundtrip(n: u32)
    ensures
        be32_value(be32_bytes(n)[0], be32_bytes(n)[1], be32_bytes(n)[2], be32_bytes(n)[3]) == n,
{
}

/// Append a 16-bit value to `out` as two big-endian bytes.
pub fn push_u16_be(out: &mut Vec<u8>, n: u16)
    ensures
        final(out)@ == old(out)@ + be16_bytes(n),
{
    out.push((n / 256) as u8);
    out.push((n % 256) as u8);
    proof {
        assert(out@ =~= old(out)@ + be16_bytes(n));
    }
}

/// Append a 32-bit value to `out` as four big-endian bytes.
pub fn push_u32_be(out: &mut Vec<u8>, n: u32)
    ensures
        final(out)@ == old(out)@ + be32_bytes(n),
{
    out.push((n / 0x1000000) as u8);
    out.push(((n / 0x10000) % 256) as u8);
    out.push(((n / 256) % 256) as u8);
    out.push((n % 256) as u8);
    proof {
        assert(out@ =~= old(out)@ + be32_bytes(n));
    }
}

/// Read a big-endian 16-bit value at offset `i`.
pub fn read_u16_be(bytes: &[u8], i: usize) -> (n: u16)
    requires
        i + 2 <= bytes@.len(),
    ensures
        n == be16_value(bytes@[i as int], bytes@[i + 1]),
{
    (bytes[i] as u16) * 256 + (bytes[i + 1] as u16)
}

/// Read a big-endian 32-bit value at offset `i`.
pub fn read_u32_be(bytes: &[u8], i: usize) -> (n: u32)
    requires
        i + 4 <= bytes@.len(),
    ensures
        n == be32_value(bytes@[i as int], bytes@[i + 1], bytes@[i + 2], bytes@[i + 3]),
{
    (bytes[i] as u32) * 0x1000000 + (bytes[i + 1] as u32) * 0x10000
        + (bytes[i + 2] as u32) * 0x100 + (bytes[i + 3] as u32)
}

} // verus!
