//! Big-endian 32-bit framing primitives shared by the data-channel
//! fan-out and the WebSocket relay: both prefix application payloads
//! with a 4-byte big-endian origin or target id.

use vstd::prelude::*;

verus! {

/// The four big-endian bytes of a 32-bit value, most significant first.
pub open spec fn be32_bytes(x: u32) -> Seq<u8> {
    seq![
        ((x >> 24) & 0xff) as u8,
        ((x >> 16) & 0xff) as u8,
        ((x >> 8) & 0xff) as u8,
        (x & 0xff) as u8,
    ]
}

/// The 32-bit value carried by the first four bytes of `s`, big-endian.
pub open spec fn be32_value(s: Seq<u8>) -> u32
    recommends
        s.len() >= 4,
{
    ((s[0] as u32) << 24) | ((s[1] as u32) << 16) | ((s[2] as u32) << 8) | (s[3] as u32)
}

/// Reading back the four big-endian bytes of `x` yields `x` again.
pub proof fn lemma_be32_roundtrip(x: u32)
    ensures
        be32_bytes(x).len() == 4,
        be32_value(be32_bytes(x)) == x,
{
    assert((((((x >> 24) & 0xff) as u8) as u32) << 24) | (((((x >> 16) & 0xff) as u8) as u32)
        << 16) | (((((x >> 8) & 0xff) as u8) as u32) << 8) | ((((x & 0xff) as u8) as u32))
        == x) by (bit_vector);
}

/// Appends the four big-endian bytes of `x` to `out`.
pub fn push_be32(out: &mut Vec<u8>, x: u32)
    ensures
        final(out)@ == old(out)@ + be32_bytes(x),
{
    out.push(((x >> 24) & 0xff) as u8);
    out.push(((x >> 16) & 0xff) as u8);
    out.push(((x >> 8) & 0xff) as u8);
    out.push((x & 0xff) as u8);
    assert(out@ =~= old(out)@ + be32_bytes(x));
}

/// The four big-endian bytes of `x` as a fresh vector.
pub fn u32_to_be_vec(x: u32) -> (r: Vec<u8>)
    ensures
        r@ == be32_bytes(x),
{
    let mut out: Vec<u8> = Vec::new();
    push_be32(&mut out, x);
    assert(out@ =~= be32_bytes(x));
    out
}

/// Reads the 32-bit value of the first four bytes of `s`, big-endian.
pub fn read_be32(s: &[u8]) -> (r: u32)
    requires
        s@.len() >= 4,
    ensures
        r == be32_value(s@),
{
    let b0 = s[0];
    let b1 = s[1];
    let b2 = s[2];
    let b3 = s[3];
    ((b0 as u32) << 24) | ((b1 as u32) << 16) | ((b2 as u32) << 8) | (b3 as u32)
}

} // verus!
