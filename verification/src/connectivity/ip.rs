//! IP addresses as plain octets, and big-endian byte helpers.

use vstd::prelude::*;

verus! {

/// An IPv4 or IPv6 address, held as its octets in network order.
#[derive(Debug, Clone, Copy, PartialEq, Eq)]
pub enum IpAddr {
    /// IPv4 address
    V4([u8; 4]),
    /// IPv6 address
    V6([u8; 16]),
}

/// Two bytes of a 16-bit value, most significant first.
pub open spec fn be16(x: u16) -> Seq<u8> {
    seq![(x / 256) as u8, (x % 256) as u8]
}

/// Four bytes of a 32-bit value, most significant first.
pub open spec fn be32(x: u32) -> Seq<u8> {
    seq![(x / 16777216) as u8, ((x / 65536) % 256) as u8, ((x / 256) % 256) as u8, (x % 256) as u8]
}

/// Big-endian bytes rebuild their value, most significant byte first.
pub proof fn lemma_big_endian(x: u16, y: u32)
    ensures
        be16(x).len() == 2 && be16(x)[0] * 256 + be16(x)[1] == x,
        be32(y).len() == 4 && be32(y)[0] * 16777216 + be32(y)[1] * 65536 + be32(y)[2] * 256 + be32(y)[3] == y,
{
    let a = y / 16777216;
    let b = (y / 65536) % 256;
    let c = (y / 256) % 256;
    let d = y % 256;
    assert(a * 16777216 + b * 65536 + c * 256 + d == y) by (nonlinear_arith)
        requires
            a == y / 16777216,
            b == (y / 65536) % 256,
            c == (y / 256) % 256,
            d == y % 256,
            0 <= y < 4294967296,
    {
        assert(y == 256 * (y / 256) + y % 256);
        assert(y / 256 == 256 * ((y / 256) / 256) + (y / 256) % 256);
        assert((y / 256) / 256 == y / 65536);
        assert(y / 65536 == 256 * ((y / 65536) / 256) + (y / 65536) % 256);
        assert((y / 65536) / 256 == y / 16777216);
    }
}

/// The 16-bit value of two bytes, most significant first.
pub open spec fn from_be16(b0: u8, b1: u8) -> u16 {
    (b0 * 256 + b1) as u16
}

/// The 32-bit value of four bytes, most significant first.
pub open spec fn from_be32(b0: u8, b1: u8, b2: u8, b3: u8) -> u32 {
    (b0 * 16777216 + b1 * 65536 + b2 * 256 + b3) as u32
}

/// `n` zero bytes.
pub open spec fn zeros(n: nat) -> Seq<u8> {
    Seq::new(n, |i: int| 0u8)
}

/// Reads a big-endian 16-bit value.
pub fn read_be16(b0: u8, b1: u8) -> (r: u16)
    ensures
        r == from_be16(b0, b1),
        r as int == b0 * 256 + b1,
{
    (b0 as u16) * 256 + (b1 as u16)
}

/// Reads a big-endian 32-bit value.
pub fn read_be32(b0: u8, b1: u8, b2: u8, b3: u8) -> (r: u32)
    ensures
        r == from_be32(b0, b1, b2, b3),
        r as int == b0 * 16777216 + b1 * 65536 + b2 * 256 + b3,
{
    (b0 as u32) * 16777216 + (b1 as u32) * 65536 + (b2 as u32) * 256 + (b3 as u32)
}

/// Appends the two big-endian bytes of `x`.
pub fn push_be16(v: &mut Vec<u8>, x: u16)
    ensures
        final(v)@ == old(v)@ + be16(x),
{
    v.push((x / 256) as u8);
    v.push((x % 256) as u8);
    assert(final(v)@ =~= old(v)@ + be16(x));
}

/// Appends the four big-endian bytes of `x`.
pub fn push_be32(v: &mut Vec<u8>, x: u32)
    ensures
        final(v)@ == old(v)@ + be32(x),
{
    v.push((x / 16777216) as u8);
    v.push(((x / 65536) % 256) as u8);
    v.push(((x / 256) % 256) as u8);
    v.push((x % 256) as u8);
    assert(final(v)@ =~= old(v)@ + be32(x));
}

/// Appends `n` zero bytes.
pub fn push_zeros(v: &mut Vec<u8>, n: usize)
    ensures
        final(v)@ == old(v)@ + zeros(n as nat),
{
    let ghost start = v@;
    let mut i: usize = 0;
    while i < n
        invariant
            i <= n,
            v@ == start + zeros(i as nat),
        decreases n - i,
    {
        v.push(0u8);
        i = i + 1;
        assert(v@ =~= start + zeros(i as nat));
    }
}

/// Appends a slice of bytes.
pub fn push_bytes(v: &mut Vec<u8>, bytes: &[u8])
    ensures
        final(v)@ == old(v)@ + bytes@,
{
    let ghost start = v@;
    let mut i: usize = 0;
    while i < bytes.len()
        invariant
            i <= bytes@.len(),
            v@ == start + bytes@.subrange(0, i as int),
        decreases bytes@.len() - i,
    {
        v.push(bytes[i]);
        i = i + 1;
        assert(v@ =~= start + bytes@.subrange(0, i as int));
    }
    assert(bytes@.subrange(0, bytes@.len() as int) =~= bytes@);
}

/// A new vector holding a copy of `bytes`.
pub fn copy_bytes(bytes: &[u8]) -> (r: Vec<u8>)
    ensures
        r@ == bytes@,
{
    let mut v: Vec<u8> = Vec::new();
    push_bytes(&mut v, bytes);
    assert(v@ =~= bytes@);
    v
}

} // verus!
