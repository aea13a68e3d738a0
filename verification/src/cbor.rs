//! The CBOR (RFC 8949) framing of the library's wire records.
//!
//! Records are CBOR maps with text keys, in field order. Text values are
//! UTF-8 text strings; byte buffers are arrays of unsigned integers, one per
//! byte. Every head uses its shortest form. Readers accept exactly what the
//! writers produce: a reader returns the value whose encoding starts the
//! input, and rejects input that starts with no encoding.

use vstd::prelude::*;
use crate::connectivity::ip::{be16, be32, from_be16, from_be32, read_be16, read_be32};
use vstd::string::StringSliceAdditionalSpecFns;

verus! {

/// Whether `s` starts with `prefix`.
pub open spec fn starts_with(s: Seq<u8>, prefix: Seq<u8>) -> bool {
    prefix.len() <= s.len() && s.subrange(0, prefix.len() as int) == prefix
}

/// Eight bytes of a 64-bit value, most significant first.
pub open spec fn be64(v: nat) -> Seq<u8> {
    be32((v / 4294967296) as u32) + be32((v % 4294967296) as u32)
}

/// The head of a data item: major type in the top three bits, then the
/// argument in its shortest form.
pub open spec fn head(major: u8, v: nat) -> Seq<u8> {
    if v < 24 {
        seq![(major * 32 + v) as u8]
    } else if v < 256 {
        seq![(major * 32 + 24) as u8, v as u8]
    } else if v < 65536 {
        seq![(major * 32 + 25) as u8] + be16(v as u16)
    } else if v < 4294967296 {
        seq![(major * 32 + 26) as u8] + be32(v as u32)
    } else {
        seq![(major * 32 + 27) as u8] + be64(v)
    }
}

/// The encodings of a run of bytes, each as an unsigned integer item.
pub open spec fn uint_items(b: Seq<u8>) -> Seq<u8>
    decreases b.len(),
{
    if b.len() == 0 {
        Seq::empty()
    } else {
        uint_items(b.drop_last()) + head(0, b.last() as nat)
    }
}

/// A byte buffer encoded as an array of unsigned integers.
pub open spec fn byte_array(b: Seq<u8>) -> Seq<u8> {
    head(4, b.len()) + uint_items(b)
}

/// A text string item.
pub open spec fn text_item(s: Seq<char>) -> Seq<u8> {
    head(3, vstd::utf8::encode_utf8(s).len()) + vstd::utf8::encode_utf8(s)
}

/// The head of a map with `n` entries.
pub open spec fn map_head(n: nat) -> Seq<u8> {
    head(5, n)
}

proof fn lemma_head_len(major: u8, v: nat)
    ensures
        1 <= head(major, v).len() <= 9,
{
}

/// Appends the head of an item of major type `major` with argument `v`.
pub fn push_head(out: &mut Vec<u8>, major: u8, v: u64)
    requires
        major < 8,
    ensures
        final(out)@ == old(out)@ + head(major, v as nat),
{
    if v < 24 {
        out.push(major * 32 + (v as u8));
    } else if v < 256 {
        out.push(major * 32 + 24);
        out.push(v as u8);
    } else if v < 65536 {
        out.push(major * 32 + 25);
        crate::connectivity::ip::push_be16(out, v as u16);
    } else if v < 4294967296 {
        out.push(major * 32 + 26);
        crate::connectivity::ip::push_be32(out, v as u32);
    } else {
        out.push(major * 32 + 27);
        crate::connectivity::ip::push_be32(out, (v / 4294967296) as u32);
        crate::connectivity::ip::push_be32(out, (v % 4294967296) as u32);
    }
    assert(final(out)@ =~= old(out)@ + head(major, v as nat));
}

proof fn lemma_be16_value(x: u16)
    ensures
        from_be16(be16(x)[0], be16(x)[1]) == x,
        be16(x).len() == 2,
{
    assert((x / 256) * 256 + x % 256 == x);
}

proof fn lemma_be32_value(x: u32)
    ensures
        from_be32(be32(x)[0], be32(x)[1], be32(x)[2], be32(x)[3]) == x,
        be32(x).len() == 4,
{
    assert((x / 16777216) * 16777216 + ((x / 65536) % 256) * 65536 + ((x / 256) % 256) * 256 + x % 256 == x)
        by (nonlinear_arith);
}

/// The shape of a head: its first byte carries the major type and the
/// length class; the following bytes carry the argument.
proof fn lemma_head_shape(major: u8, v: nat)
    requires
        major < 8,
        v < 18446744073709551616,
    ensures
        head(major, v)[0] / 32 == major,
        v < 24 ==> head(major, v).len() == 1 && head(major, v)[0] % 32 == v,
        24 <= v < 256 ==> head(major, v).len() == 2 && head(major, v)[0] % 32 == 24 && head(major, v)[1] == v,
        256 <= v < 65536 ==> head(major, v).len() == 3 && head(major, v)[0] % 32 == 25
            && from_be16(head(major, v)[1], head(major, v)[2]) == v,
        65536 <= v < 4294967296 ==> head(major, v).len() == 5 && head(major, v)[0] % 32 == 26
            && from_be32(head(major, v)[1], head(major, v)[2], head(major, v)[3], head(major, v)[4]) == v,
        4294967296 <= v ==> head(major, v).len() == 9 && head(major, v)[0] % 32 == 27
            && from_be32(head(major, v)[1], head(major, v)[2], head(major, v)[3], head(major, v)[4]) * 4294967296
                + from_be32(head(major, v)[5], head(major, v)[6], head(major, v)[7], head(major, v)[8]) == v,
{
    let h = head(major, v);
    if v < 24 {
    } else if v < 256 {
    } else if v < 65536 {
        lemma_be16_value(v as u16);
    } else if v < 4294967296 {
        lemma_be32_value(v as u32);
    } else {
        lemma_be32_value((v / 4294967296) as u32);
        lemma_be32_value((v % 4294967296) as u32);
        assert(h =~= seq![(major * 32 + 27) as u8] + be32((v / 4294967296) as u32) + be32((v % 4294967296) as u32));
        assert(h[1] == be32((v / 4294967296) as u32)[0]);
        assert(h[5] == be32((v % 4294967296) as u32)[0]);
    }
}

proof fn lemma_head_read_complete(bytes: Seq<u8>, pos: usize, major: u8, v: nat, r: Option<(u64, usize)>)
    requires
        major < 8,
        pos <= bytes.len(),
        v < 18446744073709551616,
        starts_with(bytes.subrange(pos as int, bytes.len() as int), head(major, v)),
        head_read_result(bytes, pos, major, r),
    ensures
        r == Some((v as u64, (pos + head(major, v).len()) as usize)),
{
    let rest = bytes.subrange(pos as int, bytes.len() as int);
    lemma_head_shape(major, v);
    let h = head(major, v);
    assert(rest[0] == h[0]);
    assert(bytes[pos as int] == h[0]);
    if h.len() >= 2 {
        assert(rest[1] == h[1]);
        assert(bytes[pos + 1] == h[1]);
    }
    if h.len() >= 3 {
        assert(rest[2] == h[2]);
        assert(bytes[pos + 2] == h[2]);
    }
    if h.len() >= 5 {
        assert(rest[3] == h[3]);
        assert(rest[4] == h[4]);
        assert(bytes[pos + 3] == h[3]);
        assert(bytes[pos + 4] == h[4]);
    }
    if h.len() == 9 {
        assert(rest[5] == h[5]);
        assert(rest[6] == h[6]);
        assert(rest[7] == h[7]);
        assert(rest[8] == h[8]);
        assert(bytes[pos + 5] == h[5]);
        assert(bytes[pos + 6] == h[6]);
        assert(bytes[pos + 7] == h[7]);
        assert(bytes[pos + 8] == h[8]);
    }
}

proof fn lemma_head_read_sound(bytes: Seq<u8>, pos: usize, major: u8, v: u64, p: usize)
    requires
        major < 8,
        pos <= bytes.len(),
        head_read_result(bytes, pos, major, Some((v, p))),
    ensures
        bytes.subrange(pos as int, p as int) == head(major, v as nat),
{
    lemma_head_shape(major, v as nat);
    let h = head(major, v as nat);
    let got = bytes.subrange(pos as int, p as int);
    assert(got.len() == h.len());
    assert(got[0] == h[0]) by {
        assert(bytes[pos as int] / 32 == h[0] / 32);
        assert(bytes[pos as int] % 32 == h[0] % 32);
    }
    if v >= 24 && v < 256 {
        assert(got =~= h);
    } else if v >= 256 && v < 65536 {
        lemma_be16_bytes(bytes[pos + 1], bytes[pos + 2], h[1], h[2]);
        assert(got =~= h);
    } else if v >= 65536 && v < 4294967296 {
        lemma_be32_bytes(bytes[pos + 1], bytes[pos + 2], bytes[pos + 3], bytes[pos + 4], h[1], h[2], h[3], h[4]);
        assert(got =~= h);
    } else if v >= 4294967296 {
        lemma_be64_bytes(bytes.subrange(pos + 1, pos + 9), h.subrange(1, 9));
        assert(got =~= h);
    } else {
        assert(got =~= h);
    }
}

proof fn lemma_be16_bytes(a0: u8, a1: u8, b0: u8, b1: u8)
    requires
        from_be16(a0, a1) == from_be16(b0, b1),
    ensures
        a0 == b0 && a1 == b1,
{
}

proof fn lemma_be32_bytes(a0: u8, a1: u8, a2: u8, a3: u8, b0: u8, b1: u8, b2: u8, b3: u8)
    requires
        from_be32(a0, a1, a2, a3) == from_be32(b0, b1, b2, b3),
    ensures
        a0 == b0 && a1 == b1 && a2 == b2 && a3 == b3,
{
}

proof fn lemma_be64_bytes(a: Seq<u8>, b: Seq<u8>)
    requires
        a.len() == 8,
        b.len() == 8,
        from_be32(a[0], a[1], a[2], a[3]) * 4294967296 + from_be32(a[4], a[5], a[6], a[7])
            == from_be32(b[0], b[1], b[2], b[3]) * 4294967296 + from_be32(b[4], b[5], b[6], b[7]),
    ensures
        a == b,
{
    let ah = from_be32(a[0], a[1], a[2], a[3]) as int;
    let al = from_be32(a[4], a[5], a[6], a[7]) as int;
    let bh = from_be32(b[0], b[1], b[2], b[3]) as int;
    let bl = from_be32(b[4], b[5], b[6], b[7]) as int;
    assert(ah == bh && al == bl) by (nonlinear_arith)
        requires
            ah * 4294967296 + al == bh * 4294967296 + bl,
            0 <= al < 4294967296,
            0 <= bl < 4294967296,
    {}
    lemma_be32_bytes(a[0], a[1], a[2], a[3], b[0], b[1], b[2], b[3]);
    lemma_be32_bytes(a[4], a[5], a[6], a[7], b[4], b[5], b[6], b[7]);
    assert(a =~= b);
}

/// Reads the head of an item of major type `major` at `pos`: its argument
/// and the position after it.
#[verifier::rlimit(40)]
pub fn read_head(bytes: &[u8], pos: usize, major: u8) -> (r: Option<(u64, usize)>)
    requires
        major < 8,
        pos <= bytes@.len(),
    ensures
        r matches Some((v, p)) ==> pos < p <= bytes@.len() && bytes@.subrange(pos as int, p as int) == head(major, v as nat),
        forall|v: nat| #![trigger head(major, v)]
            v < 18446744073709551616 && starts_with(bytes@.subrange(pos as int, bytes@.len() as int), head(major, v))
            ==> r == Some((v as u64, (pos + head(major, v).len()) as usize)),
{
    let r = read_head_value(bytes, pos, major);
    proof {
        assert forall|v: nat| #![trigger head(major, v)]
            v < 18446744073709551616 && starts_with(bytes@.subrange(pos as int, bytes@.len() as int), head(major, v))
            implies r == Some((v as u64, (pos + head(major, v).len()) as usize)) by {
            lemma_head_read_complete(bytes@, pos, major, v, r);
        }
        if let Some((v, p)) = r {
            lemma_head_read_sound(bytes@, pos, major, v, p);
        }
    }
    r
}

/// What `read_head_value` returns: a value and position whose bytes match
/// one length class, or nothing when no length class matches.
spec fn head_read_result(bytes: Seq<u8>, pos: usize, major: u8, r: Option<(u64, usize)>) -> bool {
        match r {
            Some((v, p)) => {
                &&& pos < p <= bytes.len()
                &&& bytes[pos as int] / 32 == major
                &&& (v < 24 ==> p == pos + 1 && bytes[pos as int] % 32 == v)
                &&& (24 <= v < 256 ==> p == pos + 2 && bytes[pos as int] % 32 == 24 && bytes[pos + 1] == v)
                &&& (256 <= v < 65536 ==> p == pos + 3 && bytes[pos as int] % 32 == 25
                    && from_be16(bytes[pos + 1], bytes[pos + 2]) == v)
                &&& (65536 <= v < 4294967296 ==> p == pos + 5 && bytes[pos as int] % 32 == 26
                    && from_be32(bytes[pos + 1], bytes[pos + 2], bytes[pos + 3], bytes[pos + 4]) == v)
                &&& (4294967296 <= v ==> p == pos + 9 && bytes[pos as int] % 32 == 27
                    && from_be32(bytes[pos + 1], bytes[pos + 2], bytes[pos + 3], bytes[pos + 4]) * 4294967296
                        + from_be32(bytes[pos + 5], bytes[pos + 6], bytes[pos + 7], bytes[pos + 8]) == v)
            },
            None => {
                ||| pos == bytes.len()
                ||| bytes[pos as int] / 32 != major
                ||| bytes[pos as int] % 32 > 27
                ||| (bytes[pos as int] % 32 == 24 && (bytes.len() - pos < 2 || bytes[pos + 1] < 24))
                ||| (bytes[pos as int] % 32 == 25 && (bytes.len() - pos < 3 || from_be16(bytes[pos + 1], bytes[pos + 2]) < 256))
                ||| (bytes[pos as int] % 32 == 26 && (bytes.len() - pos < 5
                    || from_be32(bytes[pos + 1], bytes[pos + 2], bytes[pos + 3], bytes[pos + 4]) < 65536))
                ||| (bytes[pos as int] % 32 == 27 && (bytes.len() - pos < 9
                    || from_be32(bytes[pos + 1], bytes[pos + 2], bytes[pos + 3], bytes[pos + 4]) == 0))
            },
        }
}

/// The decoding step of `read_head`: the argument of the head at `pos`, read
/// in the length class that its first byte names, when it is in shortest form.
#[verifier::rlimit(40)]
fn read_head_value(bytes: &[u8], pos: usize, major: u8) -> (r: Option<(u64, usize)>)
    requires
        major < 8,
        pos <= bytes@.len(),
    ensures
        head_read_result(bytes@, pos, major, r),
{
    if pos >= bytes.len() {
        return None;
    }
    let b = bytes[pos];
    if b / 32 != major {
        return None;
    }
    let ai = b % 32;
    if ai < 24 {
        return Some((ai as u64, pos + 1));
    }
    if ai == 24 {
        if bytes.len() - pos < 2 {
            return None;
        }
        let x = bytes[pos + 1];
        if x < 24 {
            return None;
        }
        return Some((x as u64, pos + 2));
    }
    if ai == 25 {
        if bytes.len() - pos < 3 {
            return None;
        }
        let x = read_be16(bytes[pos + 1], bytes[pos + 2]);
        if x < 256 {
            return None;
        }
        return Some((x as u64, pos + 3));
    }
    if ai == 26 {
        if bytes.len() - pos < 5 {
            return None;
        }
        let x = read_be32(bytes[pos + 1], bytes[pos + 2], bytes[pos + 3], bytes[pos + 4]);
        if x < 65536 {
            return None;
        }
        return Some((x as u64, pos + 5));
    }
    if ai == 27 {
        if bytes.len() - pos < 9 {
            return None;
        }
        let hi = read_be32(bytes[pos + 1], bytes[pos + 2], bytes[pos + 3], bytes[pos + 4]);
        let lo = read_be32(bytes[pos + 5], bytes[pos + 6], bytes[pos + 7], bytes[pos + 8]);
        if hi == 0 {
            return None;
        }
        let x: u64 = (hi as u64) * 4294967296 + (lo as u64);
        return Some((x, pos + 9));
    }
    None
}

/// Appending to the front keeps a prefix: a stream that starts with `x + y`
/// starts with `x`, and after `x` it starts with `y`.
pub proof fn lemma_starts_with_concat(s: Seq<u8>, x: Seq<u8>, y: Seq<u8>)
    requires
        starts_with(s, x + y),
    ensures
        starts_with(s, x),
        starts_with(s.subrange(x.len() as int, s.len() as int), y),
{
    let n = x.len() + y.len();
    let whole = s.subrange(0, n as int);
    assert(whole == x + y);
    assert(s.subrange(0, x.len() as int) =~= whole.subrange(0, x.len() as int));
    assert((x + y).subrange(0, x.len() as int) =~= x);
    assert(s.subrange(x.len() as int, s.len() as int).subrange(0, y.len() as int)
        =~= whole.subrange(x.len() as int, n as int));
    assert((x + y).subrange(x.len() as int, n as int) =~= y);
}

proof fn lemma_uint_items_step(b: Seq<u8>, k: int)
    requires
        0 <= k < b.len(),
    ensures
        uint_items(b.subrange(0, k + 1)) == uint_items(b.subrange(0, k)) + head(0, b[k] as nat),
{
    assert(b.subrange(0, k + 1).drop_last() =~= b.subrange(0, k));
}

proof fn lemma_uint_items_len(b: Seq<u8>)
    ensures
        uint_items(b).len() >= b.len(),
    decreases b.len(),
{
    if b.len() > 0 {
        lemma_uint_items_len(b.drop_last());
        lemma_head_len(0, b.last() as nat);
    }
}

proof fn lemma_uint_items_prefix(b: Seq<u8>, k: int)
    requires
        0 <= k <= b.len(),
    ensures
        uint_items(b) == uint_items(b.subrange(0, k)) + uint_items(b).subrange(uint_items(b.subrange(0, k)).len() as int, uint_items(b).len() as int),
        uint_items(b.subrange(0, k)).len() <= uint_items(b).len(),
    decreases b.len() - k,
{
    if k == b.len() {
        assert(b.subrange(0, k) =~= b);
        assert(uint_items(b) =~= uint_items(b) + uint_items(b).subrange(uint_items(b).len() as int, uint_items(b).len() as int));
    } else {
        lemma_uint_items_prefix(b, k + 1);
        lemma_uint_items_step(b, k);
        let whole = uint_items(b);
        let a = uint_items(b.subrange(0, k));
        let a1 = uint_items(b.subrange(0, k + 1));
        assert(whole =~= a + whole.subrange(a.len() as int, whole.len() as int));
    }
}

/// Appends a byte buffer as an array of unsigned integers.
pub fn push_byte_array(out: &mut Vec<u8>, bytes: &[u8])
    ensures
        final(out)@ == old(out)@ + byte_array(bytes@),
{
    push_head(out, 4, bytes.len() as u64);
    let ghost start = out@;
    let mut i: usize = 0;
    while i < bytes.len()
        invariant
            i <= bytes@.len(),
            out@ == start + uint_items(bytes@.subrange(0, i as int)),
        decreases bytes@.len() - i,
    {
        proof { lemma_uint_items_step(bytes@, i as int); }
        push_head(out, 0, bytes[i] as u64);
        i = i + 1;
        assert(out@ =~= start + uint_items(bytes@.subrange(0, i as int)));
    }
    assert(bytes@.subrange(0, bytes@.len() as int) =~= bytes@);
    assert(final(out)@ =~= old(out)@ + byte_array(bytes@));
}

/// A stream that starts with an array starts with its head, and the
/// array is shorter than the stream.
proof fn lemma_array_head(rest: Seq<u8>, b: Seq<u8>)
    requires
        starts_with(rest, byte_array(b)),
    ensures
        starts_with(rest, head(4, b.len())),
        b.len() <= rest.len(),
{
    lemma_starts_with_concat(rest, head(4, b.len()), uint_items(b));
    lemma_uint_items_len(b);
}

/// After the head and the first `i` items of an array that starts a
/// stream, the stream continues with the item of byte `i`.
proof fn lemma_array_item(rest: Seq<u8>, b: Seq<u8>, i: int)
    requires
        starts_with(rest, byte_array(b)),
        0 <= i < b.len(),
    ensures
        ({
            let k = head(4, b.len()).len() + uint_items(b.subrange(0, i)).len();
            k <= rest.len() && starts_with(rest.subrange(k as int, rest.len() as int), head(0, b[i] as nat))
        }),
{
    lemma_uint_items_prefix(b, i + 1);
    lemma_uint_items_step(b, i);
    lemma_starts_with_concat(rest, head(4, b.len()), uint_items(b));
    let h = head(4, b.len());
    let r0 = rest.subrange(h.len() as int, rest.len() as int);
    let a = uint_items(b.subrange(0, i));
    let whole = uint_items(b);
    let tail = whole.subrange(uint_items(b.subrange(0, i + 1)).len() as int, whole.len() as int);
    assert(whole == (a + head(0, b[i] as nat)) + tail);
    lemma_starts_with_concat(r0, a + head(0, b[i] as nat), tail);
    lemma_starts_with_concat(r0, a, head(0, b[i] as nat));
    assert(r0.subrange(a.len() as int, r0.len() as int)
        =~= rest.subrange((h.len() + a.len()) as int, rest.len() as int));
}

/// Reads an array of unsigned integers below 256 at `pos`: the bytes and the
/// position after the array.
pub fn read_byte_array(bytes: &[u8], pos: usize) -> (r: Option<(Vec<u8>, usize)>)
    requires
        pos <= bytes@.len(),
    ensures
        r matches Some((v, p)) ==> pos < p <= bytes@.len() && bytes@.subrange(pos as int, p as int) == byte_array(v@),
        forall|b: Seq<u8>| #![trigger byte_array(b)]
            starts_with(bytes@.subrange(pos as int, bytes@.len() as int), byte_array(b))
            ==> (r matches Some((v, p)) && v@ == b && p == pos + byte_array(b).len()),
{
    let ghost rest = bytes@.subrange(pos as int, bytes@.len() as int);
    let ghost has = exists|b: Seq<u8>| #![trigger byte_array(b)] starts_with(rest, byte_array(b));
    let ghost tb = choose|b: Seq<u8>| #![trigger byte_array(b)] starts_with(rest, byte_array(b));
    let hr = read_head(bytes, pos, 4);
    proof {
        if has {
            lemma_array_head(rest, tb);
            assert(bytes@.len() == bytes.len());
            assert(tb.len() < 18446744073709551616);
            assert(starts_with(bytes@.subrange(pos as int, bytes@.len() as int), head(4, tb.len())));
            assert(hr == Some((tb.len() as u64, (pos + head(4, tb.len()).len()) as usize)));
        }
    }
    let (n, p0) = match hr {
        Some(x) => x,
        None => {
            assert(!has);
            return None;
        },
    };
    let mut out: Vec<u8> = Vec::new();
    let mut p = p0;
    let mut i: u64 = 0;
    while i < n
        invariant
            pos < p0 <= p <= bytes@.len(),
            i <= n,
            out@.len() == i,
            bytes@.subrange(pos as int, p0 as int) == head(4, n as nat),
            bytes@.subrange(p0 as int, p as int) == uint_items(out@),
            rest == bytes@.subrange(pos as int, bytes@.len() as int),
            has == exists|b: Seq<u8>| #![trigger byte_array(b)] starts_with(rest, byte_array(b)),
            has ==> starts_with(rest, byte_array(tb)),
            has ==> tb.len() == n,
            has ==> p0 == pos + head(4, n as nat).len(),
            has ==> out@ == tb.subrange(0, i as int),
        decreases n - i,
    {
        let ghost before = out@;
        proof {
            if has {
                lemma_array_item(rest, tb, i as int);
                assert(rest.subrange((head(4, tb.len()).len() + uint_items(tb.subrange(0, i as int)).len()) as int, rest.len() as int)
                    =~= bytes@.subrange(p as int, bytes@.len() as int));
                assert(head(0, tb[i as int] as nat) == head(0, tb[i as int] as nat));
            }
        }
        let hi = read_head(bytes, p, 0);
        let (x, p2) = match hi {
            Some(y) => y,
            None => {
                assert(!has);
                return None;
            },
        };
        if x >= 256 {
            assert(!has);
            return None;
        }
        out.push(x as u8);
        proof {
            assert(out@.drop_last() =~= before);
            assert(bytes@.subrange(p0 as int, p2 as int) =~= bytes@.subrange(p0 as int, p as int) + bytes@.subrange(p as int, p2 as int));
            if has {
                assert(out@ =~= tb.subrange(0, i as int + 1));
            }
        }
        p = p2;
        i = i + 1;
    }
    proof {
        assert(bytes@.subrange(pos as int, p as int) =~= bytes@.subrange(pos as int, p0 as int) + bytes@.subrange(p0 as int, p as int));
        if has {
            assert(tb.subrange(0, n as int) =~= tb);
            assert forall|b: Seq<u8>| #![trigger byte_array(b)]
                starts_with(rest, byte_array(b))
                implies (out@ == b && p == pos + byte_array(b).len()) by {
                lemma_byte_array_unique(rest, b, tb);
            }
        }
    }
    Some((out, p))
}

/// Two arrays that both start a stream are the same array.
pub proof fn lemma_byte_array_unique(s: Seq<u8>, a: Seq<u8>, b: Seq<u8>)
    requires
        s.len() < 18446744073709551616,
        starts_with(s, byte_array(a)),
        starts_with(s, byte_array(b)),
    ensures
        a == b,
{
    lemma_array_head(s, a);
    lemma_array_head(s, b);
    lemma_starts_with_concat(s, head(4, a.len()), uint_items(a));
    lemma_starts_with_concat(s, head(4, b.len()), uint_items(b));
    lemma_head_prefix_unique(s, 4, a.len(), b.len());
    lemma_uint_items_unique(s.subrange(head(4, a.len()).len() as int, s.len() as int), a, b);
}

proof fn lemma_head_prefix_unique(s: Seq<u8>, major: u8, v: nat, w: nat)
    requires
        major < 8,
        v < 18446744073709551616,
        w < 18446744073709551616,
        starts_with(s, head(major, v)),
        starts_with(s, head(major, w)),
    ensures
        v == w,
{
    lemma_head_shape(major, v);
    lemma_head_shape(major, w);
    let hv = head(major, v);
    let hw = head(major, w);
    assert(s[0] == hv[0] && s[0] == hw[0]);
    if hv.len() >= 2 && hw.len() >= 2 {
        assert(s[1] == hv[1] && s[1] == hw[1]);
    }
    if hv.len() >= 3 && hw.len() >= 3 {
        assert(s[2] == hv[2] && s[2] == hw[2]);
    }
    if hv.len() >= 5 && hw.len() >= 5 {
        assert(s[3] == hv[3] && s[3] == hw[3]);
        assert(s[4] == hv[4] && s[4] == hw[4]);
    }
    if hv.len() == 9 && hw.len() == 9 {
        assert(s[5] == hv[5] && s[5] == hw[5]);
        assert(s[6] == hv[6] && s[6] == hw[6]);
        assert(s[7] == hv[7] && s[7] == hw[7]);
        assert(s[8] == hv[8] && s[8] == hw[8]);
    }
}

proof fn lemma_uint_items_unique(s: Seq<u8>, a: Seq<u8>, b: Seq<u8>)
    requires
        a.len() == b.len(),
        starts_with(s, uint_items(a)),
        starts_with(s, uint_items(b)),
    ensures
        a == b,
    decreases a.len(),
{
    if a.len() > 0 {
        let a0 = a.drop_last();
        let b0 = b.drop_last();
        lemma_starts_with_concat(s, uint_items(a0), head(0, a.last() as nat));
        lemma_starts_with_concat(s, uint_items(b0), head(0, b.last() as nat));
        lemma_uint_items_unique(s, a0, b0);
        let t = s.subrange(uint_items(a0).len() as int, s.len() as int);
        lemma_head_prefix_unique(t, 0, a.last() as nat, b.last() as nat);
        assert(a =~= a0.push(a.last()));
        assert(b =~= b0.push(b.last()));
    }
}

/// Checks that a string is valid UTF-8 and views it as text.
///
/// Trusted: calls `std::str::from_utf8`, which succeeds exactly on valid
/// UTF-8 and then views the same bytes.
#[verifier::external_body]
fn utf8_text(v: &[u8]) -> (r: Option<&str>)
    ensures
        r is Some <==> vstd::utf8::valid_utf8(v@),
        r matches Some(s) ==> s.spec_bytes() == v@,
{
    std::str::from_utf8(v).ok()
}

/// Appends a text string item.
pub fn push_text(out: &mut Vec<u8>, s: &str)
    ensures
        final(out)@ == old(out)@ + text_item(s@),
{
    let b = s.as_bytes();
    push_head(out, 3, b.len() as u64);
    crate::connectivity::ip::push_bytes(out, b);
    assert(final(out)@ =~= old(out)@ + text_item(s@));
}

/// A stream that starts with a text item starts with its head, and its
/// UTF-8 bytes follow the head.
proof fn lemma_text_parts(rest: Seq<u8>, c: Seq<char>)
    requires
        starts_with(rest, text_item(c)),
        rest.len() < 18446744073709551616,
    ensures
        ({
            let e = vstd::utf8::encode_utf8(c);
            let h = head(3, e.len());
            &&& starts_with(rest, h)
            &&& e.len() < 18446744073709551616
            &&& h.len() + e.len() <= rest.len()
            &&& rest.subrange(h.len() as int, (h.len() + e.len()) as int) == e
        }),
{
    let e = vstd::utf8::encode_utf8(c);
    let h = head(3, e.len());
    lemma_starts_with_concat(rest, h, e);
    assert(h.len() + e.len() <= rest.len());
    assert(rest.subrange(h.len() as int, (h.len() + e.len()) as int)
        =~= rest.subrange(h.len() as int, rest.len() as int).subrange(0, e.len() as int));
}

/// UTF-8 encodings are injective.
proof fn lemma_utf8_injective(a: Seq<char>, b: Seq<char>)
    requires
        vstd::utf8::encode_utf8(a) == vstd::utf8::encode_utf8(b),
    ensures
        a == b,
{
    broadcast use vstd::utf8::encode_utf8_decode_utf8;
    assert(vstd::utf8::decode_utf8(vstd::utf8::encode_utf8(a)) == a);
    assert(vstd::utf8::decode_utf8(vstd::utf8::encode_utf8(b)) == b);
}

/// Reads a text string item at `pos`: the text and the position after it.
pub fn read_text(bytes: &[u8], pos: usize) -> (r: Option<(String, usize)>)
    requires
        pos <= bytes@.len(),
    ensures
        r matches Some((t, p)) ==> pos < p <= bytes@.len() && bytes@.subrange(pos as int, p as int) == text_item(t@),
        forall|c: Seq<char>| #![trigger text_item(c)]
            starts_with(bytes@.subrange(pos as int, bytes@.len() as int), text_item(c))
            ==> (r matches Some((t, p)) && t@ == c && p == pos + text_item(c).len()),
{
    let ghost rest = bytes@.subrange(pos as int, bytes@.len() as int);
    let ghost has = exists|c: Seq<char>| #![trigger text_item(c)] starts_with(rest, text_item(c));
    let ghost tc = choose|c: Seq<char>| #![trigger text_item(c)] starts_with(rest, text_item(c));
    let ghost te = vstd::utf8::encode_utf8(tc);
    let hr = read_head(bytes, pos, 3);
    proof {
        if has {
            assert(bytes@.len() == bytes.len());
            lemma_text_parts(rest, tc);
            assert(starts_with(bytes@.subrange(pos as int, bytes@.len() as int), head(3, te.len())));
            assert(hr == Some((te.len() as u64, (pos + head(3, te.len()).len()) as usize)));
        }
    }
    let (n, p) = match hr {
        Some(x) => x,
        None => {
            assert(!has);
            return None;
        },
    };
    if n > (bytes.len() - p) as u64 {
        assert(!has);
        return None;
    }
    let end = p + n as usize;
    let body = &bytes[p..end];
    proof {
        if has {
            assert(body@ =~= rest.subrange(head(3, te.len()).len() as int, (head(3, te.len()).len() + te.len()) as int));
        }
    }
    match utf8_text(body) {
        Some(s) => {
            let t = s.to_owned();
            proof {
                assert(bytes@.subrange(pos as int, end as int) =~= bytes@.subrange(pos as int, p as int) + body@);
                if has {
                    lemma_utf8_injective(t@, tc);
                    assert forall|c: Seq<char>| #![trigger text_item(c)]
                        starts_with(rest, text_item(c))
                        implies (t@ == c && end == pos + text_item(c).len()) by {
                        lemma_text_unique(rest, c, tc);
                    }
                }
            }
            Some((t, end))
        },
        None => {
            proof {
                if has {
                    broadcast use vstd::utf8::encode_utf8_valid_utf8;
                    assert(vstd::utf8::valid_utf8(te));
                }
            }
            assert(!has);
            None
        },
    }
}

/// Two text items that both start a stream are the same text.
pub proof fn lemma_text_unique(s: Seq<u8>, a: Seq<char>, b: Seq<char>)
    requires
        starts_with(s, text_item(a)),
        s.len() < 18446744073709551616,
        starts_with(s, text_item(b)),
    ensures
        a == b,
{
    let ea = vstd::utf8::encode_utf8(a);
    let eb = vstd::utf8::encode_utf8(b);
    lemma_text_parts(s, a);
    lemma_text_parts(s, b);
    lemma_head_prefix_unique(s, 3, ea.len(), eb.len());
    assert(ea =~= eb);
    lemma_utf8_injective(a, b);
}

/// Reads the text item `key` at `pos`: the position after it.
pub fn read_key(bytes: &[u8], pos: usize, key: &str) -> (r: Option<usize>)
    requires
        pos <= bytes@.len(),
    ensures
        r matches Some(p) ==> pos < p <= bytes@.len() && bytes@.subrange(pos as int, p as int) == text_item(key@),
        starts_with(bytes@.subrange(pos as int, bytes@.len() as int), text_item(key@))
            ==> r == Some((pos + text_item(key@).len()) as usize),
{
    match read_text(bytes, pos) {
        Some((t, p)) => {
            let k = key.to_owned();
            if t == k {
                Some(p)
            } else {
                None
            }
        },
        None => None,
    }
}

} // verus!
