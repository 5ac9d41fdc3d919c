//! Big-endian integer fields: the mathematical byte layout of each integer
//! width the wire format uses, and verified readers and writers for them.

use vstd::prelude::*;

verus! {

/// The two big-endian bytes of a 16-bit integer.
pub open spec fn be16_bytes(v: u16) -> Seq<u8> {
    seq![(v as int / 0x100) as u8, (v as int % 0x100) as u8]
}

/// The 16-bit integer held by two big-endian bytes.
pub open spec fn be16_val(b0: u8, b1: u8) -> u16 {
    (b0 as int * 0x100 + b1 as int) as u16
}

/// The four big-endian bytes of a 32-bit integer.
pub open spec fn be32_bytes(v: u32) -> Seq<u8> {
    seq![
        (v as int / 0x1000000) as u8,
        (v as int / 0x10000 % 0x100) as u8,
        (v as int / 0x100 % 0x100) as u8,
        (v as int % 0x100) as u8,
    ]
}

/// The 32-bit integer held by four big-endian bytes.
pub open spec fn be32_val(b0: u8, b1: u8, b2: u8, b3: u8) -> u32 {
    (b0 as int * 0x1000000 + b1 as int * 0x10000 + b2 as int * 0x100 + b3 as int) as u32
}

/// Reading back the two bytes an integer was written as gives it back.
pub proof fn lemma_be16_roundtrip(v: u16)
    ensures
        be16_val(be16_bytes(v)[0], be16_bytes(v)[1]) == v,
{
}

/// Reading back the four bytes an integer was written as gives it back.
pub proof fn lemma_be32_roundtrip(v: u32)
    ensures
        be32_val(be32_bytes(v)[0], be32_bytes(v)[1], be32_bytes(v)[2], be32_bytes(v)[3]) == v,
{
}

/// Reads a big-endian 16-bit integer at `pos`.
pub fn read_be_u16(buf: &[u8], pos: usize) -> (r: u16)
    requires
        pos + 2 <= buf@.len(),
    ensures
        r == be16_val(buf@[pos as int], buf@[pos as int + 1]),
{
    let b0 = buf[pos];
    let b1 = buf[pos + 1];
    (b0 as u16) * 0x100 + (b1 as u16)
}

/// Reads a big-endian 32-bit integer at `pos`.
pub fn read_be_u32(buf: &[u8], pos: usize) -> (r: u32)
    requires
        pos + 4 <= buf@.len(),
    ensures
        r == be32_val(buf@[pos as int], buf@[pos as int + 1], buf@[pos as int + 2], buf@[pos as int + 3]),
{
    let b0 = buf[pos];
    let b1 = buf[pos + 1];
    let b2 = buf[pos + 2];
    let b3 = buf[pos + 3];
    (b0 as u32) * 0x1000000 + (b1 as u32) * 0x10000 + (b2 as u32) * 0x100 + (b3 as u32)
}

/// Appends the two big-endian bytes of `v`.
pub fn push_be_u16(out: &mut Vec<u8>, v: u16)
    ensures
        final(out)@ == old(out)@ + be16_bytes(v),
{
    out.push((v / 0x100) as u8);
    out.push((v % 0x100) as u8);
    proof {
        assert(out@ =~= old(out)@ + be16_bytes(v));
    }
}

/// `n` clamped to the values a `usize` can hold.
pub open spec fn clip_usize(n: int) -> usize {
    if n > usize::MAX as int {
        usize::MAX
    } else if n < 0 {
        0
    } else {
        n as usize
    }
}

/// Saturating addition: the sum, clamped to `usize::MAX`.
pub fn sat_add(a: usize, b: usize) -> (r: usize)
    ensures
        r == clip_usize(a + b),
{
    if a <= usize::MAX - b {
        a + b
    } else {
        usize::MAX
    }
}

/// The two big-endian bytes of a signed 16-bit integer, two's complement.
pub open spec fn be_i16_bytes(v: i16) -> Seq<u8> {
    be16_bytes(v as u16)
}

/// The signed 16-bit integer held by two big-endian bytes.
pub open spec fn be_i16_val(b0: u8, b1: u8) -> i16 {
    be16_val(b0, b1) as i16
}

/// Reading back the two bytes a signed integer was written as gives it back.
pub proof fn lemma_be_i16_roundtrip(v: i16)
    ensures
        be_i16_val(be_i16_bytes(v)[0], be_i16_bytes(v)[1]) == v,
{
    lemma_be16_roundtrip(v as u16);
    assert((v as u16) as i16 == v) by (bit_vector);
}

/// Reads a big-endian signed 16-bit integer at `pos`.
pub fn read_be_i16(buf: &[u8], pos: usize) -> (r: i16)
    requires
        pos + 2 <= buf@.len(),
    ensures
        r == be_i16_val(buf@[pos as int], buf@[pos as int + 1]),
{
    let v = read_be_u16(buf, pos);
    #[verifier::truncate] (v as i16)
}

/// Appends the two big-endian bytes of `v`, two's complement.
pub fn push_be_i16(out: &mut Vec<u8>, v: i16)
    ensures
        final(out)@ == old(out)@ + be_i16_bytes(v),
{
    push_be_u16(out, #[verifier::truncate] (v as u16));
}

/// Appends a copy of `b`.
pub fn push_bytes(out: &mut Vec<u8>, b: &Vec<u8>)
    ensures
        final(out)@ == old(out)@ + b@,
{
    let mut i: usize = 0;
    while i < b.len()
        invariant
            i <= b@.len(),
            out@ == old(out)@ + b@.subrange(0, i as int),
        decreases b@.len() - i,
    {
        out.push(b[i]);
        i += 1;
        proof {
            assert(out@ =~= old(out)@ + b@.subrange(0, i as int));
        }
    }
    proof {
        assert(b@.subrange(0, b@.len() as int) =~= b@);
    }
}

/// Copies `count` bytes of `buf` starting at `pos` into a fresh vector.
pub fn copy_bytes(buf: &[u8], pos: usize, count: usize) -> (r: Vec<u8>)
    requires
        pos + count <= buf@.len(),
    ensures
        r@ == buf@.subrange(pos as int, pos as int + count as int),
{
    let buf_len: usize = buf.len();
    let mut r: Vec<u8> = Vec::new();
    let mut i: usize = 0;
    while i < count
        invariant
            i <= count,
            pos + count <= buf@.len(),
            buf@.len() == buf_len,
            r@ == buf@.subrange(pos as int, pos as int + i as int),
        decreases count - i,
    {
        r.push(buf[pos + i]);
        i += 1;
        proof {
            assert(r@ =~= buf@.subrange(pos as int, pos as int + i as int));
        }
    }
    r
}

/// Appends the four big-endian bytes of `v`.
pub fn push_be_u32(out: &mut Vec<u8>, v: u32)
    ensures
        final(out)@ == old(out)@ + be32_bytes(v),
{
    out.push((v / 0x1000000) as u8);
    out.push((v / 0x10000 % 0x100) as u8);
    out.push((v / 0x100 % 0x100) as u8);
    out.push((v % 0x100) as u8);
    proof {
        assert(out@ =~= old(out)@ + be32_bytes(v));
    }
}

} // verus!
