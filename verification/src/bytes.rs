use vstd::prelude::*;

verus! {

/// The big-endian value of four bytes.
pub open spec fn be32(b0: u8, b1: u8, b2: u8, b3: u8) -> nat {
    b0 as nat * 16777216 + b1 as nat * 65536 + b2 as nat * 256 + b3 as nat
}

/// The big-endian value of three bytes.
pub open spec fn be24(b0: u8, b1: u8, b2: u8) -> nat {
    b0 as nat * 65536 + b1 as nat * 256 + b2 as nat
}

/// The four big-endian bytes of `v`.
pub open spec fn be32_bytes(v: u32) -> Seq<u8> {
    seq![(v / 16777216) as u8, ((v / 65536) % 256) as u8, ((v / 256) % 256) as u8, (v % 256) as u8]
}

/// Reads the big-endian `u32` at `s[i..i + 4]`.
pub fn read_be_u32(s: &[u8], i: usize) -> (r: u32)
    requires
        i + 4 <= s@.len(),
    ensures
        r as nat == be32(s@[i as int], s@[i + 1], s@[i + 2], s@[i + 3]),
{
    let b0 = s[i];
    let b1 = s[i + 1];
    let b2 = s[i + 2];
    let b3 = s[i + 3];
    let r = ((b0 as u32) << 24u32) | ((b1 as u32) << 16u32) | ((b2 as u32) << 8u32) | (b3 as u32);
    assert(r == (b0 as u32) * 16777216u32 + (b1 as u32) * 65536u32 + (b2 as u32) * 256u32 + (b3 as u32))
        by (bit_vector)
        requires
            r == ((b0 as u32) << 24u32) | ((b1 as u32) << 16u32) | ((b2 as u32) << 8u32) | (b3 as u32),
    ;
    r
}

/// Reads the big-endian 24-bit value at `s[i..i + 3]`.
pub fn read_be_u24(s: &[u8], i: usize) -> (r: u32)
    requires
        i + 3 <= s@.len(),
    ensures
        r as nat == be24(s@[i as int], s@[i + 1], s@[i + 2]),
        r < 16777216,
{
    let b0 = s[i];
    let b1 = s[i + 1];
    let b2 = s[i + 2];
    let r = ((b0 as u32) << 16u32) | ((b1 as u32) << 8u32) | (b2 as u32);
    assert(r == (b0 as u32) * 65536u32 + (b1 as u32) * 256u32 + (b2 as u32))
        by (bit_vector)
        requires
            r == ((b0 as u32) << 16u32) | ((b1 as u32) << 8u32) | (b2 as u32),
    ;
    r
}

/// Appends the four big-endian bytes of `v` to `out`.
pub fn push_be_u32(out: &mut Vec<u8>, v: u32)
    ensures
        final(out)@ == old(out)@ + be32_bytes(v),
{
    let b0 = (v >> 24u32) as u8;
    let b1 = ((v >> 16u32) & 0xff) as u8;
    let b2 = ((v >> 8u32) & 0xff) as u8;
    let b3 = (v & 0xff) as u8;
    assert(b0 == (v / 16777216) as u8 && b1 == ((v / 65536) % 256) as u8
        && b2 == ((v / 256) % 256) as u8 && b3 == (v % 256) as u8) by (bit_vector)
        requires
            b0 == (v >> 24u32) as u8,
            b1 == ((v >> 16u32) & 0xff) as u8,
            b2 == ((v >> 8u32) & 0xff) as u8,
            b3 == (v & 0xff) as u8,
    ;
    out.push(b0);
    out.push(b1);
    out.push(b2);
    out.push(b3);
    assert(final(out)@ =~= old(out)@ + be32_bytes(v)) by {
        assert(out@ =~= old(out)@ + seq![b0, b1, b2, b3]);
    }
}

/// Reading back the four big-endian bytes of `v` gives `v`.
pub proof fn lemma_be32_roundtrip(v: u32)
    ensures
        be32(be32_bytes(v)[0], be32_bytes(v)[1], be32_bytes(v)[2], be32_bytes(v)[3]) == v,
{
    let x0: u32 = v / 16777216;
    let x1: u32 = (v / 65536) % 256;
    let x2: u32 = (v / 256) % 256;
    let x3: u32 = v % 256;
    assert(x0 < 256 && x0 * 16777216 + x1 * 65536 + x2 * 256 + x3 == v) by (bit_vector)
        requires
            x0 == v / 16777216,
            x1 == (v / 65536) % 256,
            x2 == (v / 256) % 256,
            x3 == v % 256,
    ;
}

/// Appends `src[from..to]` to `out`.
pub fn push_range(out: &mut Vec<u8>, src: &[u8], from: usize, to: usize)
    requires
        from <= to <= src@.len(),
    ensures
        final(out)@ == old(out)@ + src@.subrange(from as int, to as int),
{
    let mut i = from;
    while i < to
        invariant
            from <= i <= to,
            to <= src@.len(),
            out@ == old(out)@ + src@.subrange(from as int, i as int),
        decreases to - i,
    {
        out.push(src[i]);
        assert(src@.subrange(from as int, i + 1) =~= src@.subrange(from as int, i as int).push(src@[i as int]));
        i += 1;
    }
}

} // verus!
