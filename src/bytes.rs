//! Big- and little-endian integer fields inside byte sequences.

use vstd::prelude::*;

verus! {

/// Big-endian value of the two bytes of `b` at `i`.
pub open spec fn be16(b: Seq<u8>, i: int) -> nat {
    (b[i] as nat) * 256 + (b[i + 1] as nat)
}

/// Big-endian value of the three bytes of `b` at `i`.
pub open spec fn be24(b: Seq<u8>, i: int) -> nat {
    (b[i] as nat) * 65536 + (b[i + 1] as nat) * 256 + (b[i + 2] as nat)
}

/// Big-endian value of the four bytes of `b` at `i`.
pub open spec fn be32(b: Seq<u8>, i: int) -> nat {
    (b[i] as nat) * 16777216 + (b[i + 1] as nat) * 65536 + (b[i + 2] as nat) * 256 + (
    b[i + 3] as nat)
}

/// Little-endian value of the four bytes of `b` at `i`.
pub open spec fn le32(b: Seq<u8>, i: int) -> nat {
    (b[i + 3] as nat) * 16777216 + (b[i + 2] as nat) * 65536 + (b[i + 1] as nat) * 256 + (
    b[i] as nat)
}

/// Big-endian value of the eight bytes of `b` at `i`.
pub open spec fn be64(b: Seq<u8>, i: int) -> nat {
    be32(b, i) * 0x1_0000_0000 + be32(b, i + 4)
}

/// The eight bytes that hold `v` (below 2^64) big-endian.
pub open spec fn be64_bytes(v: nat) -> Seq<u8> {
    be32_bytes(v / 0x1_0000_0000) + be32_bytes(v % 0x1_0000_0000)
}

/// The two bytes that hold `v` (below 2^16) big-endian.
pub open spec fn be16_bytes(v: nat) -> Seq<u8> {
    seq![(v / 256 % 256) as u8, (v % 256) as u8]
}

/// The three bytes that hold `v` (below 2^24) big-endian.
pub open spec fn be24_bytes(v: nat) -> Seq<u8> {
    seq![(v / 65536 % 256) as u8, (v / 256 % 256) as u8, (v % 256) as u8]
}

/// The four bytes that hold `v` (below 2^32) big-endian.
pub open spec fn be32_bytes(v: nat) -> Seq<u8> {
    seq![(v / 16777216 % 256) as u8, (v / 65536 % 256) as u8, (v / 256 % 256) as u8, (v
        % 256) as u8]
}

/// The four bytes that hold `v` (below 2^32) little-endian.
pub open spec fn le32_bytes(v: nat) -> Seq<u8> {
    seq![(v % 256) as u8, (v / 256 % 256) as u8, (v / 65536 % 256) as u8, (v / 16777216
        % 256) as u8]
}

/// Reading back the big-endian bytes of a 16-bit value gives the value.
pub proof fn lemma_be16_round_trip(v: u16)
    ensures
        be16(be16_bytes(v as nat), 0) == v,
{
    assert(((v / 256) % 256) * 256 + v % 256 == v) by (bit_vector);
}

/// Reading back the big-endian bytes of a 24-bit value gives the value.
pub proof fn lemma_be24_round_trip(v: u32)
    requires
        v < 0x1000000,
    ensures
        be24(be24_bytes(v as nat), 0) == v,
{
    assert(v < 0x1000000 ==> ((v / 65536) % 256) * 65536 + ((v / 256) % 256) * 256 + v % 256
        == v) by (bit_vector);
}

/// Reading back the big-endian bytes of a 32-bit value gives the value.
pub proof fn lemma_be32_round_trip(v: u32)
    ensures
        be32(be32_bytes(v as nat), 0) == v,
{
    assert(((v / 16777216) % 256) * 16777216 + ((v / 65536) % 256) * 65536 + ((v / 256) % 256)
        * 256 + v % 256 == v) by (bit_vector);
}

/// Reading back the little-endian bytes of a 32-bit value gives the value.
pub proof fn lemma_le32_round_trip(v: u32)
    ensures
        le32(le32_bytes(v as nat), 0) == v,
{
    assert(((v / 16777216) % 256) * 16777216 + ((v / 65536) % 256) * 65536 + ((v / 256) % 256)
        * 256 + v % 256 == v) by (bit_vector);
}

/// Reads the big-endian 16-bit field of `b` at `i`.
pub fn read_be16(b: &[u8], i: usize) -> (r: u16)
    requires
        i + 2 <= b.len(),
    ensures
        r as nat == be16(b@, i as int),
{
    (b[i] as u16) * 256 + (b[i + 1] as u16)
}

/// Reads the big-endian 24-bit field of `b` at `i`.
pub fn read_be24(b: &[u8], i: usize) -> (r: u32)
    requires
        i + 3 <= b.len(),
    ensures
        r as nat == be24(b@, i as int),
        r < 0x1000000,
{
    (b[i] as u32) * 65536 + (b[i + 1] as u32) * 256 + (b[i + 2] as u32)
}

/// Reads the big-endian 32-bit field of `b` at `i`.
pub fn read_be32(b: &[u8], i: usize) -> (r: u32)
    requires
        i + 4 <= b.len(),
    ensures
        r as nat == be32(b@, i as int),
{
    (b[i] as u32) * 16777216 + (b[i + 1] as u32) * 65536 + (b[i + 2] as u32) * 256 + (b[i
        + 3] as u32)
}

/// Reads the little-endian 32-bit field of `b` at `i`.
pub fn read_le32(b: &[u8], i: usize) -> (r: u32)
    requires
        i + 4 <= b.len(),
    ensures
        r as nat == le32(b@, i as int),
{
    (b[i + 3] as u32) * 16777216 + (b[i + 2] as u32) * 65536 + (b[i + 1] as u32) * 256 + (b[i]
        as u32)
}

/// Appends `v` as two big-endian bytes.
pub fn push_be16(out: &mut Vec<u8>, v: u16)
    ensures
        final(out)@ == old(out)@ + be16_bytes(v as nat),
{
    out.push((v / 256) as u8);
    out.push((v % 256) as u8);
    assert(final(out)@ =~= old(out)@ + be16_bytes(v as nat));
}

/// Appends the low 24 bits of `v` as three big-endian bytes.
pub fn push_be24(out: &mut Vec<u8>, v: u32)
    ensures
        final(out)@ == old(out)@ + be24_bytes(v as nat % 0x1000000),
{
    let w = v % 0x1000000;
    out.push((w / 65536 % 256) as u8);
    out.push((w / 256 % 256) as u8);
    out.push((w % 256) as u8);
    assert(final(out)@ =~= old(out)@ + be24_bytes(v as nat % 0x1000000));
}

/// Appends `v` as four big-endian bytes.
pub fn push_be32(out: &mut Vec<u8>, v: u32)
    ensures
        final(out)@ == old(out)@ + be32_bytes(v as nat),
{
    out.push((v / 16777216 % 256) as u8);
    out.push((v / 65536 % 256) as u8);
    out.push((v / 256 % 256) as u8);
    out.push((v % 256) as u8);
    assert(final(out)@ =~= old(out)@ + be32_bytes(v as nat));
}

/// Appends `v` as eight big-endian bytes.
pub fn push_be64(out: &mut Vec<u8>, v: u64)
    ensures
        final(out)@ == old(out)@ + be64_bytes(v as nat),
{
    push_be32(out, (v / 0x1_0000_0000) as u32);
    push_be32(out, (v % 0x1_0000_0000) as u32);
    assert(final(out)@ =~= old(out)@ + be64_bytes(v as nat));
}

/// Reads the big-endian 64-bit field of `b` at `i`.
pub fn read_be64(b: &[u8], i: usize) -> (r: u64)
    requires
        i + 8 <= b.len(),
    ensures
        r as nat == be64(b@, i as int),
{
    let hi = read_be32(b, i);
    let lo = read_be32(b, i + 4);
    (hi as u64) * 0x1_0000_0000 + (lo as u64)
}

/// Appends `v` as four little-endian bytes.
pub fn push_le32(out: &mut Vec<u8>, v: u32)
    ensures
        final(out)@ == old(out)@ + le32_bytes(v as nat),
{
    out.push((v % 256) as u8);
    out.push((v / 256 % 256) as u8);
    out.push((v / 65536 % 256) as u8);
    out.push((v / 16777216 % 256) as u8);
    assert(final(out)@ =~= old(out)@ + le32_bytes(v as nat));
}

/// Appends all of `src` to `out`.
pub fn push_all(out: &mut Vec<u8>, src: &[u8])
    ensures
        final(out)@ == old(out)@ + src@,
{
    let mut i: usize = 0;
    while i < src.len()
        invariant
            i <= src@.len(),
            out@ == old(out)@ + src@.subrange(0, i as int),
        decreases src@.len() - i,
    {
        out.push(src[i]);
        i = i + 1;
        assert(out@ =~= old(out)@ + src@.subrange(0, i as int));
    }
    assert(src@.subrange(0, i as int) =~= src@);
}

/// The bytes of `src` from `from` up to `to`.
pub fn copy_range(src: &[u8], from: usize, to: usize) -> (r: Vec<u8>)
    requires
        from <= to <= src@.len(),
    ensures
        r@ == src@.subrange(from as int, to as int),
{
    let mut out: Vec<u8> = Vec::new();
    let mut i: usize = from;
    while i < to
        invariant
            from <= i <= to <= src@.len(),
            out@ == src@.subrange(from as int, i as int),
        decreases to - i,
    {
        out.push(src[i]);
        i = i + 1;
        assert(out@ =~= src@.subrange(from as int, i as int));
    }
    out
}

} // verus!
