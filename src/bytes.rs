//! Little-endian integers: their byte form as spec functions, and the
//! `byteorder` calls that read and write them.
use byteorder::{ByteOrder, LittleEndian};
use vstd::prelude::*;

verus! {

/// The value of the two bytes at the start of `s`, least significant first.
pub open spec fn le_u16(s: Seq<u8>) -> nat {
    (s[0] + 0x100 * s[1]) as nat
}

/// The value of the four bytes at the start of `s`, least significant first.
pub open spec fn le_u32(s: Seq<u8>) -> nat {
    (s[0] + 0x100 * s[1] + 0x1_0000 * s[2] + 0x100_0000 * s[3]) as nat
}

/// The value of the eight bytes at the start of `s`, least significant first.
pub open spec fn le_u64(s: Seq<u8>) -> nat {
    (le_u32(s) + 0x1_0000_0000 * le_u32(s.subrange(4, 8))) as nat
}

/// The two bytes of `v`, least significant first.
#[verifier::opaque]
pub open spec fn u16_bytes(v: u16) -> Seq<u8> {
    seq![(v % 0x100) as u8, (v / 0x100) as u8]
}

/// The four bytes of `v`, least significant first.
#[verifier::opaque]
pub open spec fn u32_bytes(v: u32) -> Seq<u8> {
    seq![
        (v % 0x100) as u8,
        (v / 0x100 % 0x100) as u8,
        (v / 0x1_0000 % 0x100) as u8,
        (v / 0x100_0000 % 0x100) as u8,
    ]
}

/// The eight bytes of `v`, least significant first.
#[verifier::opaque]
pub open spec fn u64_bytes(v: u64) -> Seq<u8> {
    u32_bytes((v % 0x1_0000_0000) as u32) + u32_bytes((v / 0x1_0000_0000) as u32)
}

/// The stored form of a `u16` is two bytes long.
pub broadcast proof fn lemma_u16_bytes_len(v: u16)
    ensures
        #[trigger] u16_bytes(v).len() == 2,
{
    reveal(u16_bytes);
}

/// The stored form of a `u32` is four bytes long.
pub broadcast proof fn lemma_u32_bytes_len(v: u32)
    ensures
        #[trigger] u32_bytes(v).len() == 4,
{
    reveal(u32_bytes);
}

/// The stored form of a `u64` is eight bytes long.
pub broadcast proof fn lemma_u64_bytes_len(v: u64)
    ensures
        #[trigger] u64_bytes(v).len() == 8,
{
    reveal(u64_bytes);
    lemma_u32_bytes_len((v % 0x1_0000_0000) as u32);
    lemma_u32_bytes_len((v / 0x1_0000_0000) as u32);
}

pub broadcast group group_int_bytes_len {
    lemma_u16_bytes_len,
    lemma_u32_bytes_len,
    lemma_u64_bytes_len,
}

/// Reading back the bytes of a `u16` gives the `u16`.
pub proof fn lemma_u16_bytes_read(v: u16)
    ensures
        u16_bytes(v).len() == 2,
        le_u16(u16_bytes(v)) == v,
{
    reveal(u16_bytes);
    assert(v % 0x100 + 0x100 * (v / 0x100) == v) by (bit_vector);
}

/// Reading back the bytes of a `u32` gives the `u32`.
pub proof fn lemma_u32_bytes_read(v: u32)
    ensures
        u32_bytes(v).len() == 4,
        le_u32(u32_bytes(v)) == v,
{
    reveal(u32_bytes);
    assert(v % 0x100 + 0x100 * (v / 0x100 % 0x100) + 0x1_0000 * (v / 0x1_0000 % 0x100) + 0x100_0000 * (
    v / 0x100_0000 % 0x100) == v) by (bit_vector);
}

/// Reading back the bytes of a `u64` gives the `u64`.
pub proof fn lemma_u64_bytes_read(v: u64)
    ensures
        u64_bytes(v).len() == 8,
        le_u64(u64_bytes(v)) == v,
{
    reveal(u64_bytes);
    let lo = (v % 0x1_0000_0000) as u32;
    let hi = (v / 0x1_0000_0000) as u32;
    lemma_u32_bytes_read(lo);
    lemma_u32_bytes_read(hi);
    assert(u64_bytes(v).subrange(4, 8) =~= u32_bytes(hi));
    assert(u64_bytes(v).subrange(0, 4) =~= u32_bytes(lo));
    assert(le_u32(u64_bytes(v)) == le_u32(u64_bytes(v).subrange(0, 4)));
    assert(v % 0x1_0000_0000 + 0x1_0000_0000 * (v / 0x1_0000_0000) == v) by (bit_vector);
}

/// Relies on `byteorder::LittleEndian::read_u16`: the first two bytes of
/// `buf`, least significant first. It panics on fewer than two bytes.
#[verifier::external_body]
pub(crate) fn read_u16(buf: &[u8]) -> (r: u16)
    requires
        buf@.len() >= 2,
    ensures
        r == le_u16(buf@),
{
    LittleEndian::read_u16(buf)
}

/// Relies on `byteorder::LittleEndian::read_u32`: the first four bytes of
/// `buf`, least significant first. It panics on fewer than four bytes.
#[verifier::external_body]
pub(crate) fn read_u32(buf: &[u8]) -> (r: u32)
    requires
        buf@.len() >= 4,
    ensures
        r == le_u32(buf@),
{
    LittleEndian::read_u32(buf)
}

/// Relies on `byteorder::LittleEndian::read_u64`: the first eight bytes of
/// `buf`, least significant first. It panics on fewer than eight bytes.
#[verifier::external_body]
pub(crate) fn read_u64(buf: &[u8]) -> (r: u64)
    requires
        buf@.len() >= 8,
    ensures
        r == le_u64(buf@),
{
    LittleEndian::read_u64(buf)
}

/// Relies on `byteorder::LittleEndian::write_u32`: it stores `v` in the first
/// four bytes of the buffer, least significant first.
#[verifier::external_body]
fn u32_to_le(v: u32) -> (r: [u8; 4])
    ensures
        r@ == u32_bytes(v),
{
    let mut buf = [0u8; 4];
    LittleEndian::write_u32(&mut buf, v);
    buf
}

/// Relies on `byteorder::LittleEndian::write_u64`: it stores `v` in the first
/// eight bytes of the buffer, least significant first.
#[verifier::external_body]
fn u64_to_le(v: u64) -> (r: [u8; 8])
    ensures
        r@ == u64_bytes(v),
{
    let mut buf = [0u8; 8];
    LittleEndian::write_u64(&mut buf, v);
    buf
}

/// Appends the little-endian bytes of `v` to `out`.
pub(crate) fn push_u32(out: &mut Vec<u8>, v: u32)
    ensures
        final(out)@ == old(out)@ + u32_bytes(v),
{
    let b = u32_to_le(v);
    out.push(b[0]);
    out.push(b[1]);
    out.push(b[2]);
    out.push(b[3]);
    assert(out@ =~= old(out)@ + u32_bytes(v));
}

/// Appends the little-endian bytes of `v` to `out`.
pub(crate) fn push_u64(out: &mut Vec<u8>, v: u64)
    ensures
        final(out)@ == old(out)@ + u64_bytes(v),
{
    let b = u64_to_le(v);
    let mut i: usize = 0;
    while i < 8
        invariant
            i <= 8,
            b@ == u64_bytes(v),
            out@ == old(out)@ + b@.subrange(0, i as int),
        decreases 8 - i,
    {
        out.push(b[i]);
        i = i + 1;
        assert(out@ =~= old(out)@ + b@.subrange(0, i as int));
    }
    assert(b@.subrange(0, 8) =~= b@);
}

} // verus!
