//! Big-endian ("network order") encoding of fixed-width integers, as used by
//! every file format of the sample store, and the machine-order encoding of
//! 64-bit integers that stack samples travel in.
use byteorder::{ByteOrder, NetworkEndian};
use vstd::prelude::*;

verus! {

/// The two bytes of `v`, most significant first.
pub open spec fn be_u16(v: u16) -> Seq<u8> {
    seq![(v >> 8u16) as u8, (v & 0xffu16) as u8]
}

/// The four bytes of `v`, most significant first.
pub open spec fn be_u32(v: u32) -> Seq<u8> {
    seq![
        (v >> 24u32) as u8,
        ((v >> 16u32) & 0xffu32) as u8,
        ((v >> 8u32) & 0xffu32) as u8,
        (v & 0xffu32) as u8,
    ]
}

/// The eight bytes of `v`, most significant first.
pub open spec fn be_u64(v: u64) -> Seq<u8> {
    seq![
        (v >> 56u64) as u8,
        ((v >> 48u64) & 0xffu64) as u8,
        ((v >> 40u64) & 0xffu64) as u8,
        ((v >> 32u64) & 0xffu64) as u8,
        ((v >> 24u64) & 0xffu64) as u8,
        ((v >> 16u64) & 0xffu64) as u8,
        ((v >> 8u64) & 0xffu64) as u8,
        (v & 0xffu64) as u8,
    ]
}

/// The number whose big-endian encoding is the first two bytes of `b`.
pub open spec fn from_be_u16(b: Seq<u8>) -> u16 {
    ((b[0] as u16) << 8u16) | (b[1] as u16)
}

/// The number whose big-endian encoding is the first four bytes of `b`.
pub open spec fn from_be_u32(b: Seq<u8>) -> u32 {
    ((b[0] as u32) << 24u32) | ((b[1] as u32) << 16u32) | ((b[2] as u32) << 8u32) | (b[3] as u32)
}

/// The number whose big-endian encoding is the first eight bytes of `b`.
pub open spec fn from_be_u64(b: Seq<u8>) -> u64 {
    ((b[0] as u64) << 56u64) | ((b[1] as u64) << 48u64) | ((b[2] as u64) << 40u64) | ((b[3] as u64)
        << 32u64) | ((b[4] as u64) << 24u64) | ((b[5] as u64) << 16u64) | ((b[6] as u64) << 8u64)
        | (b[7] as u64)
}

/// `byteorder::NetworkEndian::write_u16`: writes the big-endian bytes of `v`.
#[verifier::external_body]
pub(crate) fn be_bytes_u16(v: u16) -> (r: Vec<u8>)
    ensures
        r@ == be_u16(v),
{
    let mut buf = vec![0u8; 2];
    NetworkEndian::write_u16(&mut buf, v);
    buf
}

/// `byteorder::NetworkEndian::write_u32`: writes the big-endian bytes of `v`.
#[verifier::external_body]
pub(crate) fn be_bytes_u32(v: u32) -> (r: Vec<u8>)
    ensures
        r@ == be_u32(v),
{
    let mut buf = vec![0u8; 4];
    NetworkEndian::write_u32(&mut buf, v);
    buf
}

/// `byteorder::NetworkEndian::write_u64`: writes the big-endian bytes of `v`.
#[verifier::external_body]
pub(crate) fn be_bytes_u64(v: u64) -> (r: Vec<u8>)
    ensures
        r@ == be_u64(v),
{
    let mut buf = vec![0u8; 8];
    NetworkEndian::write_u64(&mut buf, v);
    buf
}

/// `byteorder::NetworkEndian::read_u16`: reads the big-endian number at `pos`.
#[verifier::external_body]
pub(crate) fn read_be_u16(buf: &[u8], pos: usize) -> (r: u16)
    requires
        pos + 2 <= buf@.len(),
    ensures
        r == from_be_u16(buf@.subrange(pos as int, pos + 2)),
{
    NetworkEndian::read_u16(&buf[pos..])
}

/// `byteorder::NetworkEndian::read_u32`: reads the big-endian number at `pos`.
#[verifier::external_body]
pub(crate) fn read_be_u32(buf: &[u8], pos: usize) -> (r: u32)
    requires
        pos + 4 <= buf@.len(),
    ensures
        r == from_be_u32(buf@.subrange(pos as int, pos + 4)),
{
    NetworkEndian::read_u32(&buf[pos..])
}

/// `byteorder::NetworkEndian::read_u64`: reads the big-endian number at `pos`.
#[verifier::external_body]
pub(crate) fn read_be_u64(buf: &[u8], pos: usize) -> (r: u64)
    requires
        pos + 8 <= buf@.len(),
    ensures
        r == from_be_u64(buf@.subrange(pos as int, pos + 8)),
{
    NetworkEndian::read_u64(&buf[pos..])
}

/// Decoding the encoding of a 16-bit number gives the number back.
pub proof fn lemma_be_u16_roundtrip(v: u16)
    ensures
        be_u16(v).len() == 2,
        from_be_u16(be_u16(v)) == v,
{
    let b = be_u16(v);
    assert(((((v >> 8u16) as u8) as u16) << 8u16) | (((v & 0xffu16) as u8) as u16) == v)
        by (bit_vector);
}

/// Decoding the encoding of a 32-bit number gives the number back.
pub proof fn lemma_be_u32_roundtrip(v: u32)
    ensures
        be_u32(v).len() == 4,
        from_be_u32(be_u32(v)) == v,
{
    assert(((((v >> 24u32) as u8) as u32) << 24u32) | (((((v >> 16u32) & 0xffu32) as u8) as u32)
        << 16u32) | (((((v >> 8u32) & 0xffu32) as u8) as u32) << 8u32) | (((v & 0xffu32) as u8) as u32)
        == v) by (bit_vector);
}

/// Decoding the encoding of a 64-bit number gives the number back.
pub proof fn lemma_be_u64_roundtrip(v: u64)
    ensures
        be_u64(v).len() == 8,
        from_be_u64(be_u64(v)) == v,
{
    assert(((((v >> 56u64) as u8) as u64) << 56u64) | (((((v >> 48u64) & 0xffu64) as u8) as u64)
        << 48u64) | (((((v >> 40u64) & 0xffu64) as u8) as u64) << 40u64) | (((((v >> 32u64)
        & 0xffu64) as u8) as u64) << 32u64) | (((((v >> 24u64) & 0xffu64) as u8) as u64) << 24u64)
        | (((((v >> 16u64) & 0xffu64) as u8) as u64) << 16u64) | (((((v >> 8u64) & 0xffu64) as u8)
        as u64) << 8u64) | (((v & 0xffu64) as u8) as u64) == v) by (bit_vector);
}

/// The eight bytes of `v` in the byte order of the machine the code runs on
/// (`vstd::endian::endianness()`): least significant first on a
/// little-endian machine, most significant first on a big-endian one.
pub open spec fn ne_u64(v: u64) -> Seq<u8> {
    match vstd::endian::endianness() {
        vstd::endian::Endian::Little => be_u64(v).reverse(),
        vstd::endian::Endian::Big => be_u64(v),
    }
}

/// Two numbers with the same machine-order bytes are equal.
pub proof fn lemma_ne_u64_injective(x: u64, y: u64)
    requires
        ne_u64(x) == ne_u64(y),
    ensures
        x == y,
{
    lemma_be_u64_roundtrip(x);
    lemma_be_u64_roundtrip(y);
    assert(be_u64(x).reverse().reverse() =~= be_u64(x));
    assert(be_u64(y).reverse().reverse() =~= be_u64(y));
    assert(be_u64(x) == be_u64(y));
}

/// `i64::to_ne_bytes`: the eight bytes of `v` in the machine's byte order,
/// the order of the hardware the code runs on (`ne_u64`), the same for
/// every call.
#[verifier::external_body]
pub(crate) fn ne_bytes_i64(v: i64) -> (r: Vec<u8>)
    ensures
        r@ == be_u64(v as u64) || r@ == be_u64(v as u64).reverse(),
        r@ == ne_u64(v as u64),
{
    v.to_ne_bytes().to_vec()
}

/// `i64::from_ne_bytes` on the eight bytes at `pos`: the number they encode
/// in the machine's byte order, the one whose `to_ne_bytes` they are
/// (`ne_u64`).
#[verifier::external_body]
pub(crate) fn read_ne_i64(buf: &[u8], pos: usize) -> (r: i64)
    requires
        pos + 8 <= buf@.len(),
    ensures
        r as u64 == from_be_u64(buf@.subrange(pos as int, pos + 8)) || r as u64 == from_be_u64(
            buf@.subrange(pos as int, pos + 8).reverse(),
        ),
        buf@.subrange(pos as int, pos + 8) == ne_u64(r as u64),
{
    let mut b = [0u8; 8];
    b.copy_from_slice(&buf[pos..pos + 8]);
    i64::from_ne_bytes(b)
}

} // verus!
