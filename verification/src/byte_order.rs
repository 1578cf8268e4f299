//! Little-endian encoding of the 16-bit parameters of the servo commands,
//! done by the `byteorder` crate.
use byteorder::{ByteOrder, LittleEndian};
use vstd::prelude::*;

verus! {

/// The two bytes of `n`, low byte first.
pub open spec fn u16_le_bytes(n: u16) -> Seq<u8> {
    seq![(n % 256) as u8, (n / 256) as u8]
}

/// The number whose low byte is `lo` and whose high byte is `hi`.
pub open spec fn u16_from_le(lo: u8, hi: u8) -> u16 {
    (lo + 256 * hi) as u16
}

/// The two's complement bit pattern of `n`, read as an unsigned number.
pub open spec fn i16_bits(n: i16) -> u16 {
    if n < 0 {
        (n + 0x10000) as u16
    } else {
        n as u16
    }
}

/// The two bytes of the two's complement form of `n`, low byte first.
pub open spec fn i16_le_bytes(n: i16) -> Seq<u8> {
    u16_le_bytes(i16_bits(n))
}

/// The signed number whose two's complement form has low byte `lo` and high byte `hi`.
pub open spec fn i16_from_le(lo: u8, hi: u8) -> i16 {
    let u = lo + 256 * hi;
    if u >= 0x8000 {
        (u - 0x10000) as i16
    } else {
        u as i16
    }
}

/// `LittleEndian::write_u16` of `byteorder`: stores `n` in the first two bytes
/// of the buffer, low byte first.
#[verifier::external_body]
pub(crate) fn write_u16_le(n: u16) -> (bytes: Vec<u8>)
    ensures
        bytes@ == u16_le_bytes(n),
{
    let mut buf = vec![0u8; 2];
    LittleEndian::write_u16(&mut buf, n);
    buf
}

/// `LittleEndian::read_u16` of `byteorder`: the number stored in the first two
/// bytes of the buffer, low byte first. It panics on a buffer of fewer than two bytes.
#[verifier::external_body]
pub(crate) fn read_u16_le(buf: &[u8]) -> (n: u16)
    requires
        buf@.len() >= 2,
    ensures
        n == u16_from_le(buf@[0], buf@[1]),
{
    LittleEndian::read_u16(buf)
}

/// `LittleEndian::write_i16` of `byteorder`: stores the two's complement form
/// of `n` in the first two bytes of the buffer, low byte first.
#[verifier::external_body]
pub(crate) fn write_i16_le(n: i16) -> (bytes: Vec<u8>)
    ensures
        bytes@ == i16_le_bytes(n),
{
    let mut buf = vec![0u8; 2];
    LittleEndian::write_i16(&mut buf, n);
    buf
}

/// `LittleEndian::read_i16` of `byteorder`: the signed number whose two's
/// complement form is stored in the first two bytes of the buffer, low byte
/// first. It panics on a buffer of fewer than two bytes.
#[verifier::external_body]
pub(crate) fn read_i16_le(buf: &[u8]) -> (n: i16)
    requires
        buf@.len() >= 2,
    ensures
        n == i16_from_le(buf@[0], buf@[1]),
{
    LittleEndian::read_i16(buf)
}

/// Reading back the two bytes that encode a 16-bit number gives that number.
pub proof fn lemma_u16_le_roundtrip(n: u16)
    ensures
        u16_from_le(u16_le_bytes(n)[0], u16_le_bytes(n)[1]) == n,
{
    assert((n % 256) + 256 * (n / 256) == n) by (nonlinear_arith);
}

/// Encoding the number read from two bytes gives back those two bytes.
pub proof fn lemma_u16_le_bytes_roundtrip(lo: u8, hi: u8)
    ensures
        u16_le_bytes(u16_from_le(lo, hi)) == seq![lo, hi],
{
    let u: int = lo + 256 * hi;
    assert(u % 256 == lo && u / 256 == hi) by (nonlinear_arith)
        requires
            u == lo + 256 * hi,
            0 <= lo < 256,
            0 <= hi < 256,
    ;
    assert(u16_le_bytes(u16_from_le(lo, hi)) =~= seq![lo, hi]);
}

/// Reading back the two bytes that encode a signed 16-bit number gives that number.
pub proof fn lemma_i16_le_roundtrip(n: i16)
    ensures
        i16_from_le(i16_le_bytes(n)[0], i16_le_bytes(n)[1]) == n,
{
    lemma_u16_le_roundtrip(i16_bits(n));
}

/// Encoding the signed number read from two bytes gives back those two bytes.
pub proof fn lemma_i16_le_bytes_roundtrip(lo: u8, hi: u8)
    ensures
        i16_le_bytes(i16_from_le(lo, hi)) == seq![lo, hi],
{
    lemma_u16_le_bytes_roundtrip(lo, hi);
}

} // verus!
