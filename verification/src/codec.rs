//! Serialised forms of plain values: what the `bincode` crate writes and reads.

use crate::bytes::{bytes_are_digits, from_le16, from_le32, le16, le32, little_endian_inverse};
use vstd::prelude::*;

verus! {

/// A 64-bit length in eight little-endian bytes.
pub open spec fn le64(v: u64) -> Seq<u8> {
    le32((v & 0xFFFF_FFFF) as u32) + le32((v >> 32) as u32)
}

/// The 64-bit number at the start of `s`.
pub open spec fn from_le64(s: Seq<u8>) -> u64 {
    (from_le32(s[0], s[1], s[2], s[3]) as u64) | ((from_le32(s[4], s[5], s[6], s[7]) as u64) << 32)
}

/// The eight little-endian bytes of a 64-bit number.
pub fn le64_bytes(v: u64) -> (r: Vec<u8>)
    ensures
        r@ == le64(v),
{
    let lo: u32 = (v & 0xFFFF_FFFF) as u32;
    let hi: u32 = (v >> 32) as u32;
    let r = vec![
        (lo & 0xFF) as u8,
        ((lo >> 8) & 0xFF) as u8,
        ((lo >> 16) & 0xFF) as u8,
        (lo >> 24) as u8,
        (hi & 0xFF) as u8,
        ((hi >> 8) & 0xFF) as u8,
        ((hi >> 16) & 0xFF) as u8,
        (hi >> 24) as u8,
    ];
    assert(r@ =~= le64(v));
    r
}

/// `bincode::serialize` on a byte, a word and a pair of words: the fields in order,
/// little-endian and of fixed width, with nothing between them.
#[verifier::external_body]
pub(crate) fn serialize_registers(v: (u8, u16, [u16; 2])) -> (r: Vec<u8>)
    ensures
        r@ == seq![v.0] + le16(v.1) + le16(v.2[0]) + le16(v.2[1]),
{
    bincode::serialize(&v).unwrap_or_default()
}

/// `bincode::deserialize` to a byte, a word and a pair of words: succeeds exactly on
/// seven bytes or more, reads the first seven and ignores what follows.
#[verifier::external_body]
pub(crate) fn deserialize_registers(data: &[u8]) -> (r: Option<(u8, u16, [u16; 2])>)
    ensures
        r is Some <==> data@.len() >= 7,
        r matches Some(v) ==> {
            &&& v.0 == data@[0]
            &&& v.1 == from_le16(data@[1], data@[2])
            &&& v.2[0] == from_le16(data@[3], data@[4])
            &&& v.2[1] == from_le16(data@[5], data@[6])
        },
{
    bincode::deserialize(data).ok()
}

/// `bincode::serialize` on a 32-bit number: its four little-endian bytes.
#[verifier::external_body]
pub(crate) fn serialize_u32(v: u32) -> (r: Vec<u8>)
    ensures
        r@ == le32(v),
{
    bincode::serialize(&v).unwrap_or_default()
}

/// `bincode::deserialize` to a 32-bit number: succeeds exactly on four bytes or more,
/// reads the first four and ignores what follows.
#[verifier::external_body]
pub(crate) fn deserialize_u32(data: &[u8]) -> (r: Option<u32>)
    ensures
        r is Some <==> data@.len() >= 4,
        r matches Some(v) ==> v == from_le32(data@[0], data@[1], data@[2], data@[3]),
{
    bincode::deserialize(data).ok()
}

/// `bincode::serialize` on a byte vector: its length in eight little-endian bytes, then
/// the bytes.
#[verifier::external_body]
pub(crate) fn serialize_byte_vec(v: &Vec<u8>) -> (r: Vec<u8>)
    ensures
        r@ == le64(v@.len() as u64) + v@,
{
    bincode::serialize(v).unwrap_or_default()
}

/// `bincode::deserialize` to a byte vector: succeeds exactly where eight length bytes are
/// followed by at least as many bytes as they say, gives those and ignores what follows.
#[verifier::external_body]
pub(crate) fn deserialize_byte_vec(data: &[u8]) -> (r: Option<Vec<u8>>)
    ensures
        r is Some <==> (data@.len() >= 8 && from_le64(data@) <= data@.len() - 8),
        r matches Some(v) ==> v@ == data@.subrange(8, 8 + from_le64(data@)),
{
    bincode::deserialize(data).ok()
}

/// A length in bytes: lowest byte first, each worth 256 times the one before it.
pub proof fn length_is_little_endian(v: u64, s: Seq<u8>)
    requires
        s.len() >= 8,
    ensures
        le64(v).len() == 8,
        le64(v)[0] + 0x100 * le64(v)[1] + 0x1_0000 * le64(v)[2] + 0x100_0000 * le64(v)[3] + 0x1_0000_0000 * (le64(v)[4]
            + 0x100 * le64(v)[5] + 0x1_0000 * le64(v)[6] + 0x100_0000 * le64(v)[7]) == v,
        from_le64(s) == s[0] + 0x100 * s[1] + 0x1_0000 * s[2] + 0x100_0000 * s[3] + 0x1_0000_0000 * (s[4] + 0x100 * s[5]
            + 0x1_0000 * s[6] + 0x100_0000 * s[7]),
{
    let lo = (v & 0xFFFF_FFFF) as u32;
    let hi = (v >> 32) as u32;
    let (a, b) = (from_le32(s[0], s[1], s[2], s[3]), from_le32(s[4], s[5], s[6], s[7]));
    assert((v & 0xFFFF_FFFF) as u32 + 0x1_0000_0000 * (v >> 32) as u32 == v && (a as u64) | ((b as u64) << 32) == a
        + 0x1_0000_0000 * b) by (bit_vector);
    bytes_add_up(lo);
    bytes_add_up(hi);
    bytes_are_digits(0, 0, s[0], s[1], s[2], s[3]);
    bytes_are_digits(0, 0, s[4], s[5], s[6], s[7]);
}

proof fn bytes_add_up(w: u32)
    ensures
        le32(w)[0] + 0x100 * le32(w)[1] + 0x1_0000 * le32(w)[2] + 0x100_0000 * le32(w)[3] == w,
{
    little_endian_inverse(0, w);
    bytes_are_digits(0, 0, le32(w)[0], le32(w)[1], le32(w)[2], le32(w)[3]);
}

/// A length reads back from its eight bytes, whatever follows them.
pub proof fn length_prefix_inverse(n: u64, rest: Seq<u8>)
    ensures
        from_le64(le64(n) + rest) == n,
        (le64(n) + rest).len() == 8 + rest.len(),
{
    length_is_little_endian(n, le64(n) + rest);
}

} // verus!
