//! Byte-level helpers shared by the ROM and save formats.

use crate::bits::{halves, low_bits_are_remainders, shifts_are_digits};
use vstd::prelude::*;

verus! {

/// Little-endian bytes of a 16-bit number.
pub open spec fn le16(v: u16) -> Seq<u8> {
    seq![(v & 0xFF) as u8, (v >> 8) as u8]
}

/// Little-endian bytes of a 32-bit number.
pub open spec fn le32(v: u32) -> Seq<u8> {
    seq![(v & 0xFF) as u8, ((v >> 8) & 0xFF) as u8, ((v >> 16) & 0xFF) as u8, (v >> 24) as u8]
}

/// The 16-bit number of two little-endian bytes.
pub open spec fn from_le16(lo: u8, hi: u8) -> u16 {
    (lo as u16) | ((hi as u16) << 8)
}

/// The 32-bit number of four little-endian bytes.
pub open spec fn from_le32(b0: u8, b1: u8, b2: u8, b3: u8) -> u32 {
    (b0 as u32) | ((b1 as u32) << 8) | ((b2 as u32) << 16) | ((b3 as u32) << 24)
}

/// The 16-bit number of two big-endian bytes.
pub open spec fn be16(hi: u8, lo: u8) -> u16 {
    ((hi as u16) << 8) | (lo as u16)
}

/// The 32-bit number of four big-endian bytes.
pub open spec fn be32(b0: u8, b1: u8, b2: u8, b3: u8) -> u32 {
    ((b0 as u32) << 24) | ((b1 as u32) << 16) | ((b2 as u32) << 8) | (b3 as u32)
}

/// The bytes of every 16-bit word exchanged; an odd byte at the end stays.
pub open spec fn pairs_swapped(s: Seq<u8>) -> Seq<u8> {
    Seq::new(
        s.len(),
        |i: int|
            if i % 2 == 1 {
                s[i - 1]
            } else if i + 1 < s.len() {
                s[i + 1]
            } else {
                s[i]
            },
    )
}

/// Exchange the bytes of every 16-bit word in place.
pub fn swap_pairs(data: &mut Vec<u8>)
    ensures
        final(data)@ == pairs_swapped(old(data)@),
{
    let n: usize = data.len();
    let mut i: usize = 0;
    while i + 1 < n
        invariant
            n == data@.len(),
            n == old(data)@.len(),
            i <= n,
            i % 2 == 0,
            forall|k: int| 0 <= k < i ==> data@[k] == pairs_swapped(old(data)@)[k],
            forall|k: int| i <= k < n ==> data@[k] == old(data)@[k],
        decreases n - i,
    {
        let a: u8 = data[i];
        let b: u8 = data[i + 1];
        data.set(i, b);
        data.set(i + 1, a);
        if n - i <= 3 {
            i = if n - i == 3 { n - 1 } else { n };
        } else {
            i = i + 2;
        }
    }
    assert(data@ =~= pairs_swapped(old(data)@));
}

/// Whether two byte slices hold the same bytes.
pub fn same_bytes(a: &[u8], b: &[u8]) -> (r: bool)
    ensures
        r == (a@ == b@),
{
    if a.len() != b.len() {
        return false;
    }
    let mut i: usize = 0;
    while i < a.len()
        invariant
            a@.len() == b@.len(),
            i <= a@.len(),
            forall|k: int| 0 <= k < i ==> a@[k] == b@[k],
        decreases a@.len() - i,
    {
        if a[i] != b[i] {
            return false;
        }
        i = i + 1;
    }
    assert(a@ =~= b@);
    true
}

/// A copy of a byte slice.
pub fn copied(data: &[u8]) -> (r: Vec<u8>)
    ensures
        r@ == data@,
{
    vstd::slice::slice_to_vec(data)
}

/// Exchanging the bytes of every word twice changes nothing.
pub proof fn swap_pairs_twice(s: Seq<u8>)
    ensures
        pairs_swapped(pairs_swapped(s)) == s,
{
    assert(pairs_swapped(pairs_swapped(s)) =~= s);
}

/// The two bytes of a word, high one first, make the word again.
pub proof fn split_word(v: u16)
    ensures
        ((((v >> 8) as u8) as u16) << 8) | (((v & 0xFF) as u8) as u16) == v,
        be16((v >> 8) as u8, v as u8) == v,
{
    halves(v, 0, 0);
    shifts_are_digits();
    low_bits_are_remainders();
}

/// Numbers in bytes: the lowest byte first where they are little-endian, the highest first where
/// they are big-endian, each worth 256 times the one below it.
pub proof fn bytes_are_digits(v: u16, w: u32, b0: u8, b1: u8, b2: u8, b3: u8)
    ensures
        le16(v)[0] == v % 0x100,
        le16(v)[1] == v / 0x100,
        le32(w)[0] == w % 0x100,
        le32(w)[1] == (w / 0x100) % 0x100,
        le32(w)[2] == (w / 0x1_0000) % 0x100,
        le32(w)[3] == w / 0x100_0000,
        from_le16(b0, b1) == b0 + 0x100 * b1,
        from_le32(b0, b1, b2, b3) == b0 + 0x100 * b1 + 0x1_0000 * b2 + 0x100_0000 * b3,
        be16(b0, b1) == 0x100 * b0 + b1,
        be32(b0, b1, b2, b3) == 0x100_0000 * b0 + 0x1_0000 * b1 + 0x100 * b2 + b3,
{
    assert((v & 0xFF) as u8 == v % 0x100 && (v >> 8) as u8 == v / 0x100 && (w & 0xFF) as u8 == w % 0x100 && ((w >> 8)
        & 0xFF) as u8 == (w / 0x100) % 0x100 && ((w >> 16) & 0xFF) as u8 == (w / 0x1_0000) % 0x100 && (w >> 24) as u8
        == w / 0x100_0000 && (b0 as u16) | ((b1 as u16) << 8) == b0 + 0x100 * b1 && (b0 as u32) | ((b1 as u32) << 8)
        | ((b2 as u32) << 16) | ((b3 as u32) << 24) == b0 + 0x100 * b1 + 0x1_0000 * b2 + 0x100_0000 * b3 && ((
    b0 as u16) << 8) | (b1 as u16) == 0x100 * b0 + b1 && ((b0 as u32) << 24) | ((b1 as u32) << 16) | ((b2 as u32) << 8)
        | (b3 as u32) == 0x100_0000 * b0 + 0x1_0000 * b1 + 0x100 * b2 + b3) by (bit_vector);
}

/// Little-endian bytes give their number back, and the other way round.
pub proof fn little_endian_inverse(v: u16, w: u32)
    ensures
        from_le16(le16(v)[0], le16(v)[1]) == v,
        from_le32(le32(w)[0], le32(w)[1], le32(w)[2], le32(w)[3]) == w,
{
    bytes_are_digits(v, w, le32(w)[0], le32(w)[1], le32(w)[2], le32(w)[3]);
    bytes_are_digits(v, w, le16(v)[0], le16(v)[1], 0, 0);
}

/// Exchanging the bytes of words takes the odd byte for the even one and the even for the odd.
pub proof fn pairs_change_places(s: Seq<u8>, k: int)
    requires
        0 <= k,
        2 * k + 1 < s.len(),
    ensures
        pairs_swapped(s)[2 * k] == s[2 * k + 1],
        pairs_swapped(s)[2 * k + 1] == s[2 * k],
        pairs_swapped(s).len() == s.len(),
{
}

} // verus!
