//! What the picture renderers share: colours, the pixels of a buffer, bits of a plane.

use vstd::prelude::*;

verus! {

/// A colour: red, green, blue.
pub type Rgb = (u8, u8, u8);

/// The pixels of an RGB24 buffer.
pub open spec fn pixels(fb: Seq<u8>) -> Seq<Rgb> {
    Seq::new((fb.len() / 3) as nat, |p: int| (fb[3 * p], fb[3 * p + 1], fb[3 * p + 2]))
}

/// One bit of a byte.
pub open spec fn bit_at(b: u8, k: int) -> int {
    ((b >> (k as u8)) & 1) as int
}

/// A picture: the colour index at a column and a row.
pub type Picture = spec_fn(int, int) -> int;

/// Every pixel of the first `w` columns and `h` rows has one of sixteen colour indices.
pub open spec fn is_picture(pic: Picture, w: int, h: int) -> bool {
    forall|x: int, y: int| 0 <= x < w && 0 <= y < h ==> 0 <= #[trigger] pic(x, y) < 16
}

/// Bit `p` of a colour index.
pub open spec fn plane(index: int, p: int) -> int {
    if p == 0 {
        index % 2
    } else if p == 1 {
        (index / 2) % 2
    } else if p == 2 {
        (index / 4) % 2
    } else {
        (index / 8) % 2
    }
}

/// A colour index is made of its four bits.
pub proof fn planes_make_index(i: int)
    requires
        0 <= i < 16,
    ensures
        plane(i, 3) * 8 + plane(i, 2) * 4 + plane(i, 1) * 2 + plane(i, 0) == i,
{
}

/// The byte made of eight bits, the first of them the lowest.
pub open spec fn byte_with(bits: Seq<int>) -> u8 {
    (bits[0] + 2 * bits[1] + 4 * bits[2] + 8 * bits[3] + 16 * bits[4] + 32 * bits[5] + 64 * bits[6] + 128
        * bits[7]) as u8
}

/// A byte made of bits shows each of them at its place.
pub proof fn byte_shows_its_bits(bits: Seq<int>, k: int)
    requires
        bits.len() == 8,
        forall|i: int| 0 <= i < 8 ==> 0 <= #[trigger] bits[i] <= 1,
        0 <= k < 8,
    ensures
        bit_at(byte_with(bits), k) == bits[k],
{
    let (c0, c1, c2, c3) = (bits[0] as u8, bits[1] as u8, bits[2] as u8, bits[3] as u8);
    let (c4, c5, c6, c7) = (bits[4] as u8, bits[5] as u8, bits[6] as u8, bits[7] as u8);
    let b = byte_with(bits);
    assert((b >> 0) & 1 == c0 && (b >> 1) & 1 == c1 && (b >> 2) & 1 == c2 && (b >> 3) & 1 == c3 && (b >> 4)
        & 1 == c4 && (b >> 5) & 1 == c5 && (b >> 6) & 1 == c6 && (b >> 7) & 1 == c7) by (bit_vector)
        requires
            b == c0 + 2 * c1 + 4 * c2 + 8 * c3 + 16 * c4 + 32 * c5 + 64 * c6 + 128 * c7,
            c0 <= 1,
            c1 <= 1,
            c2 <= 1,
            c3 <= 1,
            c4 <= 1,
            c5 <= 1,
            c6 <= 1,
            c7 <= 1,
    ;
}

/// An RGB24 buffer holds its pixels one after the other, red before green before blue.
pub proof fn pixels_are_three_bytes(fb: Seq<u8>, p: int)
    requires
        0 <= p,
        3 * p + 2 < fb.len(),
    ensures
        pixels(fb)[p].0 == fb[3 * p],
        pixels(fb)[p].1 == fb[3 * p + 1],
        pixels(fb)[p].2 == fb[3 * p + 2],
{
}

} // verus!
