//! Bit operations as arithmetic.

use vstd::prelude::*;

verus! {

/// The low bits of a number are its remainder.
pub proof fn low_bits_are_remainders()
    ensures
        forall|b: u8| #[trigger] (b & 0x01) == b % 2,
        forall|b: u8| #[trigger] (b & 0x03) == b % 4,
        forall|b: u8| #[trigger] (b & 0x07) == b % 8,
        forall|b: u8| #[trigger] (b & 0x0F) == b % 16,
        forall|b: u8| #[trigger] (b & 0x3F) == b % 64,
        forall|b: u8| #[trigger] (b & 0x7F) == b % 128,
        forall|w: u16| #[trigger] (w & 0x01) == w % 2,
        forall|w: u16| #[trigger] (w & 0x03) == w % 4,
        forall|w: u16| #[trigger] (w & 0x07) == w % 8,
        forall|w: u16| #[trigger] (w & 0x0F) == w % 16,
        forall|w: u16| #[trigger] (w & 0xFF) == w % 0x100,
        forall|w: u16| #[trigger] (w & 0x3FFF) == w % 0x4000,
        forall|d: u32| #[trigger] (d & 0x07) == d % 8,
        forall|d: u32| #[trigger] (d & 0x0F) == d % 16,
        forall|d: u32| #[trigger] (d & 0xFF) == d % 0x100,
        forall|d: u32| #[trigger] (d & 0x1FF) == d % 0x200,
        forall|d: u32| #[trigger] (d & 0xFFFF) == d % 0x1_0000,
        forall|d: u32| #[trigger] (d & 0x3_FFFF) == d % 0x4_0000,
        forall|d: u32| #[trigger] (d & 0xFF_FFFF) == d % 0x100_0000,
{
    assert((forall|b: u8| #[trigger] (b & 0x01) == b % 2)
        && (forall|b: u8| #[trigger] (b & 0x03) == b % 4)
        && (forall|b: u8| #[trigger] (b & 0x07) == b % 8)
        && (forall|b: u8| #[trigger] (b & 0x0F) == b % 16)
        && (forall|b: u8| #[trigger] (b & 0x3F) == b % 64)
        && (forall|b: u8| #[trigger] (b & 0x7F) == b % 128)
        && (forall|w: u16| #[trigger] (w & 0x01) == w % 2)
        && (forall|w: u16| #[trigger] (w & 0x03) == w % 4)
        && (forall|w: u16| #[trigger] (w & 0x07) == w % 8)
        && (forall|w: u16| #[trigger] (w & 0x0F) == w % 16)
        && (forall|w: u16| #[trigger] (w & 0xFF) == w % 0x100)
        && (forall|w: u16| #[trigger] (w & 0x3FFF) == w % 0x4000)
        && (forall|d: u32| #[trigger] (d & 0x07) == d % 8)
        && (forall|d: u32| #[trigger] (d & 0x0F) == d % 16)
        && (forall|d: u32| #[trigger] (d & 0xFF) == d % 0x100)
        && (forall|d: u32| #[trigger] (d & 0x1FF) == d % 0x200)
        && (forall|d: u32| #[trigger] (d & 0xFFFF) == d % 0x1_0000)
        && (forall|d: u32| #[trigger] (d & 0x3_FFFF) == d % 0x4_0000)
        && (forall|d: u32| #[trigger] (d & 0xFF_FFFF) == d % 0x100_0000)) by (bit_vector);
}

/// Shifting down divides; bytes and words put side by side are digits of a larger number.
pub proof fn shifts_are_digits()
    ensures
        forall|b: u8| #[trigger] (b >> 4u8) == b / 16,
        forall|b: u8| #[trigger] (b >> 2u8) == b / 4,
        forall|w: u16| #[trigger] (w >> 4u16) == w / 16,
        forall|w: u16| #[trigger] (w >> 8u16) == w / 0x100,
        forall|w: u16| #[trigger] (w >> 12u16) == w / 0x1000,
        forall|d: u32| #[trigger] (d >> 8u32) == d / 0x100,
        forall|d: u32| #[trigger] (d >> 16u32) == d / 0x1_0000,
        forall|d: u32| #[trigger] (d >> 24u32) == d / 0x100_0000,
        forall|h: u8, l: u8| #[trigger] (((h as u16) << 8) | (l as u16)) == h * 0x100 + l,
        forall|hw: u16, lw: u16| #[trigger] (((hw as u32) << 16) | (lw as u32)) == hw * 0x1_0000 + lw,
{
    assert((forall|b: u8| #[trigger] (b >> 4u8) == b / 16)
        && (forall|b: u8| #[trigger] (b >> 2u8) == b / 4)
        && (forall|w: u16| #[trigger] (w >> 4u16) == w / 16)
        && (forall|w: u16| #[trigger] (w >> 8u16) == w / 0x100)
        && (forall|w: u16| #[trigger] (w >> 12u16) == w / 0x1000)
        && (forall|d: u32| #[trigger] (d >> 8u32) == d / 0x100)
        && (forall|d: u32| #[trigger] (d >> 16u32) == d / 0x1_0000)
        && (forall|d: u32| #[trigger] (d >> 24u32) == d / 0x100_0000)
        && (forall|h: u8, l: u8| #[trigger] (((h as u16) << 8) | (l as u16)) == h * 0x100 + l)
        && (forall|hw: u16, lw: u16| #[trigger] (((hw as u32) << 16) | (lw as u32)) == hw * 0x1_0000 + lw)) by (bit_vector);
}

/// Single bits of a byte, set or not, and bytes with one of them cleared or set.
pub proof fn single_bits(b: u8)
    ensures
        (b & 0x01 != 0) == (b % 2 == 1),
        (b & 0x02 != 0) == ((b / 2) % 2 == 1),
        (b & 0x04 != 0) == ((b / 4) % 2 == 1),
        (b & 0x08 != 0) == ((b / 8) % 2 == 1),
        (b & 0x10 != 0) == ((b / 16) % 2 == 1),
        (b & 0x20 != 0) == ((b / 32) % 2 == 1),
        (b & 0x40 != 0) == ((b / 64) % 2 == 1),
        (b & 0x80 != 0) == (b / 128 == 1),
        (b & 0x7F) & 0x80 == 0,
        (b | 0x80) & 0x80 == 0x80,
        (b & 0x7F) == b % 128,
        (b | 0x80) == b % 128 + 128,
        (b & 0xFE) == b - b % 2,
        (b & 0xFE) & 1 == 0,
        (b | 0x01) == b - b % 2 + 1,
        (b | 0x01) & 0x01 != 0,
        (b | 0x02) & 0x02 != 0,
        (b | 0x04) & 0x04 != 0,
{
    assert(((b & 0x01 != 0) == (b % 2 == 1))
        && ((b & 0x02 != 0) == ((b / 2) % 2 == 1))
        && ((b & 0x04 != 0) == ((b / 4) % 2 == 1))
        && ((b & 0x08 != 0) == ((b / 8) % 2 == 1))
        && ((b & 0x10 != 0) == ((b / 16) % 2 == 1))
        && ((b & 0x20 != 0) == ((b / 32) % 2 == 1))
        && ((b & 0x40 != 0) == ((b / 64) % 2 == 1))
        && ((b & 0x80 != 0) == (b / 128 == 1))
        && ((b & 0x7F) & 0x80 == 0)
        && ((b | 0x80) & 0x80 == 0x80)
        && ((b & 0x7F) == b % 128)
        && ((b | 0x80) == b % 128 + 128)
        && ((b & 0xFE) == b - b % 2)
        && ((b & 0xFE) & 1 == 0)
        && ((b | 0x01) == b - b % 2 + 1)
        && ((b | 0x01) & 0x01 != 0)
        && ((b | 0x02) & 0x02 != 0)
        && ((b | 0x04) & 0x04 != 0)) by (bit_vector);
}

/// A word is its two bytes, high and low, and a long word its two words; a byte put in the place of
/// either half of a word is that half.
pub proof fn halves(w: u16, v: u8, d: u32)
    ensures
        w as u8 == w % 0x100,
        (w >> 8) as u8 == w / 0x100,
        ((w & 0xff00) | v as u16) as u8 == v,
        ((w & 0xff00) | v as u16) >> 8u16 == w / 0x100,
        ((w & 0x00ff) | ((v as u16) << 8)) as u8 == w % 0x100,
        ((w & 0x00ff) | ((v as u16) << 8)) >> 8u16 == v,
        (((v as u16) << 8) | 0x00ff) as u8 == 0xff,
        ((((v as u16) << 8) | 0x00ff) >> 8u16) as u8 == v,
        (d >> 16) as u16 == d / 0x1_0000,
        (d & 0xffff) as u16 == d % 0x1_0000,
        d as u16 == d % 0x1_0000,
{
    assert((w as u8 == w % 0x100)
        && ((w >> 8) as u8 == w / 0x100)
        && (((w & 0xff00) | v as u16) as u8 == v)
        && (((w & 0xff00) | v as u16) >> 8u16 == w / 0x100)
        && (((w & 0x00ff) | ((v as u16) << 8)) as u8 == w % 0x100)
        && (((w & 0x00ff) | ((v as u16) << 8)) >> 8u16 == v)
        && ((((v as u16) << 8) | 0x00ff) as u8 == 0xff)
        && (((((v as u16) << 8) | 0x00ff) >> 8u16) as u8 == v)
        && ((d >> 16) as u16 == d / 0x1_0000)
        && ((d & 0xffff) as u16 == d % 0x1_0000)
        && (d as u16 == d % 0x1_0000)) by (bit_vector);
}

/// The bits of a byte are found in it by their weights.
pub proof fn bits_by_weight(b: u8, b0: u8, b1: u8, b2: u8, b3: u8, b4: u8, b5: u8, b6: u8, b7: u8)
    requires
        b0 <= 1,
        b1 <= 1,
        b2 <= 1,
        b3 <= 1,
        b4 <= 1,
        b5 <= 1,
        b6 <= 1,
        b7 <= 1,
        b == b0 + 2 * b1 + 4 * b2 + 8 * b3 + 16 * b4 + 32 * b5 + 64 * b6 + 128 * b7,
    ensures
        b % 2 == b0,
        (b / 2) % 2 == b1,
        (b / 4) % 2 == b2,
        (b / 8) % 2 == b3,
        (b / 16) % 2 == b4,
        (b / 32) % 2 == b5,
        (b / 64) % 2 == b6,
        (b / 128) % 2 == b7,
{
    let r6 = b6 + 2 * b7;
    let r5 = b5 + 2 * r6;
    let r4 = b4 + 2 * r5;
    let r3 = b3 + 2 * r4;
    let r2 = b2 + 2 * r3;
    let r1 = b1 + 2 * r2;
    assert(b == b0 + 2 * r1);
    assert(b / 2 == r1);
    assert(b / 4 == r2);
    assert(b / 8 == r3);
    assert(b / 16 == r4);
    assert(b / 32 == r5);
    assert(b / 64 == r6);
    assert(b / 128 == b7);
}

} // verus!
