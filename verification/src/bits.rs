//! Bit-level facts the proofs lean on, each family proved once by the
//! bit-vector solver and then used by instantiation.

use vstd::prelude::*;

verus! {

/// Byte masks, small bit packings, and the window select constants.
pub proof fn lemma_u8_bits()
    by (bit_vector)
    ensures
        forall|x: u8| #[trigger] (x & 1) < 2,
        forall|x: u8| #[trigger] (x & 0x3F) < 64,
        forall|x: u8| #[trigger] ((x >> 1u8) & 0x07) < 8,
        forall|lo: u8, hi: u8| lo < 2 && hi < 2 ==> #[trigger] (lo | (hi << 1u8)) < 4,
        forall|a: u8, b: u8| a < 4 && b < 4 ==> #[trigger] (a | (b << 2u8)) < 16,
        forall|a: u8, b: u8, c: u8, d: u8|
            a < 2 && b < 2 && c < 2 && d < 2 ==> #[trigger] (a | (b << 1u8) | (c << 2u8) | (d << 3u8)) < 16,
        forall|b: u8| #[trigger] (b & 0x0A) == 0 ==> (b & 0x02) == 0 && (b & 0x08) == 0,
        (2u8 & 2u8) != 0 && (2u8 & 8u8) == 0 && (2u8 & 1u8) == 0,
        (3u8 & 2u8) != 0 && (3u8 & 8u8) == 0 && (3u8 & 1u8) != 0,
{
}

/// Word masks, channel fields, halving shifts and the VRAM remap range.
pub proof fn lemma_u16_bits()
    by (bit_vector)
    ensures
        forall|x: u16| #[trigger] (x & 0x1F) < 32,
        forall|x: u16| #[trigger] ((x >> 5u16) & 0x1F) < 32,
        forall|x: u16| #[trigger] ((x >> 10u16) & 0x1F) < 32,
        forall|x: u16| #[trigger] (x >> 0u16) == x,
        forall|x: u16| #[trigger] (x >> 1u16) == x / 2,
        forall|x: u16| #[trigger] (x >> 4u16) == x / 16,
        forall|x: u16| #[trigger] (x & 0x3FF) < 1024,
        forall|x: u16| #[trigger] ((x >> 10u16) & 0x07) < 8,
        forall|x: u16| #[trigger] ((x >> 13u16) & 0x01) < 2,
        forall|x: u16| #[trigger] (x & 0xFF) < 256,
        forall|x: u16| #[trigger] (x & 1) < 2,
        forall|x: u16| #[trigger] (x & 1) != 0 ==> x >= 1,
        forall|x: u16| #[trigger] (x & 7) < 8,
        forall|x: u16| #[trigger] (x & 0x0F) < 16,
        forall|x: u16| #[trigger] ((x >> 4u16) & 0x0F) < 16,
        forall|x: u16| #[trigger] (x >> 3u16) < 8192,
        forall|x: u16| #[trigger] ((x >> 3u16) & 0x03) <= 3,
        forall|x: u16| #[trigger] (x & 0x1FFF) < 0x2000,
        forall|x: u16| #[trigger] (x & 0x7FFF) < 0x8000,
        forall|x: u16| #[trigger] (x & !7u16) <= x,
        forall|r: u16, h: u16|
            #![trigger r << 1u16, h >> 1u16]
            (h == 8 || h == 16 || h == 32 || h == 64) && r < (h >> 1u16) ==> (r << 1u16) < h,
        forall|a: u16|
            a < 0x8000 ==> #[trigger] ((a & 0xFF00) | ((a & 0x001F) << 3u16) | ((a & 0x00E0) >> 5u16))
                < 0x8000,
        forall|a: u16|
            a < 0x8000 ==> #[trigger] ((a & 0xFE00) | ((a & 0x003F) << 3u16) | ((a & 0x01C0) >> 6u16))
                < 0x8000,
        forall|a: u16|
            a < 0x8000 ==> #[trigger] ((a & 0xFC00) | ((a & 0x007F) << 3u16) | ((a & 0x0380) >> 7u16))
                < 0x8000,
        (1u16 << 2u16) == 4,
        (1u16 << 4u16) == 16,
{
}

/// 32-bit masks and the small shifts of the tile fetch.
pub proof fn lemma_u32_bits()
    by (bit_vector)
    ensures
        forall|x: u32| #[trigger] (x & 0x7FFF) < 0x8000,
        forall|x: u32| #[trigger] (x & 0x1F) < 32,
        forall|x: u32| #[trigger] (x & 0x3FF) < 1024,
        forall|x: u32| #[trigger] (x & 7) < 8,
        forall|x: u32| #[trigger] (x & !7u32) <= x,
        forall|a: u32, b: u32| a < 1024 && b < 8 ==> #[trigger] (a | b) < 1024,
        forall|l: u32, f: u32| l < 0x10000 && f < 2 ==> #[trigger] ((l << 1u32) | f) == 2 * l + f,
        forall|c: u32| c < 32 ==> #[trigger] (c << 3u32) < 256,
        forall|p: u32| p < 1024 ==> #[trigger] (p >> 3u32) < 128,
        forall|a: u32| #[trigger] ((a >> 16u32) & 0xFF) == (a / 65536) % 256,
        forall|a: u32| #[trigger] (a & 0xFFFF) == a % 65536,
        forall|a: u32| #[trigger] ((a >> 16u32) as u8) == (a / 65536) % 256,
        forall|a: u32| #[trigger] (a as u16) == a % 65536,
        forall|a: u32| #[trigger] (a & 0xFF_FFFF) == a % 0x100_0000,
        forall|b: u32, o: u32| b < 256 && o < 65536 ==> #[trigger] ((b << 16u32) | o) == b * 65536 + o,
{
}

/// Signed fields of the Mode 7 arithmetic.
pub proof fn lemma_i32_bits()
    by (bit_vector)
    ensures
        forall|a: i32| -1024 <= #[trigger] (a | !0x3FFi32) < 0,
        forall|a: i32| 0 <= #[trigger] (a & 0x3FFi32) < 1024,
        forall|v: i32| -67108864 <= v <= 67108864 ==> v - 64 < #[trigger] (v & !63i32) <= v,
        forall|w: i32|
            0 <= w < 0x2000 ==> ((#[trigger] (w & 0x1000)) != 0 ==> w >= 0x1000) && ((w & 0x1000) == 0
                ==> w < 0x1000),
{
}

/// Index masks.
pub proof fn lemma_usize_bits()
    by (bit_vector)
    ensures
        forall|v: usize| #[trigger] (v & 0x7F) < 128,
        forall|i: usize| i < 128 ==> #[trigger] (i >> 2usize) < 32,
        forall|i: usize| #[trigger] (i & 3) < 4,
        forall|a: usize| #[trigger] (a & 0x7FFF) < 0x8000,
{
}

} // verus!
