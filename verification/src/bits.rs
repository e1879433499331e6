//! Register fields as arithmetic: masks are remainders, shifts are quotients.
use vstd::prelude::*;

verus! {

/// Masks and shifts of a 32-bit word as remainders and quotients.
pub proof fn lemma_u32_fields(x: u32)
    by (bit_vector)
    ensures
        x & 1 == x % 2,
        x & 3 == x % 4,
        x & 7 == x % 8,
        x & 0xF == x % 16,
        x & 0x1F == x % 32,
        x & 0x3F == x % 64,
        x & 0x7F == x % 128,
        x & 0xFF == x % 256,
        x & 0x1FF == x % 512,
        x & 0x3FF == x % 1024,
        x & 0x7FF == x % 2048,
        x & 0xFFF == x % 4096,
        x & 0xFFFF == x % 0x10000,
        x & 0x7FFF == x % 0x8000,
        x & 0xFF_FFFF == x % 0x100_0000,
        x & 0x3F0 == (x % 1024) / 16 * 16,
        x & 0x7F0 == (x % 2048) / 16 * 16,
        x & 0x1E0 == (x % 512) / 32 * 32,
        x >> 1u32 == x / 2,
        x >> 2u32 == x / 4,
        x >> 3u32 == x / 8,
        x >> 4u32 == x / 16,
        x >> 5u32 == x / 32,
        x >> 6u32 == x / 64,
        x >> 7u32 == x / 128,
        x >> 8u32 == x / 256,
        x >> 9u32 == x / 512,
        x >> 10u32 == x / 1024,
        x >> 11u32 == x / 2048,
        x >> 12u32 == x / 4096,
        x >> 15u32 == x / 0x8000,
        x >> 16u32 == x / 0x10000,
        x >> 24u32 == x / 0x100_0000,
        x >> 27u32 == x / 0x800_0000,
        x >> 28u32 == x / 0x1000_0000,
        x >> 29u32 == x / 0x2000_0000,
        x >> 31u32 == x / 0x8000_0000,
        x & 0x8000_0000 != 0 <==> x >= 0x8000_0000,
{
}

/// Masks and shifts of a halfword as remainders and quotients.
pub proof fn lemma_u16_fields(x: u16)
    by (bit_vector)
    ensures
        x & 1 == x % 2,
        x & 3 == x % 4,
        x & 7 == x % 8,
        x & 0xF == x % 16,
        x & 0x1F == x % 32,
        x & 0x3F == x % 64,
        x & 0xFF == x % 256,
        x & 0x3FF == x % 1024,
        x & 0xFFF == x % 4096,
        x & 0x7FFF == x % 0x8000,
        x >> 0u16 == x,
        x >> 1u16 == x / 2,
        x >> 2u16 == x / 4,
        x >> 3u16 == x / 8,
        x >> 4u16 == x / 16,
        x >> 5u16 == x / 32,
        x >> 6u16 == x / 64,
        x >> 8u16 == x / 256,
        x >> 10u16 == x / 1024,
        x >> 11u16 == x / 2048,
        x >> 12u16 == x / 4096,
        x >> 15u16 == x / 0x8000,
        x & 0x8000 != 0 <==> x >= 0x8000,
        x & 0x8000 == (if x >= 0x8000 { 0x8000u16 } else { 0 }),
{
}

/// Masks and shifts of a byte as remainders and quotients.
pub proof fn lemma_u8_fields(x: u8)
    by (bit_vector)
    ensures
        x & 1 == x % 2,
        x & 3 == x % 4,
        x & 7 == x % 8,
        x & 0xF == x % 16,
        x & 0x1F == x % 32,
        x & 0x3F == x % 64,
        x & 0x7F == x % 128,
        x >> 1u8 == x / 2,
        x >> 2u8 == x / 4,
        x >> 3u8 == x / 8,
        x >> 4u8 == x / 16,
        x >> 5u8 == x / 32,
        x >> 6u8 == x / 64,
        x >> 7u8 == x / 128,
{
}

/// The three byte channels of a 24-bit colour.
pub proof fn lemma_rgb24(c: u32)
    ensures
        c & 0xFF == c % 256,
        (c >> 8u32) & 0xFF == (c / 256) % 256,
        (c >> 16u32) & 0xFF == (c / 65536) % 256,
        c & 0xFF <= 255,
        (c >> 8u32) & 0xFF <= 255,
        (c >> 16u32) & 0xFF <= 255,
{
    lemma_u32_fields(c);
    lemma_u32_fields(c >> 8u32);
    lemma_u32_fields(c >> 16u32);
}

/// OR-ing a bit above a value that does not reach it is adding it.
pub proof fn lemma_or_high_bit16(v: u16, t: u16)
    by (bit_vector)
    requires
        v < 0x8000,
    ensures
        v | (t & 0x8000) == v + (t & 0x8000),
        v | 0x8000 == v + 0x8000,
{
}

/// The low and high halves of a word.
pub proof fn lemma_halves(w: u32)
    by (bit_vector)
    ensures
        (w & 0xFFFF) as u16 == w % 0x10000,
        (w >> 16u32) as u16 == w / 0x10000,
        (w >> 24u32) as u8 == w / 0x100_0000,
        (w & 0xFF) as u8 == w % 256,
        ((w >> 8u32) & 0xFF) as u8 == (w / 256) % 256,
{
}

} // verus!
