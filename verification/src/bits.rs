//! Words, halfwords and bytes as numbers: the little-endian layout that
//! the bus uses, and what the emulator's masks and shifts compute.

use vstd::prelude::*;

verus! {

/// Whether a word is negative as a two's complement number (bit 31 set).
pub open spec fn negative(value: u32) -> bool {
    value >= 0x8000_0000
}

/// Byte `k` (0 is the least significant) of a word.
pub open spec fn byte_of(value: u32, k: int) -> u8 {
    if k == 0 {
        (value % 0x100) as u8
    } else if k == 1 {
        ((value / 0x100) % 0x100) as u8
    } else if k == 2 {
        ((value / 0x1_0000) % 0x100) as u8
    } else {
        (value / 0x100_0000) as u8
    }
}

/// The word whose bytes, least significant first, are `b0` to `b3`.
pub open spec fn word_of_bytes(b0: u8, b1: u8, b2: u8, b3: u8) -> u32 {
    (b0 + b1 * 0x100 + b2 * 0x1_0000 + b3 * 0x100_0000) as u32
}

/// The halfword whose bytes, least significant first, are `b0` and `b1`.
pub open spec fn half_of_bytes(b0: u8, b1: u8) -> u16 {
    (b0 + b1 * 0x100) as u16
}

/// Masking and shifting a word yields its bytes.
pub proof fn lemma_split_word(value: u32)
    by (bit_vector)
    ensures
        value & 0xff == value % 0x100,
        (value >> 8) & 0xff == (value / 0x100) % 0x100,
        (value >> 16) & 0xff == (value / 0x1_0000) % 0x100,
        (value >> 24) & 0xff == value / 0x100_0000,
        value / 0x100_0000 < 0x100,
{
}

/// Shifting bytes into place and joining them with `|` adds them up.
pub proof fn lemma_join_bytes(b0: u8, b1: u8, b2: u8, b3: u8)
    by (bit_vector)
    ensures
        (b0 as u32) | (b1 as u32) << 8 | (b2 as u32) << 16 | (b3 as u32) << 24 == b0 + b1 * 0x100
            + b2 * 0x1_0000 + b3 * 0x100_0000,
        (b0 as u16) | (b1 as u16) << 8 == b0 + b1 * 0x100,
{
}

/// Testing bit 31 is testing the sign.
pub proof fn lemma_sign_bit(value: u32)
    by (bit_vector)
    ensures
        (value & 0x8000_0000 != 0) == (value >= 0x8000_0000),
        value & 0x8000_0000 == (if value >= 0x8000_0000 {
            0x8000_0000u32
        } else {
            0u32
        }),
{
}

/// A word is the sum of its bytes, each at its weight.
pub proof fn lemma_bytes_of_word(value: u32)
    ensures
        word_of_bytes(byte_of(value, 0), byte_of(value, 1), byte_of(value, 2), byte_of(value, 3))
            == value,
{
}

} // verus!
