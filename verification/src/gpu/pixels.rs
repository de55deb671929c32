//! Pixel words, the framebuffer checksum and the input-event word.
use vstd::prelude::*;

verus! {

/// An opaque pixel `0xAARRGGBB` with full alpha.
pub open spec fn color(red: u8, green: u8, blue: u8) -> u32 {
    (0xFF00_0000 + red * 0x1_0000 + green * 0x100 + blue) as u32
}

/// The pixel word of an opaque colour.
pub fn color_word(red: u8, green: u8, blue: u8) -> (w: u32)
    ensures
        w == color(red, green, blue),
{
    let w = 0xFF00_0000u32 | (red as u32) << 16 | (green as u32) << 8 | blue as u32;
    assert(w == (0xFF00_0000 + red * 0x1_0000 + green * 0x100 + blue) as u32) by (bit_vector)
        requires
            w == 0xFF00_0000u32 | (red as u32) << 16 | (green as u32) << 8 | blue as u32,
    ;
    w
}

/// The little-endian word at byte `4 * k`.
pub open spec fn word_at(bytes: Seq<u8>, k: int) -> int {
    bytes[4 * k] + 0x100 * bytes[4 * k + 1] + 0x1_0000 * bytes[4 * k + 2] + 0x100_0000 * bytes[4 * k + 3]
}

/// The sum of the first `n` whole words, modulo 2^32.
pub open spec fn words_sum(bytes: Seq<u8>, n: int) -> u32
    decreases n,
{
    if n <= 0 {
        0
    } else {
        ((words_sum(bytes, n - 1) + word_at(bytes, n - 1)) % 0x1_0000_0000) as u32
    }
}

/// The wrapping sum of the little-endian 32-bit words of `bytes`; a tail of
/// fewer than four bytes is left out.
pub fn word_sum(bytes: &[u8]) -> (sum: u32)
    ensures
        sum == words_sum(bytes@, bytes@.len() as int / 4),
{
    let len = bytes.len();
    let n = len / 4;
    let mut sum: u32 = 0;
    let mut k: usize = 0;
    while k < n
        invariant
            len == bytes@.len(),
            n == bytes@.len() / 4,
            k <= n,
            sum == words_sum(bytes@, k as int),
        decreases n - k,
    {
        let w: u64 = bytes[4 * k] as u64 + 0x100 * (bytes[4 * k + 1] as u64) + 0x1_0000 * (bytes[4 * k + 2] as u64)
            + 0x100_0000 * (bytes[4 * k + 3] as u64);
        let total: u64 = sum as u64 + w;
        sum = (total % 0x1_0000_0000) as u32;
        k = k + 1;
    }
    sum
}

/// The word an input event travels in: bit 63 set, the type at bit 40, the
/// code at bit 24 and the low 24 bits of the value.
pub open spec fn event_word(kind: u16, code: u16, value: u32) -> u64 {
    (0x8000_0000_0000_0000 + kind * 0x100_0000_0000 + code * 0x100_0000 + value % 0x100_0000) as u64
}

/// Pack an input event for INPUT_READ.
pub fn pack_event(kind: u16, code: u16, value: u32) -> (w: u64)
    ensures
        w == event_word(kind, code, value),
{
    let w = (1u64 << 63) | (kind as u64) << 40 | (code as u64) << 24 | ((value as u64) & 0xFF_FFFF);
    assert(w == (0x8000_0000_0000_0000 + kind * 0x100_0000_0000 + code * 0x100_0000 + value % 0x100_0000) as u64) by (bit_vector)
        requires
            w == (1u64 << 63) | (kind as u64) << 40 | (code as u64) << 24 | ((value as u64) & 0xFF_FFFF),
    ;
    w
}

} // verus!
