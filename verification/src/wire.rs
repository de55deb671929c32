//! Little-endian byte packing into 64-bit message words.
use vstd::prelude::*;

verus! {

/// Byte `k` (0 = least significant) of a word.
pub open spec fn byte_of(w: u64, k: int) -> u64 {
    (w >> ((8 * k) as u64)) & 0xff
}

/// Byte `i` of a byte string, 0 past its end.
pub open spec fn byte_or_zero(bytes: Seq<u8>, i: int) -> u8 {
    if 0 <= i < bytes.len() {
        bytes[i]
    } else {
        0
    }
}

/// Setting an empty byte of a word keeps the others.
proof fn lemma_set_byte(w: u64, b: u8, k: u64, m: u64)
    requires
        k < 8,
        m < 8,
        (w >> (8 * k)) & 0xff == 0,
    ensures
        ((w | ((b as u64) << (8 * k))) >> (8 * m)) & 0xff == if m == k {
            b as u64
        } else {
            (w >> (8 * m)) & 0xff
        },
{
    assert(((w | ((b as u64) << (8 * k))) >> (8 * m)) & 0xff == if m == k {
        b as u64
    } else {
        (w >> (8 * m)) & 0xff
    }) by (bit_vector)
        requires
            k < 8,
            m < 8,
            (w >> (8 * k)) & 0xff == 0,
    ;
}

proof fn lemma_zero_bytes()
    ensures
        forall|m: int| 0 <= m < 8 ==> #[trigger] byte_of(0, m) == 0,
{
    assert forall|m: int| 0 <= m < 8 implies #[trigger] byte_of(0, m) == 0 by {
        let mm = m as u64;
        assert((8 * m) as u64 == 8 * mm);
        assert((0u64 >> (8 * mm)) & 0xff == 0) by (bit_vector);
    }
}

/// The word whose byte `m` is `bytes[start + m]` (0 past the end).
pub fn le_word(bytes: &[u8], start: usize) -> (w: u64)
    ensures
        forall|m: int| 0 <= m < 8 ==> #[trigger] byte_of(w, m) == byte_or_zero(bytes@, start + m) as u64,
{
    let mut w: u64 = 0;
    let mut k: usize = 0;
    proof {
        lemma_zero_bytes();
    }
    while k < 8
        invariant
            k <= 8,
            forall|m: int| 0 <= m < 8 ==> #[trigger] byte_of(w, m) == if m < k {
                byte_or_zero(bytes@, start + m) as u64
            } else {
                0
            },
        decreases 8 - k,
    {
        let ghost before = w;
        if start < bytes.len() && k < bytes.len() - start {
            let b = bytes[start + k];
            proof {
                assert(byte_of(before, k as int) == 0);
                assert((8 * (k as int)) as u64 == 8 * (k as u64));
                assert forall|m: int| 0 <= m < 8 implies #[trigger] byte_of(before | ((b as u64) << (8 * (k as u64))), m)
                    == if m < k + 1 { byte_or_zero(bytes@, start + m) as u64 } else { 0 } by {
                    assert((8 * m) as u64 == 8 * (m as u64));
                    lemma_set_byte(before, b, k as u64, m as u64);
                    assert(byte_of(before, m) == if m < k { byte_or_zero(bytes@, start + m) as u64 } else { 0 });
                }
            }
            w = w | ((b as u64) << (8 * (k as u64)));
        } else {
            proof {
                assert forall|m: int| 0 <= m < 8 implies #[trigger] byte_of(w, m) == if m < k + 1 {
                    byte_or_zero(bytes@, start + m) as u64
                } else {
                    0
                } by {
                    assert(byte_of(before, m) == if m < k { byte_or_zero(bytes@, start + m) as u64 } else { 0 });
                }
            }
        }
        k = k + 1;
    }
    w
}

/// The bytes of an OR are the ORs of the bytes.
pub proof fn lemma_or_byte(a: u64, b: u64, m: int)
    requires
        0 <= m < 8,
    ensures
        byte_of(a | b, m) == byte_of(a, m) | byte_of(b, m),
{
    let mm = m as u64;
    assert((8 * m) as u64 == 8 * mm);
    assert(((a | b) >> (8 * mm)) & 0xff == ((a >> (8 * mm)) & 0xff) | ((b >> (8 * mm)) & 0xff)) by (bit_vector)
        requires
            mm < 8,
    ;
}

/// A byte read back as `as u8` after shifting is the byte of the word.
pub proof fn lemma_shift_cast(w: u64, m: int)
    requires
        0 <= m < 8,
    ensures
        (w >> ((8 * m) as u64)) as u8 == byte_of(w, m),
{
    let mm = m as u64;
    assert((8 * m) as u64 == 8 * mm);
    assert((w >> (8 * mm)) as u8 == (w >> (8 * mm)) & 0xff) by (bit_vector)
        requires
            mm < 8,
    ;
}

} // verus!
