//! The log-line wire format between init's supervisor and its logger thread:
//! `[len, flags, payload...]` with the payload packed little-endian.
use vstd::prelude::*;
use vstd::string::StringSliceAdditionalSpecFns;
use vstd::utf8::valid_utf8;
use crate::text::utf8_text;
use crate::wire::{byte_of, byte_or_zero, le_word, lemma_or_byte, lemma_shift_cast};

verus! {

/// Deliver the line through the console service instead of the debug console.
pub const FLAG_CONSOLE: u64 = 1;
/// Perform the supervision-drill crash write after the line is delivered.
pub const FLAG_CRASH_DRILL: u64 = 2;
/// Fault the logger thread itself after the line is delivered.
pub const FLAG_CRASH_SELF: u64 = 4;
/// Maximum line length: twelve payload words behind the two header words.
pub const MAX_LINE: usize = 96;

/// `a` rounded up to whole 8-byte words.
pub open spec fn words_for(count: int) -> int {
    (count + 7) / 8
}

/// `new` is `old` with `line` (cut to `MAX_LINE`) packed behind the header:
/// word 0 the length, word 1 the flags, then each payload byte OR-ed into
/// its place; the returned length counts the words used.
pub open spec fn packed(old: Seq<u64>, new: Seq<u64>, line: Seq<u8>, flags: u64, used: usize) -> bool {
    let count = if line.len() < MAX_LINE { line.len() } else { MAX_LINE as nat };
    let body = line.take(count as int);
    &&& new.len() == 16
    &&& used == 2 + words_for(count as int)
    &&& new[0] == count as u64
    &&& new[1] == flags
    &&& forall|j: int, m: int|
        2 <= j < 16 && 0 <= m < 8 ==> #[trigger] byte_of(new[j], m) == byte_of(old[j], m) | (
        byte_or_zero(body, 8 * (j - 2) + m) as u64)
}

/// Pack a log line into a POST message; returns the number of words used.
pub fn pack(line: &[u8], flags: u64, words: &mut [u64; 16]) -> (used: usize)
    ensures
        packed(old(words)@, final(words)@, line@, flags, used),
{
    let count = if line.len() < MAX_LINE { line.len() } else { MAX_LINE };
    let body = &line[0..count];
    let ghost old_words = words@;
    words[0] = count as u64;
    words[1] = flags;
    let n = (count + 7) / 8;
    let mut j: usize = 0;
    while j < 14
        invariant
            words@.len() == 16,
            count == (if line@.len() < MAX_LINE { line@.len() } else { MAX_LINE as nat }),
            body@ == line@.take(count as int),
            n == words_for(count as int),
            j <= 14,
            words@[0] == count as u64,
            words@[1] == flags,
            forall|i: int| 2 + j <= i < 16 ==> #[trigger] words@[i] == old_words[i],
            forall|i: int, m: int|
                2 <= i < 2 + j && 0 <= m < 8 ==> #[trigger] byte_of(words@[i], m) == byte_of(old_words[i], m) | (
                byte_or_zero(body@, 8 * (i - 2) + m) as u64),
        decreases 14 - j,
    {
        let w = le_word(body, 8 * j);
        let updated = words[2 + j] | w;
        proof {
            assert forall|m: int| 0 <= m < 8 implies #[trigger] byte_of(updated, m) == byte_of(old_words[2 + j as int], m) | (
                byte_or_zero(body@, 8 * j + m) as u64) by {
                lemma_or_byte(words@[2 + j as int], w, m);
            }
        }
        words[2 + j] = updated;
        j = j + 1;
    }
    2 + n
}

/// Payload byte `i` of a POST message.
pub open spec fn line_byte(words: Seq<u64>, i: int) -> u8 {
    byte_of(words[2 + i / 8], i % 8) as u8
}

/// The first `count` payload bytes of a POST message; the rest of the line
/// buffer is zero.
pub fn unpack(words: &[u64; 16], count: usize) -> (line: [u8; MAX_LINE])
    requires
        count <= MAX_LINE,
    ensures
        forall|i: int| 0 <= i < MAX_LINE ==> #[trigger] line@[i] == if i < count {
            line_byte(words@, i)
        } else {
            0
        },
{
    let mut line = [0u8; MAX_LINE];
    let mut i: usize = 0;
    while i < count
        invariant
            count <= MAX_LINE,
            i <= count,
            words@.len() == 16,
            forall|k: int| 0 <= k < MAX_LINE ==> #[trigger] line@[k] == if k < i {
                line_byte(words@, k)
            } else {
                0
            },
        decreases count - i,
    {
        let word = words[2 + i / 8];
        proof {
            lemma_shift_cast(word, (i % 8) as int);
        }
        line[i] = (word >> (8 * (i % 8)) as u64) as u8;
        i = i + 1;
    }
    line
}

/// Packing into a zeroed message and unpacking the reported length gives the
/// line back (cut to `MAX_LINE`).
pub proof fn lemma_unpack_pack(words: Seq<u64>, line: Seq<u8>, flags: u64, used: usize)
    requires
        packed(Seq::new(16, |i: int| 0u64), words, line, flags, used),
    ensures
        words[0] <= MAX_LINE,
        forall|i: int| 0 <= i < words[0] ==> #[trigger] line_byte(words, i) == line[i],
{
    let zero = Seq::new(16, |i: int| 0u64);
    let count = words[0] as int;
    assert forall|i: int| 0 <= i < words[0] implies #[trigger] line_byte(words, i) == line[i] by {
        let j = 2 + i / 8;
        let m = i % 8;
        assert(byte_of(words[j], m) == byte_of(zero[j], m) | (byte_or_zero(line.take(count), 8 * (j - 2) + m) as u64));
        assert(8 * (j - 2) + m == i);
        let b = line[i] as u64;
        assert(byte_of(0, m) == 0) by {
            let mm = m as u64;
            assert((8 * m) as u64 == 8 * mm);
            assert((0u64 >> (8 * mm)) & 0xff == 0) by (bit_vector);
        }
        assert(0 | b == b) by (bit_vector);
        assert(b < 256);
    }
}

/// Pack bytes behind their count, per the console wire format.
pub fn pack_words(bytes: &[u8]) -> (words: [u64; 16])
    requires
        bytes@.len() <= 120,
    ensures
        words@[0] == bytes@.len(),
        forall|j: int, m: int|
            1 <= j < 16 && 0 <= m < 8 ==> #[trigger] byte_of(words@[j], m) == byte_or_zero(bytes@, 8 * (j - 1) + m) as u64,
{
    let mut words = [0u64; 16];
    words[0] = bytes.len() as u64;
    let mut j: usize = 1;
    while j < 16
        invariant
            1 <= j <= 16,
            words@.len() == 16,
            words@[0] == bytes@.len(),
            forall|i: int, m: int|
                1 <= i < j && 0 <= m < 8 ==> #[trigger] byte_of(words@[i], m) == byte_or_zero(bytes@, 8 * (i - 1) + m) as u64,
        decreases 16 - j,
    {
        words[j] = le_word(bytes, 8 * (j - 1));
        j = j + 1;
    }
    words
}

/// The first `count` bytes of a line as text, or `<binary log>` when they
/// are not valid UTF-8.
pub fn line_str(line: &[u8], count: usize) -> (s: &str)
    requires
        count <= line@.len(),
    ensures
        valid_utf8(line@.take(count as int)) ==> s.spec_bytes() == line@.take(count as int),
        !valid_utf8(line@.take(count as int)) ==> s@ == "<binary log>"@,
{
    match utf8_text(&line[0..count]) {
        Some(text) => text,
        None => "<binary log>",
    }
}


/// What the logger thread does with a POST: the line length (cut to
/// `MAX_LINE`), whether it goes through the console service, and the drills
/// the flags ask for.
#[derive(Clone, Copy, PartialEq, Eq, Structural, Debug)]
pub struct PostAction {
    pub count: usize,
    pub to_console: bool,
    pub crash_drill: bool,
    pub crash_self: bool,
}

/// The logger's reading of a POST whose first words are `count` and `flags`.
pub fn post_action(count: u64, flags: u64) -> (a: PostAction)
    ensures
        a.count == (if count < MAX_LINE { count as int } else { MAX_LINE as int }),
        a.to_console == (flags & FLAG_CONSOLE != 0),
        a.crash_drill == (flags & FLAG_CRASH_DRILL != 0),
        a.crash_self == (flags & FLAG_CRASH_SELF != 0),
{
    PostAction {
        count: if count < MAX_LINE as u64 { count as usize } else { MAX_LINE },
        to_console: flags & FLAG_CONSOLE != 0,
        crash_drill: flags & FLAG_CRASH_DRILL != 0,
        crash_self: flags & FLAG_CRASH_SELF != 0,
    }
}

/// The console's largest WRITE.
pub const CONSOLE_CHUNK: usize = 120;

/// The `(start, end)` ranges a line of `len` bytes is written in: whole
/// `CONSOLE_CHUNK` pieces, then the rest.
pub fn write_chunks(len: usize) -> (chunks: Vec<(usize, usize)>)
    ensures
        chunks@.len() == (len + CONSOLE_CHUNK - 1) / CONSOLE_CHUNK as int,
        forall|k: int| 0 <= k < chunks@.len() ==> #[trigger] chunks@[k] == (
            (k * CONSOLE_CHUNK) as usize,
            (if (k + 1) * CONSOLE_CHUNK < len { (k + 1) * CONSOLE_CHUNK } else { len as int }) as usize,
        ),
{
    let mut chunks: Vec<(usize, usize)> = Vec::new();
    let mut start: usize = 0;
    while start < len
        invariant
            start <= len,
            start < len ==> start == chunks@.len() * CONSOLE_CHUNK,
            start == len ==> chunks@.len() == (len + CONSOLE_CHUNK - 1) / CONSOLE_CHUNK as int,
            start < len ==> chunks@.len() < (len + CONSOLE_CHUNK - 1) / CONSOLE_CHUNK as int || chunks@.len() == 0,
            forall|k: int| 0 <= k < chunks@.len() ==> #[trigger] chunks@[k] == (
                (k * CONSOLE_CHUNK) as usize,
                (if (k + 1) * CONSOLE_CHUNK < len { (k + 1) * CONSOLE_CHUNK } else { len as int }) as usize,
            ),
        decreases len - start,
    {
        let end = if len - start > CONSOLE_CHUNK { start + CONSOLE_CHUNK } else { len };
        chunks.push((start, end));
        proof {
            let n = chunks@.len() as int;
            assert(start == (n - 1) * 120);
            if end == len {
                assert(n == (len + 119) / 120) by (nonlinear_arith)
                    requires
                        start == (n - 1) * 120,
                        start < len,
                        len <= start + 120,
                ;
            } else {
                assert(end == n * 120);
                assert(n < (len + 119) / 120) by (nonlinear_arith)
                    requires
                        n * 120 < len,
                ;
            }
        }
        start = end;
    }
    proof {
        if len == 0 {
            assert(chunks@.len() == 0);
        }
    }
    chunks
}

/// Whether the crash drill failed: the console's answer to the crash request
/// (`None` when the call itself failed) failed unless it was OK.
pub fn drill_failed(reply: Option<u64>) -> (failed: bool)
    ensures
        failed == match reply {
            None => true,
            Some(label) => label != 0,
        },
{
    match reply {
        None => true,
        Some(label) => label != 0,
    }
}

} // verus!
