//! Console output: the bytes of a WRITE request, and the carriage returns a
//! serial terminal needs before each line feed.
use vstd::prelude::*;
use crate::fs::proto::{name_byte, word_at};
use crate::wire::lemma_shift_cast;

verus! {

/// Longest WRITE payload.
pub const MAX_WRITE: u64 = 120;

/// The count that asks the console to fault on purpose.
pub const CRASH_MAGIC: u64 = 0xCAFE_BABE;

/// What a WRITE request asks for.
pub enum ConsoleWrite {
    /// Print a notice and fault.
    Crash,
    /// The count is beyond `MAX_WRITE` or beyond the words sent: refused.
    Refused,
    /// Print these bytes.
    Bytes(Vec<u8>),
}

/// The WRITE in a message of `length` words: a byte count, then the bytes,
/// eight per word, least significant first.
pub fn console_write(words: &[u64], length: u64) -> (w: ConsoleWrite)
    requires
        length >= 1,
    ensures
        ({
            let count = word_at(words@, 0);
            if count == CRASH_MAGIC {
                w is Crash
            } else if count > MAX_WRITE || count > (length - 1) * 8 {
                w is Refused
            } else {
                w matches ConsoleWrite::Bytes(b) && b@.len() == count
                    && forall|i: int| 0 <= i < count ==> #[trigger] b@[i] == name_byte(words@, i)
            }
        }),
{
    let count: u64 = if words.len() > 0 { words[0] } else { 0 };
    if count == CRASH_MAGIC {
        return ConsoleWrite::Crash;
    }
    if count > MAX_WRITE || count as u128 > (length as u128 - 1) * 8 {
        return ConsoleWrite::Refused;
    }
    let count = count as usize;
    let mut bytes: Vec<u8> = Vec::new();
    let mut i: usize = 0;
    while i < count
        invariant
            count == word_at(words@, 0),
            count <= MAX_WRITE,
            i <= count,
            bytes@.len() == i,
            forall|k: int| 0 <= k < i ==> #[trigger] bytes@[k] == name_byte(words@, k),
        decreases count - i,
    {
        let n = 1 + i / 8;
        let word: u64 = if n < words.len() { words[n] } else { 0 };
        proof {
            lemma_shift_cast(word, (i % 8) as int);
        }
        bytes.push((word >> (8 * (i % 8)) as u64) as u8);
        i = i + 1;
    }
    ConsoleWrite::Bytes(bytes)
}

/// `s` with a carriage return before every line feed.
pub open spec fn crlf(s: Seq<u8>) -> Seq<u8>
    decreases s.len(),
{
    if s.len() == 0 {
        Seq::empty()
    } else {
        crlf(s.drop_last()) + if s.last() == 10 { seq![13u8, 10u8] } else { seq![s.last()] }
    }
}

/// No line feed reaches the terminal without a carriage return before it.
pub proof fn lemma_crlf_guarded(s: Seq<u8>)
    ensures
        forall|j: int| 0 <= j < crlf(s).len() && #[trigger] crlf(s)[j] == 10 ==> j > 0 && crlf(s)[j - 1] == 13,
    decreases s.len(),
{
    if s.len() > 0 {
        let p = s.drop_last();
        lemma_crlf_guarded(p);
        let head = crlf(p);
        let tail = if s.last() == 10 { seq![13u8, 10u8] } else { seq![s.last()] };
        assert(crlf(s) == head + tail);
        assert forall|j: int| 0 <= j < crlf(s).len() && #[trigger] crlf(s)[j] == 10 implies j > 0 && crlf(s)[j - 1] == 13 by {
            if j < head.len() {
                assert(crlf(s)[j] == head[j]);
                assert(crlf(s)[j - 1] == head[j - 1]);
            } else if s.last() == 10 {
                assert(crlf(s)[j] == tail[j - head.len()]);
                assert(j == head.len() + 1);
                assert(crlf(s)[j - 1] == tail[0]);
            } else {
                assert(crlf(s)[j] == tail[j - head.len()]);
            }
        }
    }
}

/// The bytes to send for `s` on a serial terminal.
pub fn to_terminal(s: &[u8]) -> (out: Vec<u8>)
    ensures
        out@ == crlf(s@),
{
    let mut out: Vec<u8> = Vec::new();
    let mut i: usize = 0;
    while i < s.len()
        invariant
            i <= s@.len(),
            out@ == crlf(s@.take(i as int)),
        decreases s@.len() - i,
    {
        let b = s[i];
        proof {
            assert(s@.take(i as int + 1).drop_last() =~= s@.take(i as int));
        }
        if b == 10 {
            out.push(13);
            out.push(10);
            proof {
                assert(out@ =~= crlf(s@.take(i as int + 1)));
            }
        } else {
            out.push(b);
            proof {
                assert(out@ =~= crlf(s@.take(i as int + 1)));
            }
        }
        i = i + 1;
    }
    proof {
        assert(s@.take(i as int) =~= s@);
    }
    out
}

/// The bytes the kernel console sends for character `c`: its low byte,
/// with a carriage return before a line feed.
pub fn console_putchar(c: usize) -> (out: Vec<u8>)
    ensures
        out@ == crlf(seq![c as u8]),
{
    let b = c as u8;
    let mut out: Vec<u8> = Vec::new();
    if b == 10 {
        out.push(13);
        out.push(10);
    } else {
        out.push(b);
    }
    proof {
        let s = seq![b];
        assert(s.drop_last() =~= Seq::<u8>::empty());
        assert(crlf(s.drop_last()) =~= Seq::<u8>::empty());
        assert(out@ =~= crlf(s));
    }
    out
}

} // verus!
