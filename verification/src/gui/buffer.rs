//! Fixed-capacity text buffer for the editor window.
use vstd::prelude::*;
use vstd::string::StringSliceAdditionalSpecFns;
use vstd::utf8::valid_utf8;
use crate::text::utf8_text;

verus! {

/// Capacity of the editor buffer in bytes.
pub const BUFFER_BYTES: usize = 192;

pub struct Buffer {
    bytes: Vec<u8>,
    len: usize,
}

/// The text a byte range shows: the range itself when it is valid UTF-8,
/// otherwise nothing.
pub open spec fn shown(bytes: Seq<u8>) -> Seq<u8> {
    if valid_utf8(bytes) {
        bytes
    } else {
        Seq::empty()
    }
}

/// The line-feed byte.
pub const NEWLINE: u8 = 10;

/// `lines` are the newline-separated lines of `text`: consecutive, covering
/// the text, each free of newlines, each but the last ended by one.
pub open spec fn lines_of(text: Seq<u8>, lines: Seq<(usize, usize)>) -> bool {
    &&& lines.len() >= 1
    &&& lines[0].0 == 0
    &&& lines.last().1 == text.len()
    &&& forall|k: int|
        0 <= k < lines.len() ==> #[trigger] lines[k].0 <= lines[k].1 <= text.len() && forall|p: int|
            lines[k].0 <= p < lines[k].1 ==> text[p] != NEWLINE
    &&& forall|k: int|
        0 <= k < lines.len() - 1 ==> text[(#[trigger] lines[k]).1 as int] == NEWLINE && lines[k
            + 1].0 == lines[k].1 + 1
}

impl Buffer {
    /// The stored text, as bytes: the first `text_len()` bytes of the storage.
    pub open spec fn view(&self) -> Seq<u8> {
        self.storage().take(self.text_len() as int)
    }

    /// All backing bytes, including those past the text.
    pub closed spec fn storage(&self) -> Seq<u8> {
        self.bytes@
    }

    /// The number of bytes of text.
    pub closed spec fn text_len(&self) -> nat {
        self.len as nat
    }

    pub open spec fn wf(&self) -> bool {
        &&& self.storage().len() == BUFFER_BYTES
        &&& self.text_len() <= BUFFER_BYTES
    }

    pub fn new() -> (b: Self)
        ensures
            b.wf(),
            b@ == Seq::<u8>::empty(),
            b.storage() == Seq::new(BUFFER_BYTES as nat, |i: int| 0u8),
    {
        let mut bytes: Vec<u8> = Vec::new();
        let mut i: usize = 0;
        while i < BUFFER_BYTES
            invariant
                i <= BUFFER_BYTES,
                bytes@ == Seq::new(i as nat, |j: int| 0u8),
            decreases BUFFER_BYTES - i,
        {
            bytes.push(0);
            i = i + 1;
            assert(bytes@ =~= Seq::new(i as nat, |j: int| 0u8));
        }
        let b = Buffer { bytes, len: 0 };
        assert(b@ =~= Seq::<u8>::empty());
        b
    }

    /// Append a byte; false (and no change) when full.
    pub fn push(&mut self, byte: u8) -> (pushed: bool)
        requires
            old(self).wf(),
        ensures
            final(self).wf(),
            pushed == (old(self)@.len() < BUFFER_BYTES),
            pushed ==> final(self)@ == old(self)@.push(byte)
                && final(self).storage() == old(self).storage().update(old(self)@.len() as int, byte),
            !pushed ==> final(self)@ == old(self)@ && final(self).storage() == old(self).storage(),
    {
        if self.len < BUFFER_BYTES {
            self.bytes.set(self.len, byte);
            self.len = self.len + 1;
            assert(self@ =~= old(self)@.push(byte));
            true
        } else {
            false
        }
    }

    /// Drop the last byte; false (and no change) when empty. The storage
    /// keeps the byte.
    pub fn pop(&mut self) -> (popped: bool)
        requires
            old(self).wf(),
        ensures
            final(self).wf(),
            popped == (old(self)@.len() > 0),
            popped ==> final(self)@ == old(self)@.drop_last(),
            !popped ==> final(self)@ == old(self)@,
            final(self).storage() == old(self).storage(),
    {
        if self.len > 0 {
            self.len = self.len - 1;
            assert(self@ =~= old(self)@.drop_last());
            true
        } else {
            false
        }
    }

    pub fn len(&self) -> (n: usize)
        requires
            self.wf(),
        ensures
            n == self@.len(),
    {
        self.len
    }

    /// The stored byte at `index`; indices past the text read the storage.
    pub fn byte_at(&self, index: usize) -> (b: u8)
        requires
            self.wf(),
            index < BUFFER_BYTES,
        ensures
            b == self.storage()[index as int],
    {
        self.bytes[index]
    }

    /// The storage bytes `start..end` as text, or the empty string when they
    /// are not valid UTF-8.
    pub fn slice(&self, start: usize, end: usize) -> (s: &str)
        requires
            self.wf(),
            start <= end <= BUFFER_BYTES,
        ensures
            s.spec_bytes() == shown(self.storage().subrange(start as int, end as int)),
    {
        let all = self.bytes.as_slice();
        let range = &all[start..end];
        match utf8_text(range) {
            Some(text) => text,
            None => {
                proof {
                    reveal_strlit("");
                }
                ""
            },
        }
    }

    /// The whole text, or the empty string when it is not valid UTF-8.
    pub fn as_str(&self) -> (s: &str)
        requires
            self.wf(),
        ensures
            s.spec_bytes() == shown(self@),
    {
        self.slice(0, self.len)
    }

    /// The text split at newlines into (start, end) byte ranges, one per
    /// line, first line first; the newlines themselves are in no range.
    pub fn line_ranges(&self) -> (lines: Vec<(usize, usize)>)
        requires
            self.wf(),
        ensures
            lines_of(self@, lines@),
    {
        let mut lines: Vec<(usize, usize)> = Vec::new();
        let mut start: usize = 0;
        let mut index: usize = 0;
        while index <= self.len
            invariant
                self.wf(),
                start <= index <= self.len,
                start <= self.len,
                lines@.len() == 0 ==> start == 0,
                lines@.len() > 0 ==> start == lines@.last().1 + 1 && self@[lines@.last().1 as int] == NEWLINE,
                forall|p: int| start <= p < index && p < self.len ==> self@[p] != NEWLINE,
                lines@.len() > 0 ==> lines@[0].0 == 0,
                forall|k: int| 0 <= k < lines@.len() ==> #[trigger] lines@[k].0 <= lines@[k].1 < self.len
                    && self@[lines@[k].1 as int] == NEWLINE
                    && forall|p: int| lines@[k].0 <= p < lines@[k].1 ==> self@[p] != NEWLINE,
                forall|k: int| 0 <= k < lines@.len() - 1 ==> #[trigger] lines@[k + 1].0 == lines@[k].1 + 1,
            decreases self.len + 1 - index,
        {
            if index == self.len || self.bytes[index] == NEWLINE {
                let ghost old_lines = lines@;
                lines.push((start, index));
                proof {
                    assert(lines@.last() == (start, index));
                    assert forall|k: int| 0 <= k < lines@.len() - 1 implies self@[(#[trigger] lines@[k]).1 as int] == NEWLINE
                        && lines@[k + 1].0 == lines@[k].1 + 1 by {
                        assert(lines@[k] == old_lines[k]);
                        assert(old_lines[k].0 <= old_lines[k].1);
                        if k < old_lines.len() - 1 {
                            assert(old_lines[k + 1].0 == old_lines[k].1 + 1);
                            assert(lines@[k + 1] == old_lines[k + 1]);
                        } else {
                            assert(k == old_lines.len() - 1);
                            assert(old_lines.last() == old_lines[k]);
                            assert(lines@[k + 1] == (start, index));
                        }
                    }
                    assert forall|k: int| 0 <= k < lines@.len() implies #[trigger] lines@[k].0 <= lines@[k].1 <= self@.len() && forall|p: int|
                        lines@[k].0 <= p < lines@[k].1 ==> self@[p] != NEWLINE by {
                        if k < old_lines.len() {
                            assert(lines@[k] == old_lines[k]);
                        }
                    }
                }
                if index == self.len {
                    return lines;
                }
                start = index + 1;
            }
            index = index + 1;
        }
        lines
    }
}

} // verus!
