//! Line editing for the interactive shell: one input byte at a time, with
//! echo, backspace, Ctrl-C and Ctrl-D.
use vstd::prelude::*;

verus! {

/// Longest command line.
pub const LINE_MAX: usize = 128;

/// Enter (either of CR and LF).
pub open spec fn is_enter(b: u8) -> bool {
    b == 13 || b == 10
}

/// DEL or BS.
pub open spec fn is_backspace(b: u8) -> bool {
    b == 0x7f || b == 0x08
}

/// A printable ASCII byte, space to tilde.
pub open spec fn is_printable(b: u8) -> bool {
    0x20 <= b <= 0x7e
}

/// What the reader does after a byte.
#[derive(Clone, Copy, PartialEq, Eq, Structural, Debug)]
pub enum LineStep {
    /// Keep reading.
    More,
    /// The line is complete; `line()` holds it.
    Done,
    /// End of input (Ctrl-D).
    Eof,
    /// Nothing arrived: wait a little before polling again.
    Idle,
}

/// The editor's state after `input`, what it prints and what comes next.
pub open spec fn edit(line: Seq<u8>, input: Option<u8>) -> (Seq<u8>, Seq<u8>, LineStep) {
    match input {
        None => (line, Seq::empty(), LineStep::Idle),
        Some(b) => if is_enter(b) {
            (line, seq![10u8], LineStep::Done)
        } else if is_backspace(b) {
            if line.len() > 0 {
                (line.drop_last(), seq![8u8, 32u8, 8u8], LineStep::More)
            } else {
                (line, Seq::empty(), LineStep::More)
            }
        } else if b == 3 {
            (Seq::empty(), seq![94u8, 67u8, 10u8], LineStep::Done)
        } else if b == 4 {
            (line, Seq::empty(), LineStep::Eof)
        } else if is_printable(b) && line.len() < LINE_MAX {
            (line.push(b), seq![b], LineStep::More)
        } else {
            (line, Seq::empty(), LineStep::More)
        },
    }
}

/// Editing keeps the line a record of what was typed: a printable byte with
/// room is appended and echoed, a backspace on a non-empty line erases the
/// last byte and no other, and a backspace right after typing a byte
/// undoes it.
pub proof fn lemma_typing_and_erasing(line: Seq<u8>, b: u8, del: u8)
    requires
        line.len() <= LINE_MAX,
        is_backspace(del),
    ensures
        line.len() > 0 ==> {
            let erased = edit(line, Some(del)).0;
            &&& erased.len() == line.len() - 1
            &&& forall|i: int| 0 <= i < erased.len() ==> erased[i] == line[i]
        },
        line.len() == 0 ==> edit(line, Some(del)).0 == line,
        (0x20 <= b <= 0x7e && line.len() < LINE_MAX) ==> {
            let typed = edit(line, Some(b)).0;
            &&& typed.len() == line.len() + 1
            &&& forall|i: int| 0 <= i < line.len() ==> typed[i] == line[i]
            &&& typed[line.len() as int] == b
            &&& edit(line, Some(b)).1 == seq![b]
            &&& edit(typed, Some(del)).0 == line
        },
{
    if 0x20 <= b <= 0x7e && line.len() < LINE_MAX {
        assert(line.push(b).drop_last() =~= line);
    }
}

/// A command line being typed.
pub struct LineEditor {
    line: Vec<u8>,
}

impl LineEditor {
    /// The bytes typed so far.
    pub closed spec fn view(&self) -> Seq<u8> {
        self.line@
    }

    /// An empty line.
    pub fn new() -> (e: Self)
        ensures
            e@ == Seq::<u8>::empty(),
    {
        LineEditor { line: Vec::new() }
    }

    /// The bytes typed so far.
    pub fn line(&self) -> (l: &[u8])
        ensures
            l@ == self@,
    {
        self.line.as_slice()
    }

    /// Take one polled byte (`None` when the console had none): the bytes to
    /// echo and what comes next. A complete line stays readable through
    /// `line()` until `clear`.
    pub fn feed(&mut self, input: Option<u8>) -> (r: (Vec<u8>, LineStep))
        requires
            old(self)@.len() <= LINE_MAX,
        ensures
            (final(self)@, r.0@, r.1) == edit(old(self)@, input),
            final(self)@.len() <= LINE_MAX,
            (input matches Some(b) && is_backspace(b) && old(self)@.len() > 0) ==>
                final(self)@ == old(self)@.take(old(self)@.len() - 1),
    {
        let mut echo: Vec<u8> = Vec::new();
        match input {
            None => (echo, LineStep::Idle),
            Some(b) => {
                if b == 13 || b == 10 {
                    echo.push(10);
                    (echo, LineStep::Done)
                } else if b == 0x7f || b == 0x08 {
                    if self.line.len() > 0 {
                        self.line.pop();
                        echo.push(8);
                        echo.push(32);
                        echo.push(8);
                    }
                    (echo, LineStep::More)
                } else if b == 3 {
                    self.line.clear();
                    echo.push(94);
                    echo.push(67);
                    echo.push(10);
                    (echo, LineStep::Done)
                } else if b == 4 {
                    (echo, LineStep::Eof)
                } else if 0x20 <= b && b <= 0x7e && self.line.len() < LINE_MAX {
                    self.line.push(b);
                    echo.push(b);
                    (echo, LineStep::More)
                } else {
                    (echo, LineStep::More)
                }
            },
        }
    }

    /// Start a new line.
    pub fn clear(&mut self)
        ensures
            final(self)@ == Seq::<u8>::empty(),
    {
        self.line.clear();
    }
}

} // verus!
