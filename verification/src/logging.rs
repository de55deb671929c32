//! The kernel log: the level a build selects, which records pass it, their
//! colours, and the guard that keeps a record from interleaving with
//! another.
use vstd::prelude::*;
use crate::gui::keys::{decimal, u32_to_str};

verus! {

/// Terminal colours.
#[derive(Clone, Copy, PartialEq, Eq, Structural, Debug)]
pub enum ColorCode {
    Red,
    Green,
    Yellow,
    Cyan,
    BrightBlack,
    BrightRed,
    BrightGreen,
    BrightYellow,
    BrightCyan,
}

/// The SGR number of a colour.
pub open spec fn color_number(c: ColorCode) -> u8 {
    match c {
        ColorCode::Red => 31,
        ColorCode::Green => 32,
        ColorCode::Yellow => 33,
        ColorCode::Cyan => 36,
        ColorCode::BrightBlack => 90,
        ColorCode::BrightRed => 91,
        ColorCode::BrightGreen => 92,
        ColorCode::BrightYellow => 93,
        ColorCode::BrightCyan => 96,
    }
}

impl ColorCode {
    /// The SGR number of the colour.
    pub fn code(&self) -> (n: u8)
        ensures
            n == color_number(*self),
    {
        match self {
            ColorCode::Red => 31,
            ColorCode::Green => 32,
            ColorCode::Yellow => 33,
            ColorCode::Cyan => 36,
            ColorCode::BrightBlack => 90,
            ColorCode::BrightRed => 91,
            ColorCode::BrightGreen => 92,
            ColorCode::BrightYellow => 93,
            ColorCode::BrightCyan => 96,
        }
    }

    /// The escape sequence that selects the colour: ESC `[`, the number,
    /// `m`.
    pub fn escape(&self) -> (s: Vec<u8>)
        ensures
            s@ == seq![27u8, 91u8] + decimal(color_number(*self) as nat) + seq![109u8],
    {
        let mut s: Vec<u8> = Vec::new();
        s.push(27);
        s.push(91);
        let digits = u32_to_str(self.code() as u32);
        let mut k: usize = 0;
        while k < digits.len()
            invariant
                k <= digits@.len(),
                s@ == seq![27u8, 91u8] + digits@.take(k as int),
            decreases digits@.len() - k,
        {
            s.push(digits[k]);
            proof {
                assert(digits@.take(k as int + 1) =~= digits@.take(k as int).push(digits@[k as int]));
                assert(s@ =~= seq![27u8, 91u8] + digits@.take(k as int + 1));
            }
            k = k + 1;
        }
        assert(digits@.take(digits@.len() as int) =~= digits@);
        s.push(109);
        assert(s@ =~= seq![27u8, 91u8] + decimal(color_number(*self) as nat) + seq![109u8]);
        s
    }
}

/// The severity of a record.
#[derive(Clone, Copy, PartialEq, Eq, Structural, Debug)]
pub enum Level {
    Error,
    Warn,
    Info,
    Debug,
    Trace,
}

/// The most verbose level a build lets through.
#[derive(Clone, Copy, PartialEq, Eq, Structural, Debug)]
pub enum LevelFilter {
    Off,
    Error,
    Warn,
    Info,
    Debug,
    Trace,
}

/// 1 for errors up to 5 for traces.
pub open spec fn level_rank(l: Level) -> int {
    match l {
        Level::Error => 1,
        Level::Warn => 2,
        Level::Info => 3,
        Level::Debug => 4,
        Level::Trace => 5,
    }
}

/// 0 for off, up to 5 for traces.
pub open spec fn filter_rank(f: LevelFilter) -> int {
    match f {
        LevelFilter::Off => 0,
        LevelFilter::Error => 1,
        LevelFilter::Warn => 2,
        LevelFilter::Info => 3,
        LevelFilter::Debug => 4,
        LevelFilter::Trace => 5,
    }
}

fn level_number(l: Level) -> (n: u8)
    ensures
        n == level_rank(l),
{
    match l {
        Level::Error => 1,
        Level::Warn => 2,
        Level::Info => 3,
        Level::Debug => 4,
        Level::Trace => 5,
    }
}

fn filter_number(f: LevelFilter) -> (n: u8)
    ensures
        n == filter_rank(f),
{
    match f {
        LevelFilter::Off => 0,
        LevelFilter::Error => 1,
        LevelFilter::Warn => 2,
        LevelFilter::Info => 3,
        LevelFilter::Debug => 4,
        LevelFilter::Trace => 5,
    }
}

/// A record of `level` passes the filter `max`.
pub fn enabled(level: Level, max: LevelFilter) -> (b: bool)
    ensures
        b == (level_rank(level) <= filter_rank(max)),
{
    level_number(level) <= filter_number(max)
}

fn is_text(s: &[u8], lit: &[u8]) -> (b: bool)
    ensures
        b == (s@ == lit@),
{
    if s.len() != lit.len() {
        return false;
    }
    let mut k: usize = 0;
    while k < s.len()
        invariant
            k <= s@.len(),
            s@.len() == lit@.len(),
            forall|j: int| 0 <= j < k ==> s@[j] == lit@[j],
        decreases s@.len() - k,
    {
        if s[k] != lit[k] {
            return false;
        }
        k = k + 1;
    }
    assert(s@ =~= lit@);
    true
}

pub open spec fn error_word() -> Seq<u8> { seq![101u8, 114u8, 114u8, 111u8, 114u8] }
pub open spec fn warn_word() -> Seq<u8> { seq![119u8, 97u8, 114u8, 110u8] }
pub open spec fn info_word() -> Seq<u8> { seq![105u8, 110u8, 102u8, 111u8] }
pub open spec fn debug_word() -> Seq<u8> { seq![100u8, 101u8, 98u8, 117u8, 103u8] }
pub open spec fn trace_word() -> Seq<u8> { seq![116u8, 114u8, 97u8, 99u8, 101u8] }

/// The filter a build's `LOG` setting names; `info` when it is unset, off
/// for any other word.
pub fn level_from_name(name: Option<&[u8]>) -> (f: LevelFilter)
    ensures
        f == match name {
            None => LevelFilter::Info,
            Some(n) => if n@ == error_word() {
                LevelFilter::Error
            } else if n@ == warn_word() {
                LevelFilter::Warn
            } else if n@ == info_word() {
                LevelFilter::Info
            } else if n@ == debug_word() {
                LevelFilter::Debug
            } else if n@ == trace_word() {
                LevelFilter::Trace
            } else {
                LevelFilter::Off
            },
        },
{
    let n = match name {
        None => return LevelFilter::Info,
        Some(n) => n,
    };
    let error: [u8; 5] = [101, 114, 114, 111, 114];
    let warn: [u8; 4] = [119, 97, 114, 110];
    let info: [u8; 4] = [105, 110, 102, 111];
    let debug: [u8; 5] = [100, 101, 98, 117, 103];
    let trace: [u8; 5] = [116, 114, 97, 99, 101];
    assert(error@ =~= error_word());
    assert(warn@ =~= warn_word());
    assert(info@ =~= info_word());
    assert(debug@ =~= debug_word());
    assert(trace@ =~= trace_word());
    if is_text(n, error.as_slice()) {
        LevelFilter::Error
    } else if is_text(n, warn.as_slice()) {
        LevelFilter::Warn
    } else if is_text(n, info.as_slice()) {
        LevelFilter::Info
    } else if is_text(n, debug.as_slice()) {
        LevelFilter::Debug
    } else if is_text(n, trace.as_slice()) {
        LevelFilter::Trace
    } else {
        LevelFilter::Off
    }
}

/// The colours of a record: its level tag, then its message.
pub fn colors(level: Level) -> (c: (ColorCode, ColorCode))
    ensures
        c == match level {
            Level::Error => (ColorCode::BrightRed, ColorCode::Red),
            Level::Warn => (ColorCode::BrightYellow, ColorCode::Yellow),
            Level::Info => (ColorCode::BrightGreen, ColorCode::Green),
            Level::Debug => (ColorCode::BrightCyan, ColorCode::Cyan),
            Level::Trace => (ColorCode::BrightBlack, ColorCode::BrightBlack),
        },
{
    match level {
        Level::Error => (ColorCode::BrightRed, ColorCode::Red),
        Level::Warn => (ColorCode::BrightYellow, ColorCode::Yellow),
        Level::Info => (ColorCode::BrightGreen, ColorCode::Green),
        Level::Debug => (ColorCode::BrightCyan, ColorCode::Cyan),
        Level::Trace => (ColorCode::BrightBlack, ColorCode::BrightBlack),
    }
}

/// The console guard while a record is written.
pub struct LogGuard {
    /// The console answered its initialization.
    pub ready: bool,
    /// A record is being written.
    pub writing: bool,
}

impl LogGuard {
    /// Before the console is initialized.
    pub fn new() -> (g: Self)
        ensures
            !g.ready,
            !g.writing,
    {
        LogGuard { ready: false, writing: false }
    }

    /// The console's initialization answered `ok`.
    pub fn set_ready(&mut self, ok: bool)
        ensures
            final(self).ready == ok,
            final(self).writing == old(self).writing,
    {
        self.ready = ok;
    }

    /// Start a log line that passes the filter or not: it goes out only when
    /// it passes, the console is ready and no other line is going out; the
    /// guard is then taken.
    pub fn begin(&mut self, passes: bool) -> (write: bool)
        ensures
            write == (passes && old(self).ready && !old(self).writing),
            final(self).ready == old(self).ready,
            final(self).writing == (old(self).writing || write),
    {
        if !passes || !self.ready || self.writing {
            return false;
        }
        self.writing = true;
        true
    }

    /// The line went out: release the guard.
    pub fn end(&mut self)
        ensures
            final(self).ready == old(self).ready,
            !final(self).writing,
    {
        self.writing = false;
    }

    /// Take the guard for good, as a panic in the middle of a line does.
    pub fn hold(&mut self)
        ensures
            final(self).ready == old(self).ready,
            final(self).writing,
    {
        self.writing = true;
    }
}

/// The name a record's level shows: `ERROR`, `WARN`, `INFO`, `DEBUG`,
/// `TRACE`.
pub open spec fn level_name(level: Level) -> Seq<u8> {
    match level {
        Level::Error => seq![69u8, 82u8, 82u8, 79u8, 82u8],
        Level::Warn => seq![87u8, 65u8, 82u8, 78u8],
        Level::Info => seq![73u8, 78u8, 70u8, 79u8],
        Level::Debug => seq![68u8, 69u8, 66u8, 85u8, 71u8],
        Level::Trace => seq![84u8, 82u8, 65u8, 67u8, 69u8],
    }
}

/// The escape sequence that selects colour `c`.
pub open spec fn escape_of(c: ColorCode) -> Seq<u8> {
    seq![27u8, 91u8] + decimal(color_number(c) as nat) + seq![109u8]
}

/// The escape sequence that resets the colour: ESC `[0m`.
pub open spec fn reset_code() -> Seq<u8> {
    seq![27u8, 91u8, 48u8, 109u8]
}

/// One log line: `[`, the level in its colour, a reset, a space, the file
/// (`?` when unknown), `:`, the line (0 when unknown), `] `, the message in
/// its colour, a reset and a line feed.
pub open spec fn log_line_spec(level: Level, file: Option<Seq<u8>>, line: Option<u32>, message: Seq<u8>) -> Seq<u8> {
    let (level_color, args_color) = match level {
        Level::Error => (ColorCode::BrightRed, ColorCode::Red),
        Level::Warn => (ColorCode::BrightYellow, ColorCode::Yellow),
        Level::Info => (ColorCode::BrightGreen, ColorCode::Green),
        Level::Debug => (ColorCode::BrightCyan, ColorCode::Cyan),
        Level::Trace => (ColorCode::BrightBlack, ColorCode::BrightBlack),
    };
    let file_text = match file {
        Some(f) => f,
        None => seq![63u8],
    };
    let line_number = match line {
        Some(n) => n,
        None => 0u32,
    };
    seq![91u8] + escape_of(level_color) + level_name(level) + reset_code() + seq![32u8] + file_text
        + seq![58u8] + decimal(line_number as nat) + seq![93u8, 32u8] + escape_of(args_color) + message
        + reset_code() + seq![10u8]
}

fn append(out: &mut Vec<u8>, bytes: &[u8])
    ensures
        final(out)@ == old(out)@ + bytes@,
{
    let mut k: usize = 0;
    while k < bytes.len()
        invariant
            k <= bytes@.len(),
            out@ == old(out)@ + bytes@.take(k as int),
        decreases bytes@.len() - k,
    {
        out.push(bytes[k]);
        proof {
            assert(bytes@.take(k as int + 1) =~= bytes@.take(k as int).push(bytes@[k as int]));
        }
        k = k + 1;
        assert(out@ =~= old(out)@ + bytes@.take(k as int));
    }
    assert(bytes@.take(bytes@.len() as int) =~= bytes@);
}

/// The line a record of `level` from `file`:`line` with text `message` is
/// written as.
pub fn log_line(level: Level, file: Option<&[u8]>, line: Option<u32>, message: &[u8]) -> (out: Vec<u8>)
    ensures
        out@ == log_line_spec(level, match file {
            Some(f) => Some(f@),
            None => None,
        }, line, message@),
{
    let (level_color, args_color) = colors(level);
    let mut out: Vec<u8> = Vec::new();
    out.push(91);
    let e = level_color.escape();
    append(&mut out, e.as_slice());
    let name: Vec<u8> = match level {
        Level::Error => vec![69u8, 82u8, 82u8, 79u8, 82u8],
        Level::Warn => vec![87u8, 65u8, 82u8, 78u8],
        Level::Info => vec![73u8, 78u8, 70u8, 79u8],
        Level::Debug => vec![68u8, 69u8, 66u8, 85u8, 71u8],
        Level::Trace => vec![84u8, 82u8, 65u8, 67u8, 69u8],
    };
    append(&mut out, name.as_slice());
    let reset: Vec<u8> = vec![27u8, 91u8, 48u8, 109u8];
    append(&mut out, reset.as_slice());
    out.push(32);
    match file {
        Some(f) => append(&mut out, f),
        None => out.push(63),
    }
    out.push(58);
    let number = match line {
        Some(n) => n,
        None => 0,
    };
    let digits = u32_to_str(number);
    append(&mut out, digits.as_slice());
    out.push(93);
    out.push(32);
    let a = args_color.escape();
    append(&mut out, a.as_slice());
    append(&mut out, message);
    append(&mut out, reset.as_slice());
    out.push(10);
    proof {
        let fs = match file {
            Some(f) => Some(f@),
            None => None,
        };
        assert(name@ == level_name(level));
        assert(reset@ == reset_code());
        assert(out@ =~= log_line_spec(level, fs, line, message@));
    }
    out
}

} // verus!
