//! The keypad calculator: left-to-right evaluation with `=`.
use vstd::prelude::*;

verus! {

#[derive(Clone, Copy)]
pub struct Calc {
    pub acc: u32,
    pub entry: u32,
    pub op: Option<u8>,
}

/// `v` clipped to the `u32` range.
pub open spec fn clip_u32(v: int) -> u32 {
    if v > u32::MAX {
        u32::MAX
    } else if v < 0 {
        0
    } else {
        v as u32
    }
}

/// The accumulator after applying `op` with right-hand side `rhs`: `-` and
/// `+` saturate, `*` wraps, `/` by zero leaves the accumulator.
pub open spec fn applied(acc: u32, op: u8, rhs: u32) -> u32 {
    if op == '-' as u8 {
        clip_u32(acc - rhs)
    } else if op == '*' as u8 {
        ((acc as int * rhs as int) % 0x1_0000_0000) as u32
    } else if op == '/' as u8 {
        if rhs > 0 {
            (acc / rhs) as u32
        } else {
            acc
        }
    } else {
        clip_u32(acc + rhs)
    }
}

pub open spec fn is_operator(key: u8) -> bool {
    key == '+' as u8 || key == '-' as u8 || key == '*' as u8 || key == '/' as u8
}

/// Keys the calculator takes.
pub open spec fn calc_accepts(key: u8) -> bool {
    '0' as u8 <= key <= '9' as u8 || is_operator(key) || key == '=' as u8
}

/// What each operator computes on the accumulator `acc` and right-hand
/// side `rhs`: `/` the integer quotient (and nothing happens on division by
/// zero), `+` the sum capped at `u32::MAX`, `-` the difference floored at
/// 0, `*` the product modulo 2^32.
pub proof fn lemma_operators(acc: u32, rhs: u32)
    ensures
        ({
            let q = applied(acc, '/' as u8, rhs) as int;
            rhs > 0 ==> q * rhs <= acc < (q + 1) * rhs
        }),
        rhs == 0 ==> applied(acc, '/' as u8, rhs) == acc,
        applied(acc, '+' as u8, rhs) as int == if acc + rhs > u32::MAX { u32::MAX as int } else { acc + rhs },
        applied(acc, '-' as u8, rhs) as int == if acc >= rhs { acc - rhs } else { 0 },
        (applied(acc, '*' as u8, rhs) as int - acc * rhs) % 0x1_0000_0000 == 0,
        0 <= applied(acc, '*' as u8, rhs) < 0x1_0000_0000,
{
    if rhs > 0 {
        let q = (acc / rhs) as int;
        assert(q * rhs <= acc < (q + 1) * rhs) by (nonlinear_arith)
            requires q == acc as int / rhs as int, rhs > 0, acc >= 0;
    }
    let p = acc as int * rhs as int;
    let m = p % 0x1_0000_0000;
    assert((m - p) % 0x1_0000_0000 == 0) by (nonlinear_arith)
        requires m == p % 0x1_0000_0000, p >= 0;
}

/// Pressing `=` after `a / b` with `b` non-zero shows the integer quotient.
pub proof fn lemma_equals_divides(c: Calc)
    requires
        c.op == Some('/' as u8),
        c.entry > 0,
    ensures
        ({
            let shown = calc_display(calc_pushed(c, '=' as u8)) as int;
            shown * c.entry <= c.acc < (shown + 1) * c.entry
        }),
{
    lemma_operators(c.acc, c.entry);
}

/// The accumulator once the entry is combined into it: the pending operator
/// applies, and with none pending the entry is the first operand.
pub open spec fn combined(c: Calc) -> u32 {
    match c.op {
        Some(pending) => applied(c.acc, pending, c.entry),
        None => c.entry,
    }
}

/// The calculator after `key`.
pub open spec fn calc_pushed(c: Calc, key: u8) -> Calc {
    if '0' as u8 <= key <= '9' as u8 {
        Calc { entry: clip_u32(c.entry * 10 + (key - '0' as u8)), ..c }
    } else if is_operator(key) {
        Calc { acc: combined(c), entry: 0, op: Some(key) }
    } else if key == '=' as u8 {
        match c.op {
            Some(pending) => Calc { acc: applied(c.acc, pending, c.entry), entry: 0, op: None },
            None => c,
        }
    } else {
        c
    }
}

/// What the calculator shows.
pub open spec fn calc_display(c: Calc) -> u32 {
    if c.entry > 0 {
        c.entry
    } else {
        c.acc
    }
}

impl Calc {
    pub fn new() -> (c: Self)
        ensures
            c == (Calc { acc: 0, entry: 0, op: None }),
    {
        Calc { acc: 0, entry: 0, op: None }
    }

    /// Shift a decimal digit into the entry, saturating.
    pub fn digit(&mut self, d: u32)
        ensures
            *final(self) == (Calc { entry: clip_u32(old(self).entry * 10 + d), ..*old(self) }),
    {
        let shifted = if self.entry > u32::MAX / 10 { u32::MAX } else { self.entry * 10 };
        self.entry = shifted.saturating_add(d);
    }

    /// Combine the entry into the accumulator with the pending operator, or
    /// with `op` when none is pending; the entry clears.
    pub fn apply(&mut self, op: u8)
        ensures
            *final(self) == (Calc {
                acc: applied(
                    old(self).acc,
                    match old(self).op {
                        Some(pending) => pending,
                        None => op,
                    },
                    old(self).entry,
                ),
                entry: 0,
                ..*old(self)
            }),
            (match old(self).op { Some(p) => p, None => op }) == '/' as u8 && old(self).entry > 0 ==>
                final(self).acc * old(self).entry <= old(self).acc < (final(self).acc + 1) * old(self).entry,
    {
        proof {
            lemma_operators(self.acc, self.entry);
        }
        let rhs = self.entry;
        let chosen = match self.op {
            Some(pending) => pending,
            None => op,
        };
        self.acc = if chosen == ('-' as u8) {
            self.acc.saturating_sub(rhs)
        } else if chosen == ('*' as u8) {
            self.acc.wrapping_mul(rhs)
        } else if chosen == ('/' as u8) {
            if rhs > 0 {
                self.acc / rhs
            } else {
                self.acc
            }
        } else {
            self.acc.saturating_add(rhs)
        };
        self.entry = 0;
    }

    /// Feed one key: digits, `+ - * /` (apply the pending operator, or take
    /// the entry as the first operand, and remember the new one) and `=`
    /// (apply the pending operator, if any). Other keys are refused.
    pub fn push(&mut self, key: u8) -> (accepted: bool)
        ensures
            accepted == calc_accepts(key),
            *final(self) == calc_pushed(*old(self), key),
    {
        if ('0' as u8) <= key && key <= ('9' as u8) {
            self.digit((key - ('0' as u8)) as u32);
            true
        } else if key == ('+' as u8) || key == ('-' as u8) || key == ('*' as u8) || key == ('/' as u8) {
            if self.op.is_some() {
                self.apply(key);
            } else {
                self.acc = self.entry;
                self.entry = 0;
            }
            self.op = Some(key);
            true
        } else if key == ('=' as u8) {
            if let Some(op) = self.op {
                self.op = None;
                self.apply(op);
            }
            true
        } else {
            false
        }
    }

    /// The entry while one is being typed, else the accumulator.
    pub fn display(&self) -> (v: u32)
        ensures
            v == calc_display(*self),
    {
        if self.entry > 0 {
            self.entry
        } else {
            self.acc
        }
    }
}

} // verus!
