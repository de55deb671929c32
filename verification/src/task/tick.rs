//! The scheduler tick: a period in timer ticks, armed one shot at a time.
use vstd::prelude::*;

verus! {

/// Nanoseconds per second.
pub const NS_PER_S: u64 = 1_000_000_000;

/// The timer ticks of one scheduler tick of `tick_ns` nanoseconds on a
/// `frequency` Hz timer: rounded up, at least 1.
pub open spec fn period_spec(frequency: u64, tick_ns: u64) -> int {
    let t = (frequency * tick_ns + NS_PER_S - 1) / NS_PER_S as int;
    if t < 1 { 1 } else { t }
}

/// The period of the scheduler tick, in timer ticks. The period must fit in
/// 64 bits.
pub fn period_ticks(frequency: u64, tick_ns: u64) -> (t: u64)
    requires
        period_spec(frequency, tick_ns) <= u64::MAX,
    ensures
        t == period_spec(frequency, tick_ns),
{
    let f = frequency as u128;
    let n = tick_ns as u128;
    proof {
        assert(f * n <= 0xffff_ffff_ffff_ffff * 0xffff_ffff_ffff_ffff) by (nonlinear_arith)
            requires
                f <= 0xffff_ffff_ffff_ffff,
                n <= 0xffff_ffff_ffff_ffff,
        ;
    }
    let product: u128 = f * n;
    let t = (product + (NS_PER_S as u128 - 1)) / NS_PER_S as u128;
    let t = if t < 1 { 1 } else { t };
    t as u64
}

/// The scheduler tick.
pub struct Tick {
    /// The period, once initialized.
    pub period: Option<u64>,
}

impl Tick {
    /// Not initialized.
    pub fn new() -> (t: Self)
        ensures
            t.period is None,
    {
        Tick { period: None }
    }

    /// Set the period for a `frequency` Hz timer and `tick_ns` nanosecond
    /// ticks; only once, and the period must fit in 64 bits.
    pub fn init(&mut self, frequency: u64, tick_ns: u64)
        requires
            old(self).period is None,
            period_spec(frequency, tick_ns) <= u64::MAX,
        ensures
            final(self).period == Some(period_spec(frequency, tick_ns) as u64),
    {
        self.period = Some(period_ticks(frequency, tick_ns));
    }

    /// The next deadline, one period after `now`; the tick must be
    /// initialized and the deadline fit in 64 bits.
    pub fn deadline(&self, now: u64) -> (d: u64)
        requires
            self.period matches Some(p) && now + p <= u64::MAX,
        ensures
            d == now + self.period->0,
    {
        match self.period {
            Some(p) => now + p,
            None => 0,
        }
    }
}

/// Bytes of a kernel stack, guard page excluded.
pub const STACK_SIZE: u64 = 64 * 1024;

/// The page size.
pub const PAGE_SIZE: u64 = 4096;

/// A kernel stack: a page-aligned allocation whose first page is the
/// unmapped guard.
pub struct KernelStack {
    base: u64,
}

impl KernelStack {
    /// The allocation's address.
    pub closed spec fn base(&self) -> u64 {
        self.base
    }

    #[verifier::type_invariant]
    spec fn aligned(&self) -> bool {
        &&& self.base % PAGE_SIZE == 0
        &&& self.base + PAGE_SIZE + STACK_SIZE <= u64::MAX
    }

    /// The allocation a stack needs: its size and alignment.
    pub fn layout() -> (l: (u64, u64))
        ensures
            l.0 == STACK_SIZE + PAGE_SIZE,
            l.1 == PAGE_SIZE,
    {
        (STACK_SIZE + PAGE_SIZE, PAGE_SIZE)
    }

    /// The stack over the allocation at `base`, which an allocator gave for
    /// `layout()`; `None` when `base` is not page aligned or the allocation
    /// would pass the end of the address space.
    pub fn new(base: u64) -> (s: Option<Self>)
        ensures
            (base % PAGE_SIZE == 0 && base + PAGE_SIZE + STACK_SIZE <= u64::MAX) <==> s is Some,
            s matches Some(k) ==> k.base() == base,
    {
        if base % PAGE_SIZE == 0 && base <= u64::MAX - PAGE_SIZE - STACK_SIZE {
            Some(KernelStack { base })
        } else {
            None
        }
    }

    /// The initial stack pointer: the end of the allocation, page aligned,
    /// with the stack directly above the guard page.
    pub fn top(&self) -> (t: u64)
        ensures
            t == self.base() + PAGE_SIZE + STACK_SIZE,
            t % PAGE_SIZE == 0,
            t - STACK_SIZE == self.base() + PAGE_SIZE,
    {
        proof {
            use_type_invariant(self);
        }
        self.base + PAGE_SIZE + STACK_SIZE
    }
}

} // verus!
