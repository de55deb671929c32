//! A tiny fixed-capacity argv holder (no allocator in the client task).
use vstd::prelude::*;

verus! {

pub struct Args<const N: usize> {
    slots: Vec<&'static str>,
    used: usize,
}

impl<const N: usize> Args<N> {
    /// The slots; unused ones hold the empty string.
    pub closed spec fn slots(&self) -> Seq<&'static str> {
        self.slots@
    }

    /// How many arguments were pushed.
    pub closed spec fn used(&self) -> nat {
        self.used as nat
    }

    pub closed spec fn wf(&self) -> bool {
        &&& self.slots@.len() == N
        &&& self.used <= N
    }

    pub fn new() -> (args: Self)
        ensures
            args.wf(),
            args.used() == 0,
            args.slots() == Seq::new(N as nat, |i: int| ""),
    {
        let mut slots: Vec<&'static str> = Vec::new();
        let mut i: usize = 0;
        while i < N
            invariant
                i <= N,
                slots@ == Seq::new(i as nat, |j: int| ""),
            decreases N - i,
        {
            slots.push("");
            i = i + 1;
            assert(slots@ =~= Seq::new(i as nat, |j: int| ""));
        }
        Args { slots, used: 0 }
    }

    /// Store `value` in the next free slot; ignored once all `N` are used.
    pub fn push(&mut self, value: &'static str)
        requires
            old(self).wf(),
        ensures
            final(self).wf(),
            old(self).used() < N ==> final(self).used() == old(self).used() + 1
                && final(self).slots() == old(self).slots().update(old(self).used() as int, value),
            old(self).used() >= N ==> final(self).used() == old(self).used()
                && final(self).slots() == old(self).slots(),
    {
        if self.used < N {
            self.slots.set(self.used, value);
            self.used = self.used + 1;
        }
    }

    /// Slot zero, whether or not anything was pushed (`None` only when `N` is 0).
    pub fn first(&self) -> (r: Option<&'static str>)
        requires
            self.wf(),
        ensures
            r == (if N > 0 {
                Some(self.slots()[0])
            } else {
                None
            }),
    {
        if N > 0 {
            Some(self.slots[0])
        } else {
            None
        }
    }

    /// Slot `index`, pushed or not; `None` past the capacity.
    pub fn get(&self, index: usize) -> (r: Option<&'static str>)
        requires
            self.wf(),
        ensures
            r == (if index < N {
                Some(self.slots()[index as int])
            } else {
                None
            }),
    {
        if index < N {
            Some(self.slots[index])
        } else {
            None
        }
    }

    /// No argument was pushed: `first()` alone cannot tell, since it always
    /// answers the slot-zero placeholder.
    pub fn is_empty(&self) -> (b: bool)
        requires
            self.wf(),
        ensures
            b == (self.used() == 0),
    {
        self.used == 0
    }
}

} // verus!
