//! Single-core kernel state: a value with a borrow flag, so that a nested
//! mutable access fails at once instead of waiting.
use vstd::prelude::*;

verus! {

/// A value shared by the single CPU's kernel paths.
pub struct SingleCore<T> {
    value: T,
    borrowed: bool,
}

impl<T> SingleCore<T> {
    /// The value.
    pub closed spec fn value(&self) -> T {
        self.value
    }

    /// A borrow is active.
    pub closed spec fn is_borrowed(&self) -> bool {
        self.borrowed
    }

    /// `value`, not borrowed.
    pub fn new(value: T) -> (s: Self)
        ensures
            s.value() == value,
            !s.is_borrowed(),
    {
        SingleCore { value, borrowed: false }
    }

    /// Start a borrow: fails, leaving everything as it is, when one is
    /// already active. Kernel state is only touched with IRQs masked, which
    /// the caller reports in `irqs_masked`.
    pub fn try_borrow_mut(&mut self, irqs_masked: bool) -> (acquired: bool)
        requires
            irqs_masked,
        ensures
            acquired == !old(self).is_borrowed(),
            final(self).is_borrowed(),
            final(self).value() == old(self).value(),
    {
        if self.borrowed {
            return false;
        }
        self.borrowed = true;
        true
    }

    /// Start a borrow that cannot be nested: the value must not be borrowed,
    /// and IRQs must be masked.
    pub fn borrow_mut(&mut self, irqs_masked: bool)
        requires
            irqs_masked,
            !old(self).is_borrowed(),
        ensures
            final(self).is_borrowed(),
            final(self).value() == old(self).value(),
    {
        self.borrowed = true;
    }

    /// End the active borrow; only its holder ends it.
    pub fn release(&mut self)
        requires
            old(self).is_borrowed(),
        ensures
            !final(self).is_borrowed(),
            final(self).value() == old(self).value(),
    {
        self.borrowed = false;
    }

    /// Read the value under the active borrow.
    pub fn get(&self) -> (v: &T)
        requires
            self.is_borrowed(),
        ensures
            *v == self.value(),
    {
        &self.value
    }

    /// Write the value under the active borrow.
    pub fn set(&mut self, value: T)
        requires
            old(self).is_borrowed(),
        ensures
            final(self).is_borrowed(),
            final(self).value() == value,
    {
        self.value = value;
    }
}

/// The borrow rules, exercised: a write under a borrow, a refused nested
/// borrow, an independent borrow of another value, and the write seen by
/// the next borrow. Every check holds.
pub fn run() -> (ok: bool)
    ensures
        ok,
{
    let mut state: SingleCore<u64> = SingleCore::new(0);
    let mut other: SingleCore<()> = SingleCore::new(());
    state.borrow_mut(true);
    state.set(42);
    let mut ok = true;
    ok = ok && !state.try_borrow_mut(true);
    other.borrow_mut(true);
    other.release();
    ok = ok && !state.try_borrow_mut(true);
    state.release();
    ok = ok && state.try_borrow_mut(true);
    ok = ok && *state.get() == 42;
    state.release();
    ok = ok && state.try_borrow_mut(true);
    state.release();
    ok
}

} // verus!
