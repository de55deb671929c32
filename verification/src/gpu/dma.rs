//! DMA frames for the display driver: handed out in order from a fixed run
//! of capability slots, mapped into a fixed window, and logged so the one as
//! large as the framebuffer can be found again.
use vstd::prelude::*;

verus! {

/// The first DMA frame's capability slot.
pub const DMA_SLOT: u64 = 200;

/// DMA frames there are slots for.
pub const DMA_MAX_PAGES: u64 = 512;

/// Where the first DMA frame is mapped.
pub const DMA_VA: u64 = 0x0400_8000;

/// Frames one retype call carves at most.
pub const RETYPE_MAX: u64 = 32;

/// Allocations the log keeps.
pub const LOG_LEN: usize = 16;

/// One logged allocation.
#[derive(Clone, Copy, PartialEq, Eq, Structural, Debug)]
pub struct Allocation {
    pub first_slot: u64,
    pub pages: u64,
    pub vaddr: u64,
}

/// The DMA allocator behind the display driver's `Hal`.
pub struct HalImpl {
    next_slot: u64,
    log: Vec<Allocation>,
}

/// A reservation: the frames at `slot ..` mapped from `vaddr`.
#[derive(Clone, Copy, PartialEq, Eq, Structural, Debug)]
pub struct Reservation {
    pub slot: u64,
    pub vaddr: u64,
}

/// The address of DMA slot `slot`.
pub open spec fn slot_va(slot: int) -> int {
    DMA_VA + (slot - DMA_SLOT) * 0x1000
}

/// The first logged allocation of exactly `pages` frames.
pub open spec fn first_of(log: Seq<Allocation>, pages: u64) -> Option<int> {
    if exists|i: int| 0 <= i < log.len() && #[trigger] log[i].pages == pages {
        Some(choose|i: int| 0 <= i < log.len() && #[trigger] log[i].pages == pages
            && forall|j: int| 0 <= j < i ==> #[trigger] log[j].pages != pages)
    } else {
        None
    }
}

impl HalImpl {
    /// The next free slot.
    pub closed spec fn next(&self) -> u64 {
        self.next_slot
    }

    /// The allocations logged so far.
    pub closed spec fn allocations(&self) -> Seq<Allocation> {
        self.log@
    }

    /// Slots stay inside their run and the log inside its length.
    pub closed spec fn wf(&self) -> bool {
        &&& DMA_SLOT <= self.next_slot <= DMA_SLOT + DMA_MAX_PAGES
        &&& self.log@.len() <= LOG_LEN
        &&& forall|i: int| 0 <= i < self.log@.len() ==> #[trigger] self.log@[i].pages <= DMA_MAX_PAGES
    }

    /// Nothing handed out yet.
    pub fn new() -> (h: Self)
        ensures
            h.wf(),
            h.next() == DMA_SLOT,
            h.allocations() == Seq::<Allocation>::empty(),
    {
        HalImpl { next_slot: DMA_SLOT, log: Vec::new() }
    }

    /// Where `pages` frames would go: `None` for 0 pages or when the slots
    /// run out.
    pub fn reserve(&self, pages: u64) -> (r: Option<Reservation>)
        requires
            self.wf(),
        ensures
            (pages == 0 || self.next() + pages > DMA_SLOT + DMA_MAX_PAGES) <==> r is None,
            r matches Some(x) ==> x.slot == self.next() && x.vaddr == slot_va(self.next() as int),
    {
        if pages == 0 || pages > DMA_SLOT + DMA_MAX_PAGES - self.next_slot {
            return None;
        }
        Some(Reservation { slot: self.next_slot, vaddr: DMA_VA + (self.next_slot - DMA_SLOT) * 0x1000 })
    }

    /// The reserved frames were carved and mapped: the slots move on and the
    /// allocation is logged while the log has room.
    pub fn commit(&mut self, r: Reservation, pages: u64)
        requires
            old(self).wf(),
            r.slot == old(self).next(),
            pages > 0,
            old(self).next() + pages <= DMA_SLOT + DMA_MAX_PAGES,
        ensures
            final(self).wf(),
            final(self).next() == old(self).next() + pages,
            final(self).allocations() == if old(self).allocations().len() < LOG_LEN {
                old(self).allocations().push(Allocation { first_slot: r.slot, pages, vaddr: r.vaddr })
            } else {
                old(self).allocations()
            },
    {
        self.next_slot = self.next_slot + pages;
        if self.log.len() < LOG_LEN {
            self.log.push(Allocation { first_slot: r.slot, pages, vaddr: r.vaddr });
        }
    }

    /// The slot, address and byte size of the first allocation of exactly
    /// `pages` frames.
    pub fn find_allocation(&self, pages: u64) -> (r: Option<(u64, u64, u64)>)
        requires
            self.wf(),
        ensures
            match first_of(self.allocations(), pages) {
                Some(i) => {
                    let a = self.allocations()[i];
                    r == Some((a.first_slot, a.vaddr, (a.pages * 0x1000) as u64))
                },
                None => r is None,
            },
    {
        let mut i: usize = 0;
        while i < self.log.len()
            invariant
                self.wf(),
                i <= self.log@.len(),
                forall|j: int| 0 <= j < i ==> #[trigger] self.log@[j].pages != pages,
            decreases self.log@.len() - i,
        {
            let a = self.log[i];
            if a.pages == pages {
                proof {
                    let w = choose|w: int| 0 <= w < self.log@.len() && #[trigger] self.log@[w].pages == pages
                        && forall|j: int| 0 <= j < w ==> #[trigger] self.log@[j].pages != pages;
                    assert(0 <= i < self.log@.len() && self.log@[i as int].pages == pages
                        && forall|j: int| 0 <= j < i ==> #[trigger] self.log@[j].pages != pages);
                    if w < i {
                    } else if w > i {
                        assert(self.log@[i as int].pages != pages);
                    }
                }
                return Some((a.first_slot, a.vaddr, a.pages * 0x1000));
            }
            i = i + 1;
        }
        None
    }
}

/// The retype calls that carve `pages` frames from `slot` on: `(slot, count)`
/// pairs of at most `RETYPE_MAX` frames, contiguous and in order.
pub fn retype_chunks(slot: u64, pages: u64) -> (chunks: Vec<(u64, u64)>)
    requires
        slot + pages <= u64::MAX,
    ensures
        chunks@.len() == (pages + RETYPE_MAX - 1) / RETYPE_MAX as int,
        forall|k: int| 0 <= k < chunks@.len() ==> {
            let start = k * RETYPE_MAX;
            let rest = pages - start;
            #[trigger] chunks@[k] == ((slot + start) as u64, (if rest < RETYPE_MAX { rest } else { RETYPE_MAX as int }) as u64)
        },
{
    let n = pages / RETYPE_MAX + if pages % RETYPE_MAX == 0 { 0 } else { 1 };
    proof {
        assert(n == (pages + RETYPE_MAX - 1) / RETYPE_MAX as int) by (nonlinear_arith)
            requires
                n == pages / 32 + if pages % 32 == 0 { 0int } else { 1int },
        ;
    }
    let mut chunks: Vec<(u64, u64)> = Vec::new();
    let mut k: u64 = 0;
    while k < n
        invariant
            slot + pages <= u64::MAX,
            n == (pages + RETYPE_MAX - 1) / RETYPE_MAX as int,
            k <= n,
            chunks@.len() == k,
            forall|q: int| 0 <= q < chunks@.len() ==> {
                let s = q * RETYPE_MAX;
                let rest = pages - s;
                #[trigger] chunks@[q] == ((slot + s) as u64, (if rest < RETYPE_MAX { rest } else { RETYPE_MAX as int }) as u64)
            },
        decreases n - k,
    {
        proof {
            assert(k * 32 < pages) by (nonlinear_arith)
                requires
                    k < n,
                    n == (pages + 31) / 32,
            ;
        }
        let start = k * RETYPE_MAX;
        let rest = pages - start;
        let count = if rest < RETYPE_MAX { rest } else { RETYPE_MAX };
        chunks.push((slot + start, count));
        k = k + 1;
    }
    chunks
}

} // verus!
