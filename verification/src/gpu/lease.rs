//! The framebuffer lease: one client at a time holds the framebuffer's frame
//! capabilities, handed over and returned in fixed-size batches.
use vstd::prelude::*;

verus! {

/// Frame capabilities one message carries.
pub const CAPS_PER_BATCH: usize = 4;

/// The lease of the framebuffer to one client.
#[derive(Clone, Copy, PartialEq, Eq, Structural, Debug)]
pub struct Lease {
    /// The holder's endpoint badge.
    pub client: u64,
    /// Framebuffer pages.
    pub pages: usize,
    /// The first page of the next batch the client is owed.
    pub next_page: usize,
    /// Pages handed back so far.
    pub returned: usize,
}

/// Why a lease request is refused.
#[derive(Clone, Copy, PartialEq, Eq, Structural, Debug)]
pub enum LeaseError {
    /// LEASE while the framebuffer is leased.
    Busy,
    /// No lease is active.
    NotLeased,
    /// The sender does not hold the lease.
    NotHolder,
    /// The batch is not the one due next.
    OutOfOrder,
    /// The rectangle is empty or leaves the screen.
    Outside,
    /// The returned capabilities are not the framebuffer's.
    Foreign,
}

/// The lease of the framebuffer, if any.
pub struct LeaseTable {
    pub lease: Option<Lease>,
}

/// The capability slots of the batch that starts at page `first`.
pub open spec fn batch_slots(fb_slot: u64, first: int) -> Seq<u64> {
    Seq::new(CAPS_PER_BATCH as nat, |k: int| (fb_slot + first + k) as u64)
}

/// The framebuffer slots of the batch starting at page `first`.
pub fn batch_caps(fb_slot: u64, first: usize) -> (caps: Vec<u64>)
    requires
        fb_slot + first + CAPS_PER_BATCH <= u64::MAX,
    ensures
        caps@ == batch_slots(fb_slot, first as int),
{
    let mut caps: Vec<u64> = Vec::new();
    let mut k: usize = 0;
    while k < CAPS_PER_BATCH
        invariant
            k <= CAPS_PER_BATCH,
            fb_slot + first + CAPS_PER_BATCH <= u64::MAX,
            caps@ == batch_slots(fb_slot, first as int).take(k as int),
        decreases CAPS_PER_BATCH - k,
    {
        caps.push(fb_slot + first as u64 + k as u64);
        proof {
            assert(batch_slots(fb_slot, first as int).take(k as int + 1) =~= batch_slots(fb_slot, first as int).take(k as int).push(
                (fb_slot + first + k) as u64,
            ));
        }
        k = k + 1;
    }
    assert(batch_slots(fb_slot, first as int).take(CAPS_PER_BATCH as int) =~= batch_slots(fb_slot, first as int));
    caps
}

/// A rectangle that lies on a `width` by `height` screen and is not empty.
pub open spec fn inside(x: u64, y: u64, w: u64, h: u64, width: u64, height: u64) -> bool {
    x < width && y < height && w > 0 && h > 0 && x + w <= width && y + h <= height
}

/// Whether a FLUSH rectangle lies on the screen.
pub fn rect_inside(x: u64, y: u64, w: u64, h: u64, width: u64, height: u64) -> (b: bool)
    ensures
        b == inside(x, y, w, h, width, height),
{
    x < width && y < height && w > 0 && h > 0 && w <= width - x && h <= height - y
}

/// The pages still out after a RELEASE of the batch at `returned`.
pub open spec fn missing_after(l: Lease) -> int {
    l.pages - (l.returned + CAPS_PER_BATCH)
}

/// An accepted RELEASE leaves no more pages returned than leased.
pub open spec fn release_fits(lease: Option<Lease>, badge: u64, first: u64, is_framebuffer: bool) -> bool {
    match lease {
        Some(l) => (badge == l.client && first == l.returned && is_framebuffer) ==> l.returned + CAPS_PER_BATCH <= l.pages,
        None => true,
    }
}

/// The lease after an accepted RELEASE of the batch due next.
pub open spec fn released(l: Lease) -> Option<Lease> {
    if missing_after(l) == 0 {
        None
    } else {
        Some(Lease { returned: (l.returned + CAPS_PER_BATCH) as usize, ..l })
    }
}

/// The lease after `t` accepted RELEASEs in order.
pub open spec fn released_times(l: Lease, t: nat) -> Option<Lease>
    decreases t,
{
    if t == 0 {
        Some(l)
    } else {
        match released(l) {
            None => None,
            Some(next) => released_times(next, (t - 1) as nat),
        }
    }
}

/// A FLUSH rectangle is accepted exactly when it is non-empty and lies on
/// the screen: its right edge within `width` and its bottom edge within
/// `height`.
pub proof fn lemma_flush_rect_on_screen(x: u64, y: u64, w: u64, h: u64, width: u64, height: u64)
    ensures
        inside(x, y, w, h, width, height) <==> (w > 0 && h > 0 && x + w <= width && y + h <= height),
{
}

/// A lease of whole batches ends exactly when its last batch comes back:
/// with `k` of `n` batches returned, `n - k` more RELEASEs end it and any
/// fewer leave it active with the batches counted.
pub proof fn lemma_lease_ends_with_last_batch(l: Lease, n: nat, k: nat, t: nat)
    requires
        k < n,
        l.pages == n * CAPS_PER_BATCH,
        l.returned == k * CAPS_PER_BATCH,
        l.pages <= usize::MAX,
    ensures
        t >= n - k ==> released_times(l, t) is None,
        t < n - k ==> released_times(l, t) == Some(Lease { returned: ((k + t) * CAPS_PER_BATCH) as usize, ..l }),
    decreases t,
{
    if t > 0 {
        assert(missing_after(l) == (n - k - 1) * CAPS_PER_BATCH) by (nonlinear_arith)
            requires
                l.pages == n * 4,
                l.returned == k * 4,
                missing_after(l) == l.pages - (l.returned + 4),
        ;
        if k + 1 < n {
            let next = Lease { returned: (l.returned + CAPS_PER_BATCH) as usize, ..l };
            assert(missing_after(l) != 0) by (nonlinear_arith)
                requires
                    missing_after(l) == (n - k - 1) * 4,
                    k + 1 < n,
            ;
            assert(next.returned == (k + 1) * CAPS_PER_BATCH) by (nonlinear_arith)
                requires
                    next.returned == l.returned + 4,
                    l.returned == k * 4,
                    l.returned + 4 <= l.pages,
                    l.pages <= usize::MAX,
            ;
            lemma_lease_ends_with_last_batch(next, n, k + 1, (t - 1) as nat);
            assert(((k + 1) + (t - 1)) * CAPS_PER_BATCH == (k + t) * CAPS_PER_BATCH);
        } else {
            assert(missing_after(l) == 0) by (nonlinear_arith)
                requires
                    missing_after(l) == (n - k - 1) * 4,
                    k + 1 == n,
            ;
        }
    } else {
        assert(k * CAPS_PER_BATCH == (k + 0) * CAPS_PER_BATCH);
    }
}

impl LeaseTable {
    /// No lease.
    pub fn new() -> (t: Self)
        ensures
            t.lease is None,
    {
        LeaseTable { lease: None }
    }

    /// LEASE from `badge`: refused while leased.
    pub fn can_lease(&self) -> (r: Result<(), LeaseError>)
        ensures
            r == if self.lease is Some { Err::<(), LeaseError>(LeaseError::Busy) } else { Ok::<(), LeaseError>(()) },
    {
        if self.lease.is_some() { Err(LeaseError::Busy) } else { Ok(()) }
    }

    /// The first batch went out to `badge`: it holds a lease of `pages`
    /// pages and is owed the second batch next.
    pub fn leased(&mut self, badge: u64, pages: usize)
        ensures
            final(self).lease == Some(Lease { client: badge, pages, next_page: CAPS_PER_BATCH, returned: 0 }),
    {
        self.lease = Some(Lease { client: badge, pages, next_page: CAPS_PER_BATCH, returned: 0 });
    }

    /// LEASE_BATCH from `badge` for the batch at page `first`: only the
    /// holder, and only the batch due next.
    pub fn check_batch(&self, badge: u64, first: u64) -> (r: Result<(), LeaseError>)
        ensures
            r == match self.lease {
                None => Err::<(), LeaseError>(LeaseError::NotLeased),
                Some(l) => if badge != l.client {
                    Err(LeaseError::NotHolder)
                } else if first != l.next_page {
                    Err(LeaseError::OutOfOrder)
                } else {
                    Ok(())
                },
            },
    {
        match self.lease {
            None => Err(LeaseError::NotLeased),
            Some(l) => if badge != l.client {
                Err(LeaseError::NotHolder)
            } else if first != l.next_page as u64 {
                Err(LeaseError::OutOfOrder)
            } else {
                Ok(())
            },
        }
    }

    /// The batch at `first` went out: the next one is due, up to the end.
    pub fn batch_sent(&mut self, first: usize)
        requires
            old(self).lease is Some,
            first + CAPS_PER_BATCH <= usize::MAX,
        ensures
            final(self).lease == Some(Lease {
                next_page: (if first + CAPS_PER_BATCH < old(self).lease->0.pages {
                    first + CAPS_PER_BATCH
                } else {
                    old(self).lease->0.pages as int
                }) as usize,
                ..old(self).lease->0
            }),
    {
        let l = self.lease.unwrap();
        let next = if first + CAPS_PER_BATCH < l.pages { first + CAPS_PER_BATCH } else { l.pages };
        self.lease = Some(Lease { next_page: next, ..l });
    }

    /// FLUSH from `badge` of a rectangle on a `width` by `height` screen:
    /// only the holder, and only a rectangle on the screen.
    pub fn check_flush(&self, badge: u64, x: u64, y: u64, w: u64, h: u64, width: u64, height: u64) -> (r: Result<(), LeaseError>)
        ensures
            r == match self.lease {
                None => Err::<(), LeaseError>(LeaseError::NotLeased),
                Some(l) => if badge != l.client {
                    Err(LeaseError::NotHolder)
                } else if !inside(x, y, w, h, width, height) {
                    Err(LeaseError::Outside)
                } else {
                    Ok(())
                },
            },
            r is Ok ==> w > 0 && h > 0 && x + w <= width && y + h <= height,
            (self.lease matches Some(l) && l.client == badge && w > 0 && h > 0 && x + w <= width && y + h <= height)
                ==> r is Ok,
    {
        proof {
            lemma_flush_rect_on_screen(x, y, w, h, width, height);
        }
        match self.lease {
            None => Err(LeaseError::NotLeased),
            Some(l) => if badge != l.client {
                Err(LeaseError::NotHolder)
            } else if !rect_inside(x, y, w, h, width, height) {
                Err(LeaseError::Outside)
            } else {
                Ok(())
            },
        }
    }

    /// RELEASE from `badge` of the batch at page `first`, whose capabilities
    /// landed where `is_framebuffer` says: only the holder, in order, with
    /// the framebuffer's own frames. On success the pages still out are
    /// returned, and the lease ends when none are.
    pub fn release(&mut self, badge: u64, first: u64, is_framebuffer: bool) -> (r: Result<usize, LeaseError>)
        requires
            release_fits(old(self).lease, badge, first, is_framebuffer),
        ensures
            match old(self).lease {
                None => r == Err::<usize, LeaseError>(LeaseError::NotLeased) && final(self).lease == old(self).lease,
                Some(l) => if badge != l.client {
                    r == Err::<usize, LeaseError>(LeaseError::NotHolder) && final(self).lease == old(self).lease
                } else if first != l.returned {
                    r == Err::<usize, LeaseError>(LeaseError::OutOfOrder) && final(self).lease == old(self).lease
                } else if !is_framebuffer {
                    r == Err::<usize, LeaseError>(LeaseError::Foreign) && final(self).lease == old(self).lease
                } else {
                    &&& r == Ok::<usize, LeaseError>(missing_after(l) as usize)
                    &&& final(self).lease == released(l)
                },
            },
    {
        match self.lease {
            None => Err(LeaseError::NotLeased),
            Some(l) => if badge != l.client {
                Err(LeaseError::NotHolder)
            } else if first != l.returned as u64 {
                Err(LeaseError::OutOfOrder)
            } else if !is_framebuffer {
                Err(LeaseError::Foreign)
            } else {
                let returned = l.returned + CAPS_PER_BATCH;
                let missing = l.pages - returned;
                if missing == 0 {
                    self.lease = None;
                } else {
                    self.lease = Some(Lease { returned, ..l });
                }
                Ok(missing)
            },
        }
    }
}

/// The capabilities of a returned batch are the framebuffer's: frame `k`
/// of the batch at page `first` sits at `base + (first + k) * 4096`.
pub fn batch_matches(base: u64, first: u64, addresses: &[u64]) -> (b: bool)
    requires
        addresses@.len() == CAPS_PER_BATCH,
    ensures
        b == forall|k: int| 0 <= k < CAPS_PER_BATCH ==> #[trigger] addresses@[k] == base + (first + k) * 4096,
{
    let mut k: usize = 0;
    while k < CAPS_PER_BATCH
        invariant
            k <= CAPS_PER_BATCH,
            addresses@.len() == CAPS_PER_BATCH,
            forall|j: int| 0 <= j < k ==> #[trigger] addresses@[j] == base + (first + j) * 4096,
        decreases CAPS_PER_BATCH - k,
    {
        let index = first as u128 + k as u128;
        let expected = base as u128 + index * 4096;
        if addresses[k] as u128 != expected {
            return false;
        }
        k = k + 1;
    }
    true
}

} // verus!
