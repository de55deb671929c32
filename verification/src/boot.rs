//! The root task's decisions: which boot regions become init's devices and
//! budget, the capabilities init gets, where the boot archive is mapped, and
//! how often init may be restarted.
use vstd::prelude::*;
use crate::init::spawn::ChildCap;

verus! {

/// Device regions init can be given.
pub const MAX_BOOT_DEVICES: usize = 4;

/// User IRQ lines the root task authorizes at most.
pub const MAX_IRQ_LINES: usize = 64;

/// Boot-archive frames granted to init at most.
pub const ROM_GRANT_MAX: u64 = 512;

/// Size of init's budget, in address bits.
pub const INIT_BUDGET_BITS: u8 = 24;

/// Restarts of init the root task allows.
pub const MAX_INIT_RESTARTS: u32 = 5;

/// The root-side copies of the device regions: `+ k` for region `k`.
pub const DEVICE_COPY_BASE: u64 = 161;
/// The root-side IRQ handler masters: `+ i` for line `i`.
pub const IRQ_MASTER_BASE: u64 = 170;
/// Init's supervision endpoint, root side.
pub const CONTROL_EP: u64 = 130;
/// Init's budget, root side.
pub const INIT_BUDGET_OBJ: u64 = 160;
/// Init's control endpoint slot.
pub const INIT_CONTROL_SLOT: u64 = 140;
/// Init's budget slot.
pub const INIT_BUDGET_SLOT: u64 = 32;
/// Init's ASID pool slot.
pub const INIT_ASID_SLOT: u64 = 6;
/// Init's first IRQ handler slot.
pub const INIT_IRQ_SLOT: u64 = 800;
/// Init's first boot-archive frame slot.
pub const INIT_ROM_FIRST: u64 = 200;

/// One untyped region of the boot information.
#[derive(Clone, Copy, Debug)]
pub struct Region {
    pub is_device: bool,
    pub size_bits: u8,
}

/// The slots of the device regions, in boot order.
pub open spec fn device_region_slots(regions: Seq<Region>, start: u64) -> Seq<u64>
    decreases regions.len(),
{
    if regions.len() == 0 {
        Seq::empty()
    } else {
        let before = device_region_slots(regions.drop_last(), start);
        if regions.last().is_device {
            before.push((start + regions.len() - 1) as u64)
        } else {
            before
        }
    }
}

/// The capability slots of the device regions, whose capabilities start
/// at `start`; `None` when there are more than init can take.
pub fn device_regions(regions: &[Region], start: u64) -> (slots: Option<Vec<u64>>)
    requires
        start + regions@.len() <= u64::MAX,
    ensures
        match slots {
            Some(s) => s@ == device_region_slots(regions@, start) && s@.len() <= MAX_BOOT_DEVICES,
            None => device_region_slots(regions@, start).len() > MAX_BOOT_DEVICES,
        },
{
    let mut slots: Vec<u64> = Vec::new();
    let mut i: usize = 0;
    while i < regions.len()
        invariant
            i <= regions@.len(),
            start + regions@.len() <= u64::MAX,
            slots@ == device_region_slots(regions@.take(i as int), start),
            slots@.len() <= MAX_BOOT_DEVICES,
        decreases regions@.len() - i,
    {
        proof {
            assert(regions@.take(i as int + 1).drop_last() =~= regions@.take(i as int));
        }
        if regions[i].is_device {
            if slots.len() == MAX_BOOT_DEVICES {
                proof {
                    lemma_device_slots_grow(regions@, start, i as int + 1);
                }
                return None;
            }
            slots.push(start + i as u64);
        }
        i = i + 1;
    }
    proof {
        assert(regions@.take(i as int) =~= regions@);
    }
    Some(slots)
}

/// Longer prefixes have at least as many device slots.
proof fn lemma_device_slots_grow(regions: Seq<Region>, start: u64, i: int)
    requires
        0 <= i <= regions.len(),
    ensures
        device_region_slots(regions.take(i), start).len() <= device_region_slots(regions, start).len(),
    decreases regions.len() - i,
{
    if i < regions.len() {
        lemma_device_slots_grow(regions, start, i + 1);
        assert(regions.take(i + 1).drop_last() =~= regions.take(i));
    } else {
        assert(regions.take(i) =~= regions);
    }
}

/// A region that can hold init's budget: ordinary memory of at least
/// `INIT_BUDGET_BITS`, other than the root task's own untyped.
pub open spec fn budget_fit(r: Region, slot: int, own: u64) -> bool {
    !r.is_device && r.size_bits >= INIT_BUDGET_BITS && slot != own
}

/// The slot of the first region that can hold init's budget.
pub fn budget_source(regions: &[Region], start: u64, own: u64) -> (slot: Option<u64>)
    requires
        start + regions@.len() <= u64::MAX,
    ensures
        match slot {
            Some(s) => exists|i: int| 0 <= i < regions@.len() && s == start + i
                && budget_fit(regions@[i], start + i, own)
                && forall|j: int| 0 <= j < i ==> !budget_fit(#[trigger] regions@[j], start + j, own),
            None => forall|j: int| 0 <= j < regions@.len() ==> !budget_fit(#[trigger] regions@[j], start + j, own),
        },
{
    let mut i: usize = 0;
    while i < regions.len()
        invariant
            i <= regions@.len(),
            start + regions@.len() <= u64::MAX,
            forall|j: int| 0 <= j < i ==> !budget_fit(#[trigger] regions@[j], start + j, own),
        decreases regions@.len() - i,
    {
        let r = regions[i];
        if !r.is_device && r.size_bits >= INIT_BUDGET_BITS && start + i as u64 != own {
            assert(budget_fit(regions@[i as int], start + i, own));
            return Some(start + i as u64);
        }
        i = i + 1;
    }
    None
}

/// How many of the lines are of `kind`.
pub open spec fn count_kind(kinds: Seq<u32>, kind: u32) -> int
    decreases kinds.len(),
{
    if kinds.len() == 0 {
        0
    } else {
        count_kind(kinds.drop_last(), kind) + if kinds.last() == kind { 1int } else { 0int }
    }
}

/// The number of IRQ lines of `kind` (the VirtIO slot lines init routes).
pub fn lines_of_kind(kinds: &[u32], kind: u32) -> (n: usize)
    ensures
        n == count_kind(kinds@, kind),
{
    let mut n: usize = 0;
    let mut i: usize = 0;
    while i < kinds.len()
        invariant
            i <= kinds@.len(),
            n == count_kind(kinds@.take(i as int), kind),
            n <= i,
        decreases kinds@.len() - i,
    {
        proof {
            assert(kinds@.take(i as int + 1).drop_last() =~= kinds@.take(i as int));
        }
        if kinds[i] == kind {
            n = n + 1;
        }
        i = i + 1;
    }
    proof {
        assert(kinds@.take(i as int) =~= kinds@);
    }
    n
}

/// Init's capabilities: its control endpoint (badged 1), its budget and the
/// ASID pool, then every device copy, every IRQ master and the first
/// `min(frames, ROM_GRANT_MAX)` boot-archive frames (read-only).
pub open spec fn init_grants(devices: int, lines: int, frames: u64, asid_pool: u64, modules: u64) -> Seq<ChildCap> {
    let granted = if frames < ROM_GRANT_MAX { frames as int } else { ROM_GRANT_MAX as int };
    seq![
        ChildCap { slot: INIT_CONTROL_SLOT, source: CONTROL_EP, badge: 1 },
        ChildCap { slot: INIT_BUDGET_SLOT, source: INIT_BUDGET_OBJ, badge: 0 },
        ChildCap { slot: INIT_ASID_SLOT, source: asid_pool, badge: 0 },
    ] + Seq::new(devices as nat, |k: int| ChildCap { slot: (DEVICE_COPY_BASE + k) as u64, source: (DEVICE_COPY_BASE + k) as u64, badge: 0 })
      + Seq::new(lines as nat, |k: int| ChildCap { slot: (INIT_IRQ_SLOT + k) as u64, source: (IRQ_MASTER_BASE + k) as u64, badge: 0 })
      + Seq::new(granted as nat, |k: int| ChildCap { slot: (INIT_ROM_FIRST + k) as u64, source: (modules + k) as u64, badge: 0 })
}

/// The capabilities for init, per `init_grants`.
pub fn init_caps(devices: usize, lines: usize, frames: u64, asid_pool: u64, modules: u64) -> (caps: Vec<ChildCap>)
    requires
        devices <= MAX_BOOT_DEVICES,
        lines <= MAX_IRQ_LINES,
        modules + ROM_GRANT_MAX <= u64::MAX,
    ensures
        caps@ == init_grants(devices as int, lines as int, frames, asid_pool, modules),
{
    let mut caps: Vec<ChildCap> = Vec::new();
    caps.push(ChildCap { slot: INIT_CONTROL_SLOT, source: CONTROL_EP, badge: 1 });
    caps.push(ChildCap { slot: INIT_BUDGET_SLOT, source: INIT_BUDGET_OBJ, badge: 0 });
    caps.push(ChildCap { slot: INIT_ASID_SLOT, source: asid_pool, badge: 0 });
    let ghost head = caps@;
    let ghost devs = Seq::new(devices as nat, |k: int| ChildCap { slot: (DEVICE_COPY_BASE + k) as u64, source: (DEVICE_COPY_BASE + k) as u64, badge: 0 });
    let ghost irqs = Seq::new(lines as nat, |k: int| ChildCap { slot: (INIT_IRQ_SLOT + k) as u64, source: (IRQ_MASTER_BASE + k) as u64, badge: 0 });
    let granted = if frames < ROM_GRANT_MAX { frames } else { ROM_GRANT_MAX };
    let ghost roms = Seq::new(granted as nat, |k: int| ChildCap { slot: (INIT_ROM_FIRST + k) as u64, source: (modules + k) as u64, badge: 0 });
    let mut k: usize = 0;
    while k < devices
        invariant
            k <= devices <= MAX_BOOT_DEVICES,
            devs == Seq::new(devices as nat, |k: int| ChildCap { slot: (DEVICE_COPY_BASE + k) as u64, source: (DEVICE_COPY_BASE + k) as u64, badge: 0 }),
            caps@ == head + devs.take(k as int),
        decreases devices - k,
    {
        caps.push(ChildCap { slot: DEVICE_COPY_BASE + k as u64, source: DEVICE_COPY_BASE + k as u64, badge: 0 });
        proof {
            assert(devs.take(k as int + 1) =~= devs.take(k as int).push(devs[k as int]));
            assert(caps@ =~= head + devs.take(k as int + 1));
        }
        k = k + 1;
    }
    assert(devs.take(devices as int) =~= devs);
    let mut k: usize = 0;
    while k < lines
        invariant
            k <= lines <= MAX_IRQ_LINES,
            irqs == Seq::new(lines as nat, |k: int| ChildCap { slot: (INIT_IRQ_SLOT + k) as u64, source: (IRQ_MASTER_BASE + k) as u64, badge: 0 }),
            caps@ == head + devs + irqs.take(k as int),
        decreases lines - k,
    {
        caps.push(ChildCap { slot: INIT_IRQ_SLOT + k as u64, source: IRQ_MASTER_BASE + k as u64, badge: 0 });
        proof {
            assert(irqs.take(k as int + 1) =~= irqs.take(k as int).push(irqs[k as int]));
            assert(caps@ =~= head + devs + irqs.take(k as int + 1));
        }
        k = k + 1;
    }
    assert(irqs.take(lines as int) =~= irqs);
    let mut k: u64 = 0;
    while k < granted
        invariant
            k <= granted <= ROM_GRANT_MAX,
            modules + ROM_GRANT_MAX <= u64::MAX,
            roms == Seq::new(granted as nat, |k: int| ChildCap { slot: (INIT_ROM_FIRST + k) as u64, source: (modules + k) as u64, badge: 0 }),
            caps@ == head + devs + irqs + roms.take(k as int),
        decreases granted - k,
    {
        caps.push(ChildCap { slot: INIT_ROM_FIRST + k, source: modules + k, badge: 0 });
        proof {
            assert(roms.take(k as int + 1) =~= roms.take(k as int).push(roms[k as int]));
            assert(caps@ =~= head + devs + irqs + roms.take(k as int + 1));
        }
        k = k + 1;
    }
    assert(roms.take(granted as int) =~= roms);
    caps
}

/// The root task's watch over init.
pub struct InitWatch {
    /// Consecutive restarts since init last reported READY.
    pub restarts: u32,
}

impl InitWatch {
    /// Before the first start.
    pub fn new() -> (w: Self)
        ensures
            w.restarts == 0,
    {
        InitWatch { restarts: 0 }
    }

    /// Init reported READY: the restart count starts over.
    pub fn ready(&mut self)
        ensures
            final(self).restarts == 0,
    {
        self.restarts = 0;
    }

    /// Init exited, faulted or could not be spawned: whether it may be
    /// started again (else the root task gives up).
    pub fn ended(&mut self) -> (again: bool)
        requires
            old(self).restarts <= MAX_INIT_RESTARTS,
        ensures
            final(self).restarts == old(self).restarts + 1,
            again == (final(self).restarts <= MAX_INIT_RESTARTS),
    {
        self.restarts = self.restarts + 1;
        self.restarts <= MAX_INIT_RESTARTS
    }
}

/// 2 MiB.
pub const TABLE_SPAN: u64 = 0x20_0000;

/// Where the boot archive is mapped: the 2 MiB boundary at or above the
/// first free address, plus 2 MiB.
pub fn rom_window(first_free: u64) -> (va: Option<u64>)
    ensures
        ({
            let v = ((first_free + TABLE_SPAN - 1) / TABLE_SPAN as int) * TABLE_SPAN + TABLE_SPAN;
            if v <= u64::MAX { va == Some(v as u64) } else { va is None }
        }),
{
    let q = first_free / TABLE_SPAN + if first_free % TABLE_SPAN == 0 { 0 } else { 1 };
    proof {
        assert(q == (first_free + TABLE_SPAN - 1) / TABLE_SPAN as int) by (nonlinear_arith)
            requires
                q == first_free / 0x20_0000 + if first_free % 0x20_0000 == 0 { 0int } else { 1int },
        ;
    }
    if q >= u64::MAX / TABLE_SPAN {
        proof {
            assert(q * TABLE_SPAN + TABLE_SPAN > u64::MAX) by (nonlinear_arith)
                requires
                    q >= u64::MAX / 0x20_0000,
            ;
        }
        return None;
    }
    proof {
        assert(q * TABLE_SPAN + TABLE_SPAN <= u64::MAX) by (nonlinear_arith)
            requires
                q < u64::MAX / 0x20_0000,
        ;
    }
    Some(q * TABLE_SPAN + TABLE_SPAN)
}

/// The 2 MiB table index of address `va`.
pub open spec fn table_of(va: int) -> int {
    va / TABLE_SPAN as int
}

/// Some page of the first `n` needs table `x`.
pub open spec fn used_table(rom_va: u64, n: int, x: u64) -> bool {
    exists|i: int| 0 <= i < n && #[trigger] page_table(rom_va, i) == x
}

/// The table index of page `i` of the archive mapped from `rom_va`.
pub open spec fn page_table(rom_va: u64, i: int) -> int {
    table_of(rom_va + i * 4096)
}

/// The table indices the archive's pages need, in first-use order, when
/// `frames` pages are mapped from `rom_va`; `None` when a page lies beyond
/// the 64 tables the window allows.
pub fn rom_tables(rom_va: u64, frames: u64) -> (tables: Option<Vec<u64>>)
    requires
        rom_va + frames * 4096 <= u64::MAX,
    ensures
        match tables {
            None => exists|i: int| 0 <= i < frames && #[trigger] page_table(rom_va, i) >= 64,
            Some(t) => {
                &&& forall|i: int| 0 <= i < frames ==> #[trigger] page_table(rom_va, i) < 64
                &&& forall|i: int| 0 <= i < frames ==> t@.contains(#[trigger] page_table(rom_va, i) as u64)
                &&& forall|k: int| 0 <= k < t@.len() ==> #[trigger] used_table(rom_va, frames as int, t@[k])
                &&& forall|a: int, b: int| 0 <= a < b < t@.len() ==> t@[a] != t@[b]
            },
        },
{
    let mut seen = [false; 64];
    let mut tables: Vec<u64> = Vec::new();
    let mut i: u64 = 0;
    while i < frames
        invariant
            i <= frames,
            rom_va + frames * 4096 <= u64::MAX,
            forall|j: int| 0 <= j < i ==> #[trigger] page_table(rom_va, j) < 64,
            forall|j: int| 0 <= j < i ==> tables@.contains(#[trigger] page_table(rom_va, j) as u64),
            forall|k: int| 0 <= k < tables@.len() ==> #[trigger] used_table(rom_va, i as int, tables@[k]),
            forall|a: int, b: int| 0 <= a < b < tables@.len() ==> tables@[a] != tables@[b],
            forall|t: int| 0 <= t < 64 ==> (#[trigger] seen@[t] <==> tables@.contains(t as u64)),
        decreases frames - i,
    {
        let va = rom_va + i * 4096;
        let index = va / TABLE_SPAN;
        proof {
            assert(index == page_table(rom_va, i as int));
        }
        if index >= 64 {
            return None;
        }
        let ghost before = tables@;
        if !seen[index as usize] {
            seen[index as usize] = true;
            tables.push(index);
            proof {
                assert(tables@ == before.push(index));
                assert forall|k: int| 0 <= k < tables@.len() implies #[trigger] used_table(rom_va, i + 1, tables@[k]) by {
                    if k == tables@.len() - 1 {
                        assert(tables@[k] == page_table(rom_va, i as int));
                    } else {
                        assert(tables@[k] == before[k]);
                        assert(used_table(rom_va, i as int, before[k]));
                        let j = choose|j: int| 0 <= j < i && #[trigger] page_table(rom_va, j) == before[k];
                        assert(page_table(rom_va, j) == tables@[k]);
                    }
                }
                assert forall|t: int| 0 <= t < 64 implies (#[trigger] seen@[t] <==> tables@.contains(t as u64)) by {
                    if t == index {
                        assert(tables@[tables@.len() - 1] == t as u64);
                    } else {
                        if tables@.contains(t as u64) {
                            let k = choose|k: int| 0 <= k < tables@.len() && #[trigger] tables@[k] == t as u64;
                            assert(k != tables@.len() - 1);
                            assert(before[k] == t as u64);
                        }
                        if before.contains(t as u64) {
                            let k = choose|k: int| 0 <= k < before.len() && #[trigger] before[k] == t as u64;
                            assert(tables@[k] == t as u64);
                        }
                    }
                }
                assert forall|j: int| 0 <= j < i + 1 implies tables@.contains(#[trigger] page_table(rom_va, j) as u64) by {
                    if j < i {
                        let k = choose|k: int| 0 <= k < before.len() && #[trigger] before[k] == page_table(rom_va, j) as u64;
                        assert(tables@[k] == page_table(rom_va, j) as u64);
                    } else {
                        assert(tables@[tables@.len() - 1] == index);
                    }
                }
            }
        } else {
            proof {
                assert(seen@[index as int]);
                assert(tables@.contains(index));
                assert forall|k: int| 0 <= k < tables@.len() implies #[trigger] used_table(rom_va, i + 1, tables@[k]) by {
                    assert(used_table(rom_va, i as int, tables@[k]));
                    let j = choose|j: int| 0 <= j < i && #[trigger] page_table(rom_va, j) == tables@[k];
                    assert(page_table(rom_va, j) == tables@[k]);
                }
            }
        }
        i = i + 1;
    }
    Some(tables)
}

} // verus!
