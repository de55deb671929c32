//! The block device as the file-system backends see it: a byte stream with a
//! position over sectors that arrive, eight at a time, in the block
//! service's shared buffer. The caller performs each fetch the plan names
//! and hands back the window; the device copies it into the read.
use vstd::prelude::*;

verus! {

/// Bytes per sector.
pub const SECTOR_SIZE: u64 = 512;

/// Sectors one block READ fetches at most.
pub const SECTORS_PER_READ: u64 = 8;

/// The device behind the block service's endpoint `ep`.
pub struct BlockDevice {
    pub ep: u64,
    /// The stream position, in bytes.
    pub position: u64,
    /// The device size, in bytes.
    pub disk_bytes: u64,
}

/// One block READ and the copy out of the shared buffer that follows it.
#[derive(Clone, Copy, PartialEq, Eq, Structural, Debug)]
pub struct Fetch {
    /// The first sector to read.
    pub lba: u64,
    /// How many sectors to read.
    pub count: u64,
    /// Where the position lies in the fetched window.
    pub offset: u64,
    /// How many bytes to copy from there.
    pub take: u64,
}

/// `(a + b - 1) / b`.
pub open spec fn ceil_div(a: int, b: int) -> int {
    (a + b - 1) / b
}

/// The fetch that serves the stream at `position`, when `wanted` more bytes
/// are asked for and the device holds `disk_bytes`.
pub open spec fn fetch_at(position: u64, disk_bytes: u64, wanted: int) -> Fetch {
    let lba = position / SECTOR_SIZE;
    let remaining = ceil_div(disk_bytes - position, SECTOR_SIZE as int);
    let count = if remaining < SECTORS_PER_READ { remaining } else { SECTORS_PER_READ as int };
    let offset = position - lba * SECTOR_SIZE;
    let available = count * SECTOR_SIZE - offset;
    Fetch {
        lba: lba as u64,
        count: count as u64,
        offset: offset as u64,
        take: (if available < wanted { available } else { wanted }) as u64,
    }
}

/// Where a seek goes.
pub enum SeekTarget {
    Start(u64),
    End(i64),
    Current(i64),
}

/// `base + delta` when it is a position: no `i64` overflow and not negative.
pub open spec fn moved(base: i64, delta: i64) -> Option<u64> {
    let v = base + delta;
    if i64::MIN <= v <= i64::MAX && v >= 0 {
        Some(v as u64)
    } else {
        None
    }
}

fn offset_by(base: i64, delta: i64) -> (r: Option<u64>)
    ensures
        r == moved(base, delta),
{
    match base.checked_add(delta) {
        Some(v) => if v >= 0 { Some(v as u64) } else { None },
        None => None,
    }
}

fn signed(v: u64) -> (s: i64)
    ensures
        s == v as i64,
{
    v as i64
}

impl BlockDevice {
    /// A device of `sectors` sectors behind `ep`, at position 0.
    pub fn new(ep: u64, sectors: u64) -> (d: Self)
        requires
            sectors * SECTOR_SIZE <= u64::MAX,
        ensures
            d.ep == ep,
            d.position == 0,
            d.disk_bytes == sectors * SECTOR_SIZE,
    {
        BlockDevice { ep, position: 0, disk_bytes: sectors * SECTOR_SIZE }
    }

    /// The next fetch of a read that has `filled` of `wanted` bytes:
    /// `None` once the read is complete or the stream is at its end.
    pub fn next_fetch(&self, filled: usize, wanted: usize) -> (f: Option<Fetch>)
        ensures
            (filled < wanted && self.position < self.disk_bytes) <==> f is Some,
            f matches Some(x) ==> {
                &&& x == fetch_at(self.position, self.disk_bytes, wanted - filled)
                &&& 0 < x.take
                &&& x.offset < SECTOR_SIZE
                &&& x.offset + x.take <= x.count * SECTOR_SIZE
                &&& x.lba * SECTOR_SIZE + x.offset == self.position
            },
    {
        if filled >= wanted || self.position >= self.disk_bytes {
            return None;
        }
        let lba = self.position / SECTOR_SIZE;
        let left = self.disk_bytes - self.position;
        let remaining = left / SECTOR_SIZE + if left % SECTOR_SIZE == 0 { 0 } else { 1 };
        proof {
            assert(remaining == ceil_div(left as int, SECTOR_SIZE as int)) by (nonlinear_arith)
                requires
                    remaining == left / 512 + if left % 512 == 0 { 0int } else { 1int },
            ;
            assert(remaining >= 1) by (nonlinear_arith)
                requires
                    left > 0,
                    remaining == left / 512 + if left % 512 == 0 { 0int } else { 1int },
            ;
        }
        let count = if remaining < SECTORS_PER_READ { remaining } else { SECTORS_PER_READ };
        let offset = self.position - lba * SECTOR_SIZE;
        let available = count * SECTOR_SIZE - offset;
        let want = (wanted - filled) as u64;
        let take = if available < want { available } else { want };
        Some(Fetch { lba, count, offset, take })
    }

    /// The copy of `take` bytes is done: the stream moves on.
    pub fn advance(&mut self, take: u64)
        requires
            old(self).position + take <= u64::MAX,
        ensures
            final(self).position == old(self).position + take,
            final(self).ep == old(self).ep,
            final(self).disk_bytes == old(self).disk_bytes,
    {
        self.position = self.position + take;
    }

    /// Complete the fetch `plan` of a read into `buf` that has `filled`
    /// bytes: copy `take` bytes of the fetched `window` from `offset` into
    /// `buf` at `filled`, and move the stream on. A window too short for the
    /// plan is refused (`None`) and nothing changes; otherwise the read now
    /// has `filled + take` bytes.
    pub fn copy_fetched(&mut self, plan: Fetch, window: &[u8], buf: &mut Vec<u8>, filled: usize) -> (r: Option<usize>)
        requires
            old(self).disk_bytes % SECTOR_SIZE == 0,
            filled < old(buf)@.len(),
            old(self).position < old(self).disk_bytes,
            plan == fetch_at(old(self).position, old(self).disk_bytes, old(buf)@.len() - filled),
        ensures
            final(self).ep == old(self).ep,
            final(self).disk_bytes == old(self).disk_bytes,
            final(buf)@.len() == old(buf)@.len(),
            window@.len() < plan.offset + plan.take ==> r is None && final(self).position == old(self).position
                && final(buf)@ == old(buf)@,
            window@.len() >= plan.offset + plan.take ==> {
                &&& r == Some((filled + plan.take) as usize)
                &&& 0 < plan.take
                &&& filled + plan.take <= old(buf)@.len()
                &&& final(self).position == old(self).position + plan.take
                &&& final(self).position <= final(self).disk_bytes
                &&& final(buf)@ == old(buf)@.take(filled as int)
                    + window@.subrange(plan.offset as int, plan.offset + plan.take)
                    + old(buf)@.skip(filled + plan.take)
            },
    {
        proof {
            lemma_fetch_within(old(self).position, old(self).disk_bytes, old(buf)@.len() - filled);
        }
        let start = plan.offset as usize;
        let take = plan.take as usize;
        if window.len() < start + take {
            return None;
        }
        assert(plan.take <= old(buf)@.len() - filled);
        assert(filled + take <= buf@.len());
        let ghost before = buf@;
        let n = buf.len();
        let wl = window.len();
        let mut k: usize = 0;
        while k < take
            invariant
                k <= take,
                take == plan.take,
                start == plan.offset,
                start + take <= window@.len(),
                filled + take <= before.len(),
                n == before.len(),
                wl == window@.len(),
                start + take <= wl,
                filled + take <= n,
                buf@.len() == before.len(),
                forall|i: int| 0 <= i < filled ==> buf@[i] == before[i],
                forall|i: int| filled + take <= i < before.len() ==> buf@[i] == before[i],
                forall|i: int| filled <= i < filled + k ==> buf@[i] == window@[start + (i - filled)],
                forall|i: int| filled + k <= i < filled + take ==> buf@[i] == before[i],
            decreases take - k,
        {
            buf.set(filled + k, window[start + k]);
            k = k + 1;
        }
        assert(buf@ =~= before.take(filled as int) + window@.subrange(start as int, start + take)
            + before.skip(filled + take));
        self.position = self.position + plan.take;
        Some(filled + take)
    }

    /// Move the stream position: from the start, from the end, or from the
    /// current position. A target before 0 or beyond `i64` is refused and
    /// the position stays.
    pub fn seek(&mut self, target: SeekTarget) -> (r: Result<u64, ()>)
        ensures
            final(self).ep == old(self).ep,
            final(self).disk_bytes == old(self).disk_bytes,
            ({
                let to = match target {
                    SeekTarget::Start(offset) => Some(offset),
                    SeekTarget::End(delta) => moved(old(self).disk_bytes as i64, delta),
                    SeekTarget::Current(delta) => moved(old(self).position as i64, delta),
                };
                match to {
                    Some(p) => r == Ok::<u64, ()>(p) && final(self).position == p,
                    None => r is Err && final(self).position == old(self).position,
                }
            }),
    {
        let to = match target {
            SeekTarget::Start(offset) => Some(offset),
            SeekTarget::End(delta) => offset_by(signed(self.disk_bytes), delta),
            SeekTarget::Current(delta) => offset_by(signed(self.position), delta),
        };
        match to {
            Some(p) => {
                self.position = p;
                Ok(p)
            },
            None => Err(()),
        }
    }

    /// The device size in sectors.
    pub fn num_blocks(&self) -> (n: u64)
        ensures
            n == self.disk_bytes / SECTOR_SIZE,
    {
        self.disk_bytes / SECTOR_SIZE
    }

    /// Sectors the next fetch of a sector read brings: `len` bytes from
    /// sector `block_id`, `copied` of them done. 0 ends the read.
    pub fn block_count(&self, block_id: u64, copied: u64, len: u64) -> (count: u64)
        requires
            copied <= len,
            block_id + copied / SECTOR_SIZE <= u64::MAX,
            (block_id + copied / SECTOR_SIZE) * SECTOR_SIZE <= self.disk_bytes,
        ensures
            ({
                let lba = block_id + copied / SECTOR_SIZE;
                let sectors = ceil_div(len as int, SECTOR_SIZE as int);
                let wanted = sectors - copied / SECTOR_SIZE;
                let on_disk = (self.disk_bytes - lba * SECTOR_SIZE) / SECTOR_SIZE as int;
                let c = if wanted < SECTORS_PER_READ { wanted } else { SECTORS_PER_READ as int };
                count == if on_disk < c { on_disk } else { c }
            }),
    {
        let sectors = len / SECTOR_SIZE + if len % SECTOR_SIZE == 0 { 0 } else { 1 };
        proof {
            assert(sectors == ceil_div(len as int, SECTOR_SIZE as int)) by (nonlinear_arith)
                requires
                    sectors == len / 512 + if len % 512 == 0 { 0int } else { 1int },
            ;
            assert(copied / 512 <= sectors) by (nonlinear_arith)
                requires
                    copied <= len,
                    sectors == len / 512 + if len % 512 == 0 { 0int } else { 1int },
            ;
        }
        let lba = block_id + copied / SECTOR_SIZE;
        let wanted = sectors - copied / SECTOR_SIZE;
        let c = if wanted < SECTORS_PER_READ { wanted } else { SECTORS_PER_READ };
        let on_disk = (self.disk_bytes - lba * SECTOR_SIZE) / SECTOR_SIZE;
        if on_disk < c { on_disk } else { c }
    }
}

/// A fetch planned at `position` inside a device of whole sectors stays
/// inside the device, and the bytes it copies start at `position`.
pub proof fn lemma_fetch_within(position: u64, disk_bytes: u64, wanted: int)
    requires
        disk_bytes % SECTOR_SIZE == 0,
        position < disk_bytes,
        wanted > 0,
    ensures
        ({
            let f = fetch_at(position, disk_bytes, wanted);
            &&& 1 <= f.count <= SECTORS_PER_READ
            &&& f.offset < SECTOR_SIZE
            &&& f.lba * SECTOR_SIZE + f.offset == position
            &&& (f.lba + f.count) * SECTOR_SIZE <= disk_bytes
            &&& 0 < f.take <= wanted
            &&& f.offset + f.take <= f.count * SECTOR_SIZE
            &&& position + f.take <= disk_bytes
        }),
{
    let pos = position as int;
    let disk = disk_bytes as int;
    let lba = pos / 512;
    let off = pos - lba * 512;
    let remaining = ceil_div(disk - pos, 512);
    assert(0 <= off < 512) by (nonlinear_arith)
        requires lba == pos / 512, off == pos - lba * 512, pos >= 0;
    assert(lba * 512 + remaining * 512 <= disk) by (nonlinear_arith)
        requires
            disk % 512 == 0,
            pos < disk,
            lba == pos / 512,
            off == pos - lba * 512,
            0 <= off < 512,
            remaining == (disk - pos + 511) / 512,
    ;
    assert(remaining >= 1) by (nonlinear_arith)
        requires pos < disk, remaining == (disk - pos + 511) / 512;
    assert(lba * 512 <= u64::MAX) by (nonlinear_arith)
        requires lba == pos / 512, pos >= 0, pos <= u64::MAX;
}

/// A read of `buf` that started at `start` over a device holding `disk`,
/// with `before` the buffer's first contents: its first `filled` bytes are
/// the device's bytes from `start`, the rest of the buffer is untouched,
/// and the stream stands at `start + filled`, inside the device.
pub open spec fn read_so_far(
    disk: Seq<u8>,
    start: int,
    before: Seq<u8>,
    buf: Seq<u8>,
    filled: int,
    position: int,
) -> bool {
    &&& 0 <= start
    &&& 0 <= filled <= buf.len()
    &&& buf.len() == before.len()
    &&& position == start + filled
    &&& position <= disk.len()
    &&& buf.take(filled) == disk.subrange(start, start + filled)
    &&& buf.skip(filled) == before.skip(filled)
}

/// The bytes a fetch of `f` brings from a device holding `disk`.
pub open spec fn fetched(disk: Seq<u8>, f: Fetch) -> Seq<u8> {
    disk.subrange(f.lba * SECTOR_SIZE, (f.lba + f.count) * SECTOR_SIZE)
}

/// A read begins with nothing filled, at the stream position.
pub proof fn lemma_read_begins(disk: Seq<u8>, start: u64, buf: Seq<u8>)
    requires
        start <= disk.len(),
    ensures
        read_so_far(disk, start as int, buf, buf, 0, start as int),
{
    assert(buf.take(0) =~= disk.subrange(start as int, start as int));
    assert(buf.skip(0) =~= buf);
}

/// One step of a read keeps `read_so_far`: when `next_fetch` plans `plan`
/// and the fetch brings the device's sectors, `copy_fetched` leaves a read
/// with `take` more bytes, the next ones of the device.
pub proof fn lemma_read_step(
    disk: Seq<u8>,
    start: int,
    before: Seq<u8>,
    buf: Seq<u8>,
    filled: int,
    position: u64,
    plan: Fetch,
)
    requires
        disk.len() % (SECTOR_SIZE as nat) == 0,
        disk.len() <= u64::MAX,
        read_so_far(disk, start, before, buf, filled, position as int),
        filled < buf.len(),
        position < disk.len(),
        plan == fetch_at(position, disk.len() as u64, buf.len() - filled),
    ensures
        plan.offset + plan.take <= fetched(disk, plan).len(),
        read_so_far(
            disk,
            start,
            before,
            buf.take(filled) + fetched(disk, plan).subrange(plan.offset as int, plan.offset + plan.take)
                + buf.skip(filled + plan.take),
            filled + plan.take,
            position + plan.take,
        ),
{
    lemma_fetch_within(position, disk.len() as u64, buf.len() - filled);
    let w = fetched(disk, plan);
    let piece = w.subrange(plan.offset as int, plan.offset + plan.take);
    let next = buf.take(filled) + piece + buf.skip(filled + plan.take);
    let n = filled + plan.take;
    assert(position + plan.take <= disk.len());
    assert(piece =~= disk.subrange(position as int, position + plan.take));
    assert(next.take(n) =~= disk.subrange(start, start + n)) by {
        assert forall|i: int| 0 <= i < n implies next.take(n)[i] == disk.subrange(start, start + n)[i] by {
            if i < filled {
                assert(next[i] == buf[i]);
                assert(buf.take(filled)[i] == disk.subrange(start, start + filled)[i]);
            } else {
                assert(next[i] == piece[i - filled]);
                assert(piece[i - filled] == disk[position + (i - filled)]);
            }
        }
    }
    assert(next.skip(n) =~= before.skip(n)) by {
        assert forall|i: int| 0 <= i < next.len() - n implies next.skip(n)[i] == before.skip(n)[i] by {
            assert(buf.skip(filled)[i + plan.take] == before.skip(filled)[i + plan.take]);
        }
    }
}

/// A read is complete when `next_fetch` plans nothing more; it has then
/// returned `read_length` bytes, the device's bytes from where it started,
/// and left the rest of the buffer as it was.
pub proof fn lemma_read_done(disk: Seq<u8>, start: u64, before: Seq<u8>, buf: Seq<u8>, filled: int, position: u64)
    requires
        disk.len() <= u64::MAX,
        read_so_far(disk, start as int, before, buf, filled, position as int),
        !(filled < buf.len() && position < disk.len()),
    ensures
        filled == read_length(start, disk.len() as u64, buf.len() as int),
        buf.take(filled) == disk.subrange(start as int, start + filled),
        buf.skip(filled) == before.skip(filled),
{
}

/// Bytes a read of `wanted` bytes at `position` returns: all of them, or
/// as many as the device holds past the position.
pub open spec fn read_length(position: u64, disk_bytes: u64, wanted: int) -> int {
    let left = if position < disk_bytes { disk_bytes - position } else { 0int };
    if wanted < left { wanted } else { left }
}

/// A read that started at `start` and has `filled` bytes, its position at
/// `start + filled` within the device, is complete when `next_fetch` has no
/// more to fetch; it has then returned exactly `read_length` bytes.
pub proof fn lemma_read_length(start: u64, position: u64, disk_bytes: u64, filled: int, wanted: int)
    requires
        0 <= filled <= wanted,
        start + filled == position,
        position <= disk_bytes,
        !(filled < wanted && position < disk_bytes),
    ensures
        filled == read_length(start, disk_bytes, wanted),
{
}

/// The file systems the service mounts.
#[derive(Clone, Copy, PartialEq, Eq, Structural, Debug)]
pub enum FsKind {
    Fat32,
    Ext4,
}

/// The FAT32 type label, `FAT32` and three spaces.
pub open spec fn fat32_label() -> Seq<u8> {
    seq![70u8, 65u8, 84u8, 51u8, 50u8, 32u8, 32u8, 32u8]
}

/// The file system the first four sectors announce: the FAT32 boot sector's
/// type label at byte 82, else the ext4 superblock magic `0xEF53` at byte
/// 0x438 (little-endian).
pub fn probe_kind(sectors: &[u8]) -> (kind: Option<FsKind>)
    requires
        sectors@.len() >= 2048,
    ensures
        kind == if sectors@.subrange(82, 90) == fat32_label() {
            Some(FsKind::Fat32)
        } else if sectors@[0x438] == 0x53 && sectors@[0x439] == 0xEF {
            Some(FsKind::Ext4)
        } else {
            None
        },
{
    let label: [u8; 8] = [70, 65, 84, 51, 50, 32, 32, 32];
    let mut k: usize = 0;
    let mut same = true;
    proof {
        assert(sectors@.subrange(82, 82) =~= fat32_label().take(0));
    }
    while k < 8
        invariant
            k <= 8,
            sectors@.len() >= 2048,
            label@ == fat32_label(),
            same == (sectors@.subrange(82, 82 + k as int) == fat32_label().take(k as int)),
        decreases 8 - k,
    {
        proof {
            assert(sectors@.subrange(82, 83 + k as int) =~= sectors@.subrange(82, 82 + k as int).push(sectors@[82 + k as int]));
            assert(fat32_label().take(k as int + 1) =~= fat32_label().take(k as int).push(fat32_label()[k as int]));
            if same && sectors@[82 + k as int] != label@[k as int] {
                assert(sectors@.subrange(82, 83 + k as int)[k as int] != fat32_label().take(k as int + 1)[k as int]);
            }
            if !same {
                if sectors@.subrange(82, 83 + k as int) == fat32_label().take(k as int + 1) {
                    assert(sectors@.subrange(82, 82 + k as int) =~= fat32_label().take(k as int));
                }
            }
        }
        same = same && sectors[82 + k] == label[k];
        k = k + 1;
    }
    proof {
        assert(fat32_label().take(8) =~= fat32_label());
    }
    if same {
        Some(FsKind::Fat32)
    } else if sectors[0x438] == 0x53 && sectors[0x439] == 0xEF {
        Some(FsKind::Ext4)
    } else {
        None
    }
}

} // verus!
