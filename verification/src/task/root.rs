//! The root task's loaded image, as the boot loader describes it: a page
//! holding `{u32 count, u32 size, program headers}` right after the image.
//! The segments to map, with their rights, come from the loadable headers.
use vstd::prelude::*;

verus! {

/// Bytes of one ELF64 program header.
pub const PHDR_SIZE: u64 = 56;

/// Most program headers the table may hold.
pub const MAX_PHDRS: u64 = 32;

/// The byte size of a page.
pub const PAGE: u64 = 4096;

/// Why the loaded image cannot become the root task.
#[derive(Clone, Copy, PartialEq, Eq, Structural, Debug)]
pub enum RootImageError {
    /// The table is empty, too long, of another header size, or does not fit.
    BadTable,
    /// A segment's end, physical address or rounded size overflows.
    Overflow,
    /// A segment lies outside the user image window.
    OutOfRange,
    /// A segment is not page aligned, or has more file than memory bytes.
    Misaligned,
    /// A segment's permissions are neither R, RX nor RW.
    Permissions,
    /// The entry point lies in no initialized executable segment.
    NoEntry,
}

/// A region to map for the root task.
#[derive(Clone, Copy, PartialEq, Eq, Structural, Debug)]
pub struct Segment {
    pub va: u64,
    pub physical: u64,
    /// The memory size rounded up to whole pages.
    pub size: u64,
    /// 1 read, 3 read-write, 5 read-execute.
    pub rights: u64,
}

/// The little-endian `u32` at `off`.
pub open spec fn le32(b: Seq<u8>, off: int) -> int {
    b[off] + 256 * b[off + 1] + 65536 * b[off + 2] + 16777216 * b[off + 3]
}

/// The little-endian `u64` at `off`.
pub open spec fn le64(b: Seq<u8>, off: int) -> int {
    le32(b, off) + 4294967296 * le32(b, off + 4)
}

/// Program header `i` of the table.
pub open spec fn phdr(table: Seq<u8>, i: int) -> Seq<u8> {
    table.subrange(8 + 56 * i, 8 + 56 * (i + 1))
}

/// `x` rounded up to a whole number of pages.
pub open spec fn page_round(x: int) -> int {
    ((x + PAGE - 1) / PAGE as int) * PAGE
}

/// The rights of a segment's ELF flags: R, RX and RW only.
pub open spec fn rights_of(flags: int) -> Option<u64> {
    if flags == 4 {
        Some(1)
    } else if flags == 5 {
        Some(5)
    } else if flags == 6 {
        Some(3)
    } else {
        None
    }
}

/// What one program header contributes.
pub enum Verdict {
    /// Not loadable, or empty in memory.
    Skip,
    /// The image is refused.
    Bad(RootImageError),
    /// Map `seg`; `entry` says whether it holds the entry point among its
    /// initialized executable bytes.
    Load { seg: Segment, entry: bool },
}

/// The verdict on program header `r`.
#[verifier::opaque]
pub open spec fn verdict(r: Seq<u8>, entry: u64, offset: u64, image_start: u64, stack_end: u64) -> Verdict {
    let va = le64(r, 16);
    let file_size = le64(r, 32);
    let memory_size = le64(r, 40);
    let end = va + memory_size;
    if le32(r, 0) != 1 || memory_size == 0 {
        Verdict::Skip
    } else if end > u64::MAX {
        Verdict::Bad(RootImageError::Overflow)
    } else if va < image_start || end > stack_end {
        Verdict::Bad(RootImageError::OutOfRange)
    } else if va % PAGE as int != 0 || file_size > memory_size {
        Verdict::Bad(RootImageError::Misaligned)
    } else if rights_of(le32(r, 4)) is None {
        Verdict::Bad(RootImageError::Permissions)
    } else if va + offset > u64::MAX || page_round(memory_size) > u64::MAX {
        Verdict::Bad(RootImageError::Overflow)
    } else {
        let rights = rights_of(le32(r, 4))->0;
        Verdict::Load {
            seg: Segment { va: va as u64, physical: (va + offset) as u64, size: page_round(memory_size) as u64, rights },
            entry: rights == 5 && va <= entry < va + file_size,
        }
    }
}

/// The segments of the first `n` headers and whether one holds the entry.
pub open spec fn segments(table: Seq<u8>, n: int, entry: u64, offset: u64, image_start: u64, stack_end: u64) -> Result<(Seq<Segment>, bool), RootImageError>
    decreases n,
{
    if n <= 0 {
        Ok((Seq::empty(), false))
    } else {
        match segments(table, n - 1, entry, offset, image_start, stack_end) {
            Err(e) => Err(e),
            Ok((segs, found)) => match verdict(phdr(table, n - 1), entry, offset, image_start, stack_end) {
                Verdict::Skip => Ok((segs, found)),
                Verdict::Bad(e) => Err(e),
                Verdict::Load { seg, entry: here } => Ok((segs.push(seg), found || here)),
            },
        }
    }
}

/// The root image the table describes: the segments to map, in table order.
pub open spec fn root_image(table: Seq<u8>, entry: u64, offset: u64, image_start: u64, stack_end: u64) -> Result<Seq<Segment>, RootImageError> {
    let count = le32(table, 0);
    if table.len() < 8 || !(0 < count <= MAX_PHDRS) || le32(table, 4) != PHDR_SIZE || 8 + count * 56 > table.len() {
        Err(RootImageError::BadTable)
    } else {
        match segments(table, count, entry, offset, image_start, stack_end) {
            Err(e) => Err(e),
            Ok((segs, found)) => if found { Ok(segs) } else { Err(RootImageError::NoEntry) },
        }
    }
}

fn read32(b: &[u8], off: usize) -> (v: u64)
    requires
        off + 4 <= b@.len(),
    ensures
        v == le32(b@, off as int),
{
    b[off] as u64 + 256 * (b[off + 1] as u64) + 65536 * (b[off + 2] as u64) + 16777216 * (b[off + 3] as u64)
}

fn read64(b: &[u8], off: usize) -> (v: u64)
    requires
        off + 8 <= b@.len(),
    ensures
        v == le64(b@, off as int),
{
    let _n = b.len();
    let lo = read32(b, off);
    let hi = read32(b, off + 4);
    lo + 4294967296 * hi
}

fn judge(table: &[u8], base: usize, entry: u64, offset: u64, image_start: u64, stack_end: u64) -> (v: Verdict)
    requires
        base + 56 <= table@.len(),
    ensures
        v == verdict(table@.subrange(base as int, base + 56), entry, offset, image_start, stack_end),
{
    reveal(verdict);
    let _n = table.len();
    let ghost r = table@.subrange(base as int, base + 56);
    proof {
        assert forall|k: int| 0 <= k < 56 implies r[k] == table@[base + k] by {}
    }
    let kind = read32(table, base);
    let memory_size = read64(table, base + 40);
    if kind != 1 || memory_size == 0 {
        return Verdict::Skip;
    }
    let va = read64(table, base + 16);
    let file_size = read64(table, base + 32);
    let flags = read32(table, base + 4);
    let end = match va.checked_add(memory_size) {
        Some(end) => end,
        None => return Verdict::Bad(RootImageError::Overflow),
    };
    if va < image_start || end > stack_end {
        return Verdict::Bad(RootImageError::OutOfRange);
    }
    if va % PAGE != 0 || file_size > memory_size {
        return Verdict::Bad(RootImageError::Misaligned);
    }
    let rights: u64 = if flags == 4 {
        1
    } else if flags == 5 {
        5
    } else if flags == 6 {
        3
    } else {
        return Verdict::Bad(RootImageError::Permissions);
    };
    let physical = match va.checked_add(offset) {
        Some(p) => p,
        None => return Verdict::Bad(RootImageError::Overflow),
    };
    if memory_size > u64::MAX - (PAGE - 1) {
        proof {
            assert(page_round(memory_size as int) > u64::MAX) by (nonlinear_arith)
                requires
                    memory_size > u64::MAX - 4095,
            ;
        }
        return Verdict::Bad(RootImageError::Overflow);
    }
    let size = (memory_size + (PAGE - 1)) / PAGE * PAGE;
    proof {
        assert(size == page_round(memory_size as int));
    }
    let here = rights == 5 && va <= entry && entry - va < file_size;
    Verdict::Load { seg: Segment { va, physical, size, rights }, entry: here }
}

#[verifier::rlimit(60)]
/// The segments of the root image behind the loaded region, given its
/// entry point, the physical-minus-virtual offset of the image and the user
/// image window `[image_start, stack_end)`.
pub fn root_segments(table: &[u8], entry: u64, offset: u64, image_start: u64, stack_end: u64) -> (r: Result<Vec<Segment>, RootImageError>)
    ensures
        match r {
            Ok(segs) => root_image(table@, entry, offset, image_start, stack_end) == Ok::<Seq<Segment>, RootImageError>(segs@),
            Err(e) => root_image(table@, entry, offset, image_start, stack_end) == Err::<Seq<Segment>, RootImageError>(e),
        },
{
    if table.len() < 8 {
        return Err(RootImageError::BadTable);
    }
    let count = read32(table, 0);
    let size = read32(table, 4);
    if count == 0 || count > MAX_PHDRS || size != PHDR_SIZE || 8 + count * 56 > table.len() as u64 {
        return Err(RootImageError::BadTable);
    }
    let count = count as usize;
    let mut segs: Vec<Segment> = Vec::new();
    let mut found = false;
    let mut i: usize = 0;
    while i < count
        invariant
            i <= count <= MAX_PHDRS,
            0 < count,
            table@.len() >= 8,
            count == le32(table@, 0),
            le32(table@, 4) == PHDR_SIZE,
            8 + count * 56 <= table@.len(),
            segments(table@, i as int, entry, offset, image_start, stack_end) == Ok::<(Seq<Segment>, bool), RootImageError>((segs@, found)),
        decreases count - i,
    {
        let base = 8 + i * 56;
        proof {
            assert(phdr(table@, i as int) == table@.subrange(base as int, base + 56));
        }
        match judge(table, base, entry, offset, image_start, stack_end) {
            Verdict::Skip => {},
            Verdict::Bad(e) => {
                proof {
                    assert(segments(table@, i + 1, entry, offset, image_start, stack_end) == Err::<(Seq<Segment>, bool), RootImageError>(e));
                    lemma_segments_err(table@, i + 1, count as int, entry, offset, image_start, stack_end, e);
                }
                return Err(e);
            },
            Verdict::Load { seg, entry: here } => {
                segs.push(seg);
                found = found || here;
            },
        }
        i = i + 1;
    }
    if !found {
        return Err(RootImageError::NoEntry);
    }
    Ok(segs)
}

/// Once a header is refused, so is every longer prefix of the table.
proof fn lemma_segments_err(table: Seq<u8>, i: int, n: int, entry: u64, offset: u64, image_start: u64, stack_end: u64, e: RootImageError)
    requires
        0 <= i <= n,
        segments(table, i, entry, offset, image_start, stack_end) == Err::<(Seq<Segment>, bool), RootImageError>(e),
    ensures
        segments(table, n, entry, offset, image_start, stack_end) == Err::<(Seq<Segment>, bool), RootImageError>(e),
    decreases n - i,
{
    if i < n {
        lemma_segments_err(table, i + 1, n, entry, offset, image_start, stack_end, e);
    }
}

} // verus!
