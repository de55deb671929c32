//! The BootInfo record the kernel writes for the root task: where its IPC
//! buffer, image, stack and extended record lie, and which features it has.
//! The extended record is a header followed by the device tree, mapped in
//! whole pages.
use vstd::prelude::*;
use crate::task::root::PAGE;

verus! {

/// First word of every BootInfo record.
pub const BOOTINFO_MAGIC: u64 = 0x5253_5449_4e59_4249;
/// The kernel ABI version.
pub const ABI_VERSION: u64 = 1;
/// Feature bit: the debug console syscall writes somewhere.
pub const FEATURE_DEBUG_CONSOLE: u64 = 1;
/// Header id of an extended record that carries a flattened device tree.
pub const BOOTINFO_HEADER_FDT: u64 = 1;
/// Bytes of an extended-record header: its id and length words.
pub const HEADER_BYTES: u64 = 16;
/// Words of a BootInfo record.
pub const BOOTINFO_WORDS: usize = 12;

/// The record, one field per 64-bit word, in memory order.
#[derive(Clone, Copy, PartialEq, Eq, Structural, Debug)]
pub struct BootInfo {
    pub magic: u64,
    pub version: u64,
    pub size: u64,
    pub page_size: u64,
    pub features: u64,
    pub ipc_buffer: u64,
    pub image_start: u64,
    pub image_end: u64,
    pub stack_start: u64,
    pub stack_end: u64,
    pub extra: u64,
    pub extra_size: u64,
}

/// The header in front of the forwarded device tree.
#[derive(Clone, Copy, PartialEq, Eq, Structural, Debug)]
pub struct BootInfoHeader {
    pub id: u64,
    pub len: u64,
}

/// `n` rounded up to whole pages.
pub open spec fn page_round(n: int) -> int {
    (n + PAGE - 1) / PAGE as int * PAGE
}

/// Bytes of the extended record: the header and the device tree.
pub open spec fn extra_size_of(dtb_size: u64) -> int {
    HEADER_BYTES + dtb_size
}

/// The record for a root task whose image starts at `image_start` and whose
/// stack spans `stack_start..stack_end`, with the IPC buffer at `ipc_buffer`
/// and the extended record at `extra_va`; the debug-console feature is set
/// when kernel logging is on.
pub open spec fn boot_info_spec(
    debug_console: bool,
    dtb_size: u64,
    image_start: u64,
    stack_start: u64,
    stack_end: u64,
    ipc_buffer: u64,
    extra_va: u64,
) -> BootInfo {
    BootInfo {
        magic: BOOTINFO_MAGIC,
        version: ABI_VERSION,
        size: (BOOTINFO_WORDS * 8) as u64,
        page_size: PAGE,
        features: if debug_console { FEATURE_DEBUG_CONSOLE } else { 0 },
        ipc_buffer,
        image_start,
        image_end: stack_end,
        stack_start,
        stack_end,
        extra: extra_va,
        extra_size: extra_size_of(dtb_size) as u64,
    }
}

/// The BootInfo record of the root task.
pub fn root_boot_info(
    debug_console: bool,
    dtb_size: u64,
    image_start: u64,
    stack_start: u64,
    stack_end: u64,
    ipc_buffer: u64,
    extra_va: u64,
) -> (info: BootInfo)
    requires
        extra_size_of(dtb_size) <= u64::MAX,
    ensures
        info == boot_info_spec(debug_console, dtb_size, image_start, stack_start, stack_end, ipc_buffer, extra_va),
{
    BootInfo {
        magic: BOOTINFO_MAGIC,
        version: ABI_VERSION,
        size: (BOOTINFO_WORDS * 8) as u64,
        page_size: PAGE,
        features: if debug_console { FEATURE_DEBUG_CONSOLE } else { 0 },
        ipc_buffer,
        image_start,
        image_end: stack_end,
        stack_start,
        stack_end,
        extra: extra_va,
        extra_size: HEADER_BYTES + dtb_size,
    }
}

/// The header of the extended record that forwards a `dtb_size`-byte device
/// tree: its id and the record's whole length.
pub fn dtb_header(dtb_size: u64) -> (h: BootInfoHeader)
    requires
        extra_size_of(dtb_size) <= u64::MAX,
    ensures
        h == (BootInfoHeader { id: BOOTINFO_HEADER_FDT, len: extra_size_of(dtb_size) as u64 }),
{
    BootInfoHeader { id: BOOTINFO_HEADER_FDT, len: HEADER_BYTES + dtb_size }
}

/// Bytes mapped for the extended record: its size rounded up to whole pages.
pub fn extra_map_len(dtb_size: u64) -> (len: u64)
    requires
        page_round(extra_size_of(dtb_size)) <= u64::MAX,
    ensures
        len == page_round(extra_size_of(dtb_size)),
        len % PAGE == 0,
        extra_size_of(dtb_size) <= len < extra_size_of(dtb_size) + PAGE,
{
    let size = HEADER_BYTES + dtb_size;
    let pages = size / PAGE + if size % PAGE == 0 { 0 } else { 1 };
    proof {
        let sz = size as int;
        let pg = pages as int;
        assert(pg == (sz + 4095) / 4096);
        assert(pg * 4096 <= u64::MAX);
        assert((pg * 4096) % 4096 == 0) by (nonlinear_arith);
        assert(sz <= pg * 4096 < sz + 4096) by (nonlinear_arith)
            requires
                pg == (sz + 4095) / 4096,
                sz >= 0;
    }
    pages * PAGE
}

impl BootInfo {
    /// The record's words in memory order.
    pub fn words(&self) -> (w: Vec<u64>)
        ensures
            w@ == seq![
                self.magic, self.version, self.size, self.page_size, self.features,
                self.ipc_buffer, self.image_start, self.image_end, self.stack_start,
                self.stack_end, self.extra, self.extra_size,
            ],
    {
        let mut w: Vec<u64> = Vec::new();
        w.push(self.magic);
        w.push(self.version);
        w.push(self.size);
        w.push(self.page_size);
        w.push(self.features);
        w.push(self.ipc_buffer);
        w.push(self.image_start);
        w.push(self.image_end);
        w.push(self.stack_start);
        w.push(self.stack_end);
        w.push(self.extra);
        w.push(self.extra_size);
        assert(w@ =~= seq![
            self.magic, self.version, self.size, self.page_size, self.features,
            self.ipc_buffer, self.image_start, self.image_end, self.stack_start,
            self.stack_end, self.extra, self.extra_size,
        ]);
        w
    }
}

} // verus!
