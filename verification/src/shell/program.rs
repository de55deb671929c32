//! Running a program from disk: the capabilities the child gets, how the
//! image is read, and how the child's messages end its run.
use vstd::prelude::*;
use crate::init::spawn::ChildCap;

verus! {

/// Largest program image the shell loads.
pub const MAX_FILE: u64 = 512 * 1024;

/// Bytes one READ asks for at most.
pub const CHUNK: u64 = 0x1000;

/// The child's supervision endpoint slot.
pub const CHILD_CONTROL: u64 = 140;
/// The child's console client slot.
pub const CHILD_CONSOLE: u64 = 51;
/// The child's budget slot.
pub const CHILD_BUDGET: u64 = 32;
/// The child's ASID pool slot.
pub const CHILD_ASID: u64 = 6;
/// The child's file-service slot (programs with arguments only).
pub const CHILD_FS: u64 = 53;
/// The child's display-service slot (programs with arguments only).
pub const CHILD_GPU: u64 = 55;
/// The shell's sub-Untyped that every child's objects come from.
pub const CHILD_BUDGET_SLOT: u64 = 90;
/// The file-service badge every child shares.
pub const FS_CHILD_BADGE: u64 = 2;

/// The capabilities a program gets: its control endpoint (the shell's own,
/// badged 1), the console, its budget and the ASID pool; a program with
/// arguments also gets the file service under its own badge, and the
/// display service when the shell has one.
pub open spec fn program_grants(self_ep: u64, console_ep: u64, asid_pool: u64, fs_ep: u64, gpu_ep: u64, has_args: bool) -> Seq<ChildCap> {
    let fixed = seq![
        ChildCap { slot: CHILD_CONTROL, source: self_ep, badge: 1 },
        ChildCap { slot: CHILD_CONSOLE, source: console_ep, badge: 0 },
        ChildCap { slot: CHILD_BUDGET, source: CHILD_BUDGET_SLOT, badge: 0 },
        ChildCap { slot: CHILD_ASID, source: asid_pool, badge: 0 },
    ];
    if !has_args {
        fixed
    } else if gpu_ep == 0 {
        fixed.push(ChildCap { slot: CHILD_FS, source: fs_ep, badge: FS_CHILD_BADGE })
    } else {
        fixed.push(ChildCap { slot: CHILD_FS, source: fs_ep, badge: FS_CHILD_BADGE })
            .push(ChildCap { slot: CHILD_GPU, source: gpu_ep, badge: 0 })
    }
}

/// The capabilities for a program, per `program_grants`.
pub fn program_caps(self_ep: u64, console_ep: u64, asid_pool: u64, fs_ep: u64, gpu_ep: u64, has_args: bool) -> (caps: Vec<ChildCap>)
    ensures
        caps@ == program_grants(self_ep, console_ep, asid_pool, fs_ep, gpu_ep, has_args),
{
    let mut caps: Vec<ChildCap> = Vec::new();
    caps.push(ChildCap { slot: CHILD_CONTROL, source: self_ep, badge: 1 });
    caps.push(ChildCap { slot: CHILD_CONSOLE, source: console_ep, badge: 0 });
    caps.push(ChildCap { slot: CHILD_BUDGET, source: CHILD_BUDGET_SLOT, badge: 0 });
    caps.push(ChildCap { slot: CHILD_ASID, source: asid_pool, badge: 0 });
    if has_args {
        caps.push(ChildCap { slot: CHILD_FS, source: fs_ep, badge: FS_CHILD_BADGE });
        if gpu_ep != 0 {
            caps.push(ChildCap { slot: CHILD_GPU, source: gpu_ep, badge: 0 });
        }
    }
    assert(caps@ =~= program_grants(self_ep, console_ep, asid_pool, fs_ep, gpu_ep, has_args));
    caps
}

/// A message from the running child.
pub enum ChildMessage {
    Ready,
    Report,
    Exit { code: u64 },
    /// A fault delivery or any other label.
    Other,
}

/// How the shell answers a child's message.
#[derive(PartialEq, Eq, Structural, Debug)]
pub enum ChildStep {
    /// Reply and keep waiting.
    Reply,
    /// Reply; the child is done with `code`.
    Exited { code: u64 },
    /// The child faulted: its run failed, with code `u64::MAX`, unanswered.
    Faulted,
}

/// The shell's answer to a child's message.
pub fn child_step(m: ChildMessage) -> (s: ChildStep)
    ensures
        s == match m {
            ChildMessage::Ready | ChildMessage::Report => ChildStep::Reply,
            ChildMessage::Exit { code } => ChildStep::Exited { code },
            ChildMessage::Other => ChildStep::Faulted,
        },
{
    match m {
        ChildMessage::Ready | ChildMessage::Report => ChildStep::Reply,
        ChildMessage::Exit { code } => ChildStep::Exited { code },
        ChildMessage::Other => ChildStep::Faulted,
    }
}

/// The exit code a run ends with.
pub fn exit_code(s: ChildStep) -> (code: Option<u64>)
    ensures
        code == match s {
            ChildStep::Reply => None,
            ChildStep::Exited { code } => Some(code),
            ChildStep::Faulted => Some(u64::MAX),
        },
{
    match s {
        ChildStep::Reply => None,
        ChildStep::Exited { code } => Some(code),
        ChildStep::Faulted => Some(u64::MAX),
    }
}

/// An image the shell will load: at most `MAX_FILE` bytes.
pub fn loadable(size: u64) -> (ok: bool)
    ensures
        ok == (size <= MAX_FILE),
{
    size <= MAX_FILE
}

/// The length of the next READ of a file of `size` bytes at `offset`.
pub fn chunk_len(size: u64, offset: u64) -> (n: u64)
    requires
        offset < size,
    ensures
        n == if size - offset < CHUNK { size - offset } else { CHUNK as int },
        0 < n <= CHUNK,
{
    let left = size - offset;
    if left < CHUNK { left } else { CHUNK }
}

/// Records of a listing page to show: what the service reports, at most a
/// page.
pub fn listing_count(reported: u64, per_page: usize) -> (n: usize)
    ensures
        n == if reported < per_page { reported as int } else { per_page as int },
{
    if reported < per_page as u64 { reported as usize } else { per_page }
}

/// The length of a zero-padded name: up to its first NUL.
pub fn padded_len(name: &[u8]) -> (n: usize)
    ensures
        n <= name@.len(),
        forall|k: int| 0 <= k < n ==> name@[k] != 0,
        n < name@.len() ==> name@[n as int] == 0,
{
    let mut n: usize = 0;
    while n < name.len() && name[n] != 0
        invariant
            n <= name@.len(),
            forall|k: int| 0 <= k < n ==> name@[k] != 0,
        decreases name@.len() - n,
    {
        n = n + 1;
    }
    n
}

} // verus!
