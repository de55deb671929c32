//! The `extra` words of the spawn record a parent hands a child: where the
//! child finds its console, devices, own endpoint, dependency endpoints and
//! IRQ handlers in its CSpace. Words nobody sets are 0.
use vstd::prelude::*;
use crate::init::spawn::{device_pairs, min_int};
use crate::init::state::{
    CHILD_CONSOLE, CHILD_DEP_BASE, CHILD_DEV_BASE, CHILD_IRQ, CHILD_IRQ2, CHILD_SELF_EP, MAX_DEPS,
    ServiceState,
};
use crate::shell::program::{CHILD_FS, CHILD_GPU};

verus! {

/// Number of `extra` words.
pub const EXTRA_LEN: usize = 16;
/// Slot of the console client endpoint.
pub const CONSOLE_EP: usize = 0;
/// First device Untyped slot.
pub const DEVICE_SLOT: usize = 1;
/// Slot of the child's own service endpoint.
pub const SELF_EP: usize = 2;
/// Number of device Untypeds.
pub const DEVICE_COUNT: usize = 3;
/// Whether the supervision drills run (the first incarnation of init only).
pub const BOOT_TEST: usize = 4;
/// Restart generation of init.
pub const RESTARTS: usize = 5;
/// Number of dependency endpoints.
pub const DEP_COUNT: usize = 6;
/// First dependency endpoint slot, in `depends` order.
pub const DEP_EP_BASE: usize = 7;
/// First IRQ handler slot.
pub const IRQ_SLOT: usize = 10;
/// Second IRQ handler slot; for init, the number of VirtIO lines.
pub const IRQ_SLOT2: usize = 11;

/// Word `i` of a supervised service's record: `devices` device Untypeds,
/// `deps` dependency endpoints, and IRQ handlers where the device has lines.
pub open spec fn service_word(devices: int, deps: int, irq0: bool, irq1: bool, i: int) -> u64 {
    if i == CONSOLE_EP {
        CHILD_CONSOLE
    } else if i == DEVICE_SLOT {
        CHILD_DEV_BASE
    } else if i == SELF_EP {
        CHILD_SELF_EP
    } else if i == DEVICE_COUNT {
        devices as u64
    } else if i == DEP_COUNT {
        deps as u64
    } else if DEP_EP_BASE <= i < DEP_EP_BASE + deps {
        (CHILD_DEP_BASE + (i - DEP_EP_BASE)) as u64
    } else if i == IRQ_SLOT {
        if irq0 { CHILD_IRQ } else { 0 }
    } else if i == IRQ_SLOT2 {
        if irq1 { CHILD_IRQ2 } else { 0 }
    } else {
        0
    }
}

/// The record of the supervised service `svc`.
pub open spec fn service_extra_spec(svc: ServiceState) -> Seq<u64> {
    Seq::new(
        EXTRA_LEN as nat,
        |i: int|
            service_word(
                device_pairs(svc).len() as int,
                min_int(svc.cfg.depends@.len() as int, MAX_DEPS as int),
                svc.irq_masters@[0] != 0,
                svc.irq_masters@[1] != 0,
                i,
            ),
    )
}

fn service_word_at(devices: usize, deps: usize, irq0: bool, irq1: bool, i: usize) -> (w: u64)
    requires
        deps <= MAX_DEPS,
        devices <= 64,
    ensures
        w == service_word(devices as int, deps as int, irq0, irq1, i as int),
{
    if i == CONSOLE_EP {
        CHILD_CONSOLE
    } else if i == DEVICE_SLOT {
        CHILD_DEV_BASE
    } else if i == SELF_EP {
        CHILD_SELF_EP
    } else if i == DEVICE_COUNT {
        devices as u64
    } else if i == DEP_COUNT {
        deps as u64
    } else if DEP_EP_BASE <= i && i < DEP_EP_BASE + deps {
        CHILD_DEP_BASE + (i - DEP_EP_BASE) as u64
    } else if i == IRQ_SLOT {
        if irq0 { CHILD_IRQ } else { 0 }
    } else if i == IRQ_SLOT2 {
        if irq1 { CHILD_IRQ2 } else { 0 }
    } else {
        0
    }
}

/// The `extra` words init hands the service `svc`: console, device and own
/// endpoint slots, the device and dependency counts, one endpoint slot per
/// dependency, and an IRQ handler slot for each device line it has.
pub fn service_extra(svc: &ServiceState) -> (extra: Vec<u64>)
    ensures
        extra@ == service_extra_spec(*svc),
{
    let devices = if svc.cfg.devices.len() < crate::init::state::MAX_DEVICES {
        svc.cfg.devices.len()
    } else {
        crate::init::state::MAX_DEVICES
    };
    let deps = if svc.cfg.depends.len() < MAX_DEPS { svc.cfg.depends.len() } else { MAX_DEPS };
    let irq0 = svc.irq_masters[0] != 0;
    let irq1 = svc.irq_masters[1] != 0;
    let ghost spec = service_extra_spec(*svc);
    assert(devices == device_pairs(*svc).len());
    let mut extra: Vec<u64> = Vec::new();
    let mut i: usize = 0;
    while i < EXTRA_LEN
        invariant
            i <= EXTRA_LEN,
            deps <= MAX_DEPS,
            devices <= crate::init::state::MAX_DEVICES,
            spec == service_extra_spec(*svc),
            devices == device_pairs(*svc).len(),
            deps == min_int(svc.cfg.depends@.len() as int, MAX_DEPS as int),
            irq0 == (svc.irq_masters@[0] != 0),
            irq1 == (svc.irq_masters@[1] != 0),
            extra@ == spec.take(i as int),
        decreases EXTRA_LEN - i,
    {
        let w = service_word_at(devices, deps, irq0, irq1, i);
        extra.push(w);
        i = i + 1;
        assert(extra@ =~= spec.take(i as int));
    }
    assert(spec.take(EXTRA_LEN as int) =~= spec);
    extra
}

/// Word `i` of a program the shell runs: the console, and the file and GPU
/// service endpoints only when the program takes arguments.
pub open spec fn program_word(has_args: bool, i: int) -> u64 {
    if i == CONSOLE_EP {
        crate::shell::program::CHILD_CONSOLE
    } else if has_args && i == DEP_EP_BASE {
        CHILD_FS
    } else if has_args && i == DEP_EP_BASE + 1 {
        CHILD_GPU
    } else {
        0
    }
}

/// The `extra` words the shell hands a program run with `arg_count`
/// arguments.
pub fn program_extra(arg_count: usize) -> (extra: Vec<u64>)
    ensures
        extra@ == Seq::new(EXTRA_LEN as nat, |i: int| program_word(arg_count > 0, i)),
{
    let has_args = arg_count > 0;
    let ghost spec = Seq::new(EXTRA_LEN as nat, |i: int| program_word(has_args, i));
    let mut extra: Vec<u64> = Vec::new();
    let mut i: usize = 0;
    while i < EXTRA_LEN
        invariant
            i <= EXTRA_LEN,
            spec == Seq::new(EXTRA_LEN as nat, |i: int| program_word(has_args, i)),
            extra@ == spec.take(i as int),
        decreases EXTRA_LEN - i,
    {
        let w: u64 = if i == CONSOLE_EP {
            crate::shell::program::CHILD_CONSOLE
        } else if has_args && i == DEP_EP_BASE {
            CHILD_FS
        } else if has_args && i == DEP_EP_BASE + 1 {
            CHILD_GPU
        } else {
            0
        };
        extra.push(w);
        i = i + 1;
        assert(extra@ =~= spec.take(i as int));
    }
    assert(spec.take(EXTRA_LEN as int) =~= spec);
    extra
}

/// The `extra` words the app manager hands an app: its console alone.
pub fn app_extra() -> (extra: Vec<u64>)
    ensures
        extra@ == Seq::new(EXTRA_LEN as nat, |i: int| if i == CONSOLE_EP { CHILD_CONSOLE } else { 0u64 }),
{
    let ghost spec = Seq::new(EXTRA_LEN as nat, |i: int| if i == CONSOLE_EP { CHILD_CONSOLE } else { 0u64 });
    let mut extra: Vec<u64> = Vec::new();
    let mut i: usize = 0;
    while i < EXTRA_LEN
        invariant
            i <= EXTRA_LEN,
            spec == Seq::new(EXTRA_LEN as nat, |i: int| if i == CONSOLE_EP { CHILD_CONSOLE } else { 0u64 }),
            extra@ == spec.take(i as int),
        decreases EXTRA_LEN - i,
    {
        let w: u64 = if i == CONSOLE_EP { CHILD_CONSOLE } else { 0 };
        extra.push(w);
        i = i + 1;
        assert(extra@ =~= spec.take(i as int));
    }
    assert(spec.take(EXTRA_LEN as int) =~= spec);
    extra
}

/// Word `i` of init's record from the boot task: its first device slot and
/// device count, the drill switch, its restart generation, its first IRQ
/// handler slot and the number of VirtIO lines.
pub open spec fn init_word(
    device_slot: u64,
    devices: u64,
    boot_test: bool,
    restarts: u32,
    irq_slot: u64,
    virtio_lines: u64,
    i: int,
) -> u64 {
    if i == DEVICE_SLOT {
        device_slot
    } else if i == DEVICE_COUNT {
        devices
    } else if i == BOOT_TEST {
        if boot_test { 1 } else { 0 }
    } else if i == RESTARTS {
        restarts as u64
    } else if i == IRQ_SLOT {
        irq_slot
    } else if i == IRQ_SLOT2 {
        virtio_lines
    } else {
        0
    }
}

/// The `extra` words the boot task hands init.
pub fn init_extra(
    device_slot: u64,
    devices: u64,
    boot_test: bool,
    restarts: u32,
    irq_slot: u64,
    virtio_lines: u64,
) -> (extra: Vec<u64>)
    ensures
        extra@ == Seq::new(
            EXTRA_LEN as nat,
            |i: int| init_word(device_slot, devices, boot_test, restarts, irq_slot, virtio_lines, i),
        ),
{
    let ghost spec = Seq::new(
        EXTRA_LEN as nat,
        |i: int| init_word(device_slot, devices, boot_test, restarts, irq_slot, virtio_lines, i),
    );
    let mut extra: Vec<u64> = Vec::new();
    let mut i: usize = 0;
    while i < EXTRA_LEN
        invariant
            i <= EXTRA_LEN,
            spec == Seq::new(
                EXTRA_LEN as nat,
                |i: int| init_word(device_slot, devices, boot_test, restarts, irq_slot, virtio_lines, i),
            ),
            extra@ == spec.take(i as int),
        decreases EXTRA_LEN - i,
    {
        let w: u64 = if i == DEVICE_SLOT {
            device_slot
        } else if i == DEVICE_COUNT {
            devices
        } else if i == BOOT_TEST {
            if boot_test { 1 } else { 0 }
        } else if i == RESTARTS {
            restarts as u64
        } else if i == IRQ_SLOT {
            irq_slot
        } else if i == IRQ_SLOT2 {
            virtio_lines
        } else {
            0
        };
        extra.push(w);
        i = i + 1;
        assert(extra@ =~= spec.take(i as int));
    }
    assert(spec.take(EXTRA_LEN as int) =~= spec);
    extra
}

} // verus!
