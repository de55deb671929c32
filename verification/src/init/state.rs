//! init's CSpace layout constants, per-service supervision state and the
//! helpers the supervision loop is built from.
use vstd::prelude::*;
use vstd::string::StringSliceAdditionalSpecFns;
use vstd::utf8::encode_utf8;
use crate::init::config::ServiceCfg;
use crate::init::logger::{FLAG_CONSOLE, MAX_LINE, pack, packed};
use crate::num::{parse_u64, parse_u64_spec};

verus! {

pub const CONTROL_OBJ: u64 = 142;
pub const CONSOLE_EP_OWN: u64 = 50;
pub const DEV_MASTER_BASE: u64 = 161;
pub const DEV_COPY_BASE: u64 = 170;
pub const SUB_UNTYPED_BASE: u64 = 5000;
pub const SVC_EP_BASE: u64 = 5004;
pub const IRQ_COPY_BASE: u64 = 5002;
pub const THREAD_SLOT_BASE: u64 = 6000;
pub const LOGGER_FAULT_SLOT: u64 = 144;
pub const CHILD_SCRATCH: usize = 0x07E0_0000;
pub const ROM_VA: usize = 0x0200_0000;
pub const CHILD_CONTROL: u64 = 140;
pub const CHILD_CONSOLE: u64 = 51;
pub const CHILD_BUDGET: u64 = 32;
pub const CHILD_DEV_BASE: u64 = 33;
pub const CHILD_SELF_EP: u64 = 52;
pub const CHILD_DEP_BASE: u64 = 53;
pub const CHILD_IRQ: u64 = 56;
pub const CHILD_IRQ2: u64 = 57;
pub const MAX_DEVICES: usize = 4;
pub const MAX_DEPS: usize = 3;
/// Device IRQ handlers one service may drive.
pub const MAX_DEVICE_IRQS: usize = 2;
pub const SERVICE_BADGE_BASE: u64 = 1;
pub const INTERNAL_BADGE_BASE: u64 = 0x8000;
pub const BACKOFF_SHIFT_CAP: u32 = 5;
pub const INIT_EXIT_DRILL_CODE: u64 = 7;

/// Service lifecycle states.
#[derive(Clone, Copy, PartialEq, Eq, Structural, Debug)]
pub enum Status {
    /// Waiting for dependencies to become Running.
    Waiting,
    /// Spawned, before its READY announcement.
    Starting,
    Running,
    /// Crashed or exited cleanly; restart pending or final.
    Terminated,
    /// Restart budget exhausted or policy says never: permanent.
    Failed,
}

/// Per-service supervision state (the task handle lives with the caller).
pub struct ServiceState {
    pub cfg: ServiceCfg,
    pub status: Status,
    pub svc_ep_obj: u64,
    pub budget_slot: u64,
    pub device_copies: [u64; MAX_DEVICES],
    pub irq_masters: [u64; MAX_DEVICE_IRQS],
    pub irq_copies: [u64; MAX_DEVICE_IRQS],
    /// Restart timestamps inside the observation window (clock ms).
    pub restart_times: Vec<u64>,
    pub restarts: u32,
}

/// The build-time supervision drill switch: set to exactly `1`.
pub fn boot_test(flag: Option<&str>) -> (on: bool)
    ensures
        on == (match flag {
            Some(v) => v.spec_bytes() == seq![49u8],
            None => false,
        }),
{
    match flag {
        Some(v) => {
            let bytes = v.as_bytes();
            bytes.len() == 1 && bytes[0] == 49
        },
        None => false,
    }
}

/// The supervision badge of the service at `index`.
pub fn badge_for(index: usize) -> (badge: u64)
    requires
        index < u64::MAX,
    ensures
        badge == SERVICE_BADGE_BASE + index,
{
    SERVICE_BADGE_BASE + index as u64
}

/// The service whose badge is `badge`, among `count` services.
pub fn service_for_badge(count: usize, badge: u64) -> (index: Option<usize>)
    ensures
        index == (if SERVICE_BADGE_BASE <= badge && badge - SERVICE_BADGE_BASE < count {
            Some((badge - SERVICE_BADGE_BASE) as usize)
        } else {
            None
        }),
{
    if badge >= SERVICE_BADGE_BASE && badge - SERVICE_BADGE_BASE < count as u64 {
        Some((badge - SERVICE_BADGE_BASE) as usize)
    } else {
        None
    }
}

/// The bytes of `virtio-mmio-`.
pub open spec fn virtio_prefix() -> Seq<u8> {
    seq![118u8, 105, 114, 116, 105, 111, 45, 109, 109, 105, 111, 45]
}

/// The bytes of `uart0`.
pub open spec fn uart_name() -> Seq<u8> {
    seq![117u8, 97, 114, 116, 48]
}

/// The ordinal `N` of a `virtio-mmio-N` name.
pub open spec fn virtio_ordinal(name: Seq<u8>) -> Option<u64> {
    if name.len() >= 12 && name.take(12) == virtio_prefix() {
        parse_u64_spec(name.skip(12))
    } else {
        None
    }
}

/// The VirtIO slot line a device name refers to: device `N` of `count`
/// lines sits in slot `count - 1 - N`.
pub open spec fn virtio_slot_spec(name: Seq<u8>, line_count: u64) -> Option<u64> {
    match virtio_ordinal(name) {
        Some(device) => if device < line_count {
            Some((line_count - 1 - device) as u64)
        } else {
            None
        },
        None => None,
    }
}

fn virtio_ordinal_of(bytes: &[u8]) -> (r: Option<u64>)
    ensures
        r == virtio_ordinal(bytes@),
{
    let prefix: [u8; 12] = [118, 105, 114, 116, 105, 111, 45, 109, 109, 105, 111, 45];
    if bytes.len() < 12 {
        return None;
    }
    let mut i: usize = 0;
    while i < 12
        invariant
            i <= 12,
            bytes@.len() >= 12,
            prefix@ == virtio_prefix(),
            forall|k: int| 0 <= k < i ==> bytes@[k] == prefix@[k],
        decreases 12 - i,
    {
        if bytes[i] != prefix[i] {
            proof {
                assert(bytes@.take(12)[i as int] != virtio_prefix()[i as int]);
            }
            return None;
        }
        i = i + 1;
    }
    assert(bytes@.take(12) =~= virtio_prefix());
    let rest = &bytes[12..bytes.len()];
    assert(rest@ =~= bytes@.skip(12));
    parse_u64(rest)
}

/// The VirtIO slot line a configured device name refers to.
pub fn virtio_slot(name: &str, line_count: u64) -> (slot: Option<u64>)
    ensures
        slot == virtio_slot_spec(name.spec_bytes(), line_count),
{
    match virtio_ordinal_of(name.as_bytes()) {
        Some(device) => if device < line_count {
            Some(line_count - 1 - device)
        } else {
            None
        },
        None => None,
    }
}

/// The device Untyped master a configured name resolves to: `uart0` is
/// master 0, every `virtio-mmio-N` shares master 1.
pub open spec fn device_master_spec(name: Seq<u8>) -> Option<u64> {
    if name == uart_name() {
        Some(0)
    } else if virtio_ordinal(name) is Some {
        Some(1)
    } else {
        None
    }
}

pub fn device_master(name: &str) -> (master: Option<u64>)
    ensures
        master == device_master_spec(name.spec_bytes()),
{
    let bytes = name.as_bytes();
    if bytes.len() == 5 && bytes[0] == 117 && bytes[1] == 97 && bytes[2] == 114 && bytes[3] == 116
        && bytes[4] == 48 {
        assert(bytes@ =~= uart_name());
        return Some(0);
    }
    assert(bytes@ != uart_name()) by {
        if bytes@ == uart_name() {
            assert(bytes@.len() == 5);
            assert(bytes@[0] == 117 && bytes@[1] == 97 && bytes@[2] == 114 && bytes@[3] == 116 && bytes@[4] == 48);
        }
    }
    match virtio_ordinal_of(bytes) {
        Some(_) => Some(1),
        None => None,
    }
}

/// The VirtIO slots of a device list, in configuration order.
pub open spec fn device_slots(devices: Seq<String>, line_count: u64) -> Seq<u64>
    decreases devices.len(),
{
    if devices.len() == 0 {
        Seq::empty()
    } else {
        let rest = device_slots(devices.drop_last(), line_count);
        match virtio_slot_spec(encode_utf8(devices.last()@), line_count) {
            Some(slot) => rest.push(slot),
            None => rest,
        }
    }
}

/// The init-side IRQHandler master slots serving a service's devices, in
/// configuration order: one per named VirtIO device, at most
/// `MAX_DEVICE_IRQS`; none when `master_base` is 0.
pub fn service_irq_masters(cfg: &ServiceCfg, master_base: u64, line_count: u64) -> (masters: [u64; MAX_DEVICE_IRQS])
    requires
        master_base + line_count <= u64::MAX,
    ensures
        forall|k: int| 0 <= k < MAX_DEVICE_IRQS ==> #[trigger] masters@[k] == {
            let slots = device_slots(cfg.devices@, line_count);
            if master_base != 0 && k < slots.len() {
                (master_base + slots[k]) as u64
            } else {
                0
            }
        },
{
    let mut masters = [0u64; MAX_DEVICE_IRQS];
    if master_base == 0 {
        return masters;
    }
    let mut found: usize = 0;
    let mut i: usize = 0;
    while i < cfg.devices.len() && found < MAX_DEVICE_IRQS
        invariant
            i <= cfg.devices@.len(),
            master_base + line_count <= u64::MAX,
            master_base != 0,
            found == device_slots(cfg.devices@.take(i as int), line_count).len(),
            found <= MAX_DEVICE_IRQS,
            forall|k: int| 0 <= k < MAX_DEVICE_IRQS ==> #[trigger] masters@[k] == {
                let slots = device_slots(cfg.devices@.take(i as int), line_count);
                if k < slots.len() {
                    (master_base + slots[k]) as u64
                } else {
                    0
                }
            },
            forall|k: int| 0 <= k < device_slots(cfg.devices@.take(i as int), line_count).len()
                ==> #[trigger] device_slots(cfg.devices@.take(i as int), line_count)[k] < line_count,
        decreases cfg.devices@.len() - i,
    {
        let ghost before = device_slots(cfg.devices@.take(i as int), line_count);
        proof {
            assert(cfg.devices@.take(i as int + 1).drop_last() =~= cfg.devices@.take(i as int));
            assert(cfg.devices@.take(i as int + 1).last() == cfg.devices@[i as int]);
        }
        let name = cfg.devices[i].as_str();
        if let Some(slot) = virtio_slot(name, line_count) {
            masters[found] = master_base + slot;
            found = found + 1;
        }
        i = i + 1;
    }
    proof {
        let all = device_slots(cfg.devices@, line_count);
        let part = device_slots(cfg.devices@.take(i as int), line_count);
        if i == cfg.devices@.len() {
            assert(cfg.devices@.take(i as int) =~= cfg.devices@);
        } else {
            lemma_device_slots_prefix(cfg.devices@, line_count, i as int);
        }
        assert forall|k: int| 0 <= k < MAX_DEVICE_IRQS implies #[trigger] masters@[k] == (if k < all.len() {
            (master_base + all[k]) as u64
        } else {
            0
        }) by {
            if i < cfg.devices@.len() {
                assert(part.len() == 2);
                assert(all.len() >= part.len());
                assert(all[k] == part[k]);
            }
        }
    }
    masters
}

/// The slots of a prefix of the device list are a prefix of its slots.
proof fn lemma_device_slots_prefix(devices: Seq<String>, line_count: u64, i: int)
    requires
        0 <= i <= devices.len(),
    ensures
        device_slots(devices.take(i), line_count).len() <= device_slots(devices, line_count).len(),
        forall|k: int| 0 <= k < device_slots(devices.take(i), line_count).len() ==>
            #[trigger] device_slots(devices.take(i), line_count)[k] == device_slots(devices, line_count)[k],
    decreases devices.len() - i,
{
    if i < devices.len() {
        lemma_device_slots_prefix(devices, line_count, i + 1);
        assert(devices.take(i + 1).drop_last() =~= devices.take(i));
        let a = device_slots(devices.take(i), line_count);
        let b = device_slots(devices.take(i + 1), line_count);
        assert(b.len() >= a.len());
        assert forall|k: int| 0 <= k < a.len() implies #[trigger] a[k] == b[k] by {}
        assert forall|k: int| 0 <= k < a.len() implies #[trigger] a[k] == device_slots(devices, line_count)[k] by {
            assert(a[k] == b[k]);
        }
    } else {
        assert(devices.take(i) =~= devices);
    }
}

/// A log line ready to post to the logger thread.
pub struct LogPost {
    pub words: [u64; 16],
    pub length: usize,
}

/// `prefix: name`, cut to the logger's line length.
pub open spec fn log_line(prefix: Seq<u8>, name: Seq<u8>) -> Seq<u8> {
    let full = prefix + seq![58u8, 32u8] + name;
    if full.len() <= MAX_LINE {
        full
    } else {
        full.take(MAX_LINE as int)
    }
}

/// Append `text` to `buffer`, cut at `MAX_LINE` bytes in all.
fn append_capped(buffer: &mut Vec<u8>, text: &[u8])
    requires
        old(buffer)@.len() <= MAX_LINE,
    ensures
        final(buffer)@ == (if old(buffer)@.len() + text@.len() <= MAX_LINE {
            old(buffer)@ + text@
        } else {
            (old(buffer)@ + text@).take(MAX_LINE as int)
        }),
{
    let ghost start = buffer@;
    let mut i: usize = 0;
    while i < text.len() && buffer.len() < MAX_LINE
        invariant
            i <= text@.len(),
            buffer@.len() <= MAX_LINE,
            buffer@ == start + text@.take(i as int),
            start.len() <= MAX_LINE,
        decreases text@.len() - i,
    {
        buffer.push(text[i]);
        assert(buffer@ =~= start + text@.take(i as int + 1));
        i = i + 1;
    }
    if i == text.len() {
        assert(text@.take(i as int) =~= text@);
    } else {
        assert(buffer@ =~= (start + text@).take(MAX_LINE as int));
    }
}

/// The POST message for the log line `prefix: name`: through the console
/// service when it runs (`via_console`), with `extra_flags` besides.
pub fn post_log(via_console: bool, extra_flags: u64, prefix: &str, name: &str) -> (post: LogPost)
    ensures
        packed(
            Seq::new(16, |i: int| 0u64),
            post.words@,
            log_line(prefix.spec_bytes(), name.spec_bytes()),
            if via_console && CONSOLE_EP_OWN != 0 { extra_flags | FLAG_CONSOLE } else { extra_flags },
            post.length,
        ),
{
    let mut line: Vec<u8> = Vec::new();
    append_capped(&mut line, prefix.as_bytes());
    let separator: [u8; 2] = [58, 32];
    append_capped(&mut line, separator.as_slice());
    append_capped(&mut line, name.as_bytes());
    proof {
        let p = prefix.spec_bytes();
        let n = name.spec_bytes();
        let full = p + seq![58u8, 32u8] + n;
        assert(separator@ =~= seq![58u8, 32u8]);
        assert(line@ =~= log_line(p, n));
    }
    let mut flags = extra_flags;
    if via_console && CONSOLE_EP_OWN != 0 {
        flags = flags | FLAG_CONSOLE;
    }
    let mut words = [0u64; 16];
    assert(words@ =~= Seq::new(16, |i: int| 0u64));
    let length = pack(line.as_slice(), flags, &mut words);
    LogPost { words, length }
}

} // verus!
