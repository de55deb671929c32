//! The supervision loop's decisions: which service starts next, and what a
//! message on the control endpoint does to the service table. The caller
//! performs the IPC, the teardown, the sleeps and the logging a reaction
//! calls for, in the order the reaction lists them.
use vstd::prelude::*;
use vstd::utf8::encode_utf8;
use crate::init::config::ServiceCfg;
use crate::init::logger::{FLAG_CRASH_DRILL, FLAG_CRASH_SELF};
use crate::init::policy::{
    apply_policy, dependents_of, depends_on, forced_restart, is_live, needs_stop,
    policy_applied, ready_to_start, record_forced_restart, PolicyOutcome,
};
use crate::init::state::{
    device_master, device_master_spec, service_for_badge, ServiceState, Status, DEV_COPY_BASE, INTERNAL_BADGE_BASE, SERVICE_BADGE_BASE,
    IRQ_COPY_BASE, MAX_DEVICES, MAX_DEVICE_IRQS, SUB_UNTYPED_BASE, SVC_EP_BASE,
};

verus! {

broadcast use vstd::seq_lib::group_seq_properties;

/// The name of the console service.
pub open spec fn console_name() -> Seq<char> {
    "console"@
}

/// The name of the application manager, whose READY arms the crash drill.
pub open spec fn appmgr_name() -> Seq<char> {
    "appmgr"@
}

/// The name of the file-system service the crash drill reaps.
pub open spec fn fs_name() -> Seq<char> {
    "fs"@
}

/// The per-service slot block of the service at `index`: `base + index * 8`.
pub open spec fn block_slot(base: u64, index: int, k: int) -> int {
    base + index * 8 + k
}

/// The fresh supervision state of the service configured at `index`, with
/// the IRQHandler masters that serve its devices.
pub fn service_state(cfg: ServiceCfg, index: usize, irq_masters: [u64; MAX_DEVICE_IRQS]) -> (s: ServiceState)
    requires
        index < 0x1000_0000,
    ensures
        s.cfg == cfg,
        s.status == Status::Waiting,
        s.svc_ep_obj == block_slot(SVC_EP_BASE, index as int, 0),
        s.budget_slot == block_slot(SUB_UNTYPED_BASE, index as int, 0),
        forall|k: int| 0 <= k < MAX_DEVICES ==> #[trigger] s.device_copies@[k] == (if k < cfg.devices@.len() {
            block_slot(DEV_COPY_BASE, index as int, k)
        } else {
            0
        }),
        s.irq_masters == irq_masters,
        forall|k: int| 0 <= k < MAX_DEVICE_IRQS ==> #[trigger] s.irq_copies@[k] == block_slot(IRQ_COPY_BASE, index as int, k),
        s.restart_times@ == Seq::<u64>::empty(),
        s.restarts == 0,
{
    let block: u64 = index as u64 * 8;
    let mut device_copies = [0u64; MAX_DEVICES];
    let mut k: usize = 0;
    while k < MAX_DEVICES
        invariant
            k <= MAX_DEVICES,
            block == index * 8,
            index < 0x1000_0000,
            forall|j: int| 0 <= j < MAX_DEVICES ==> #[trigger] device_copies@[j] == (if j < k && j < cfg.devices@.len() {
                block_slot(DEV_COPY_BASE, index as int, j)
            } else {
                0
            }),
        decreases MAX_DEVICES - k,
    {
        if k < cfg.devices.len() {
            device_copies[k] = DEV_COPY_BASE + block + k as u64;
        }
        k = k + 1;
    }
    let irq_copies = [IRQ_COPY_BASE + block, IRQ_COPY_BASE + block + 1];
    ServiceState {
        cfg,
        status: Status::Waiting,
        svc_ep_obj: SVC_EP_BASE + block,
        budget_slot: SUB_UNTYPED_BASE + block,
        device_copies,
        irq_masters,
        irq_copies,
        restart_times: Vec::new(),
        restarts: 0,
    }
}

/// Every configured device name resolves to a device master.
pub fn devices_known(devices: &Vec<String>) -> (ok: bool)
    ensures
        ok == forall|k: int| 0 <= k < devices@.len() ==> (#[trigger] device_master_spec(encode_utf8(devices@[k]@))) is Some,
{
    let mut k: usize = 0;
    while k < devices.len()
        invariant
            k <= devices@.len(),
            forall|j: int| 0 <= j < k ==> (#[trigger] device_master_spec(encode_utf8(devices@[j]@))) is Some,
        decreases devices@.len() - k,
    {
        if device_master(devices[k].as_str()).is_none() {
            return false;
        }
        k = k + 1;
    }
    true
}

/// A message on the supervision endpoint, by its label.
pub enum Message {
    /// The service announces that it serves.
    Ready,
    /// A status report; answered and otherwise ignored.
    Report,
    /// The service exits with `code`.
    Exit { code: u64 },
    /// Any other label: a kernel fault (labels 0 to 4) or a stray request.
    Other { label: u64 },
}

/// A clean exit: `EXIT` with code 0.
pub open spec fn graceful_of(m: Message) -> bool {
    m matches Message::Exit { code } && code == 0
}

/// A kernel fault delivery.
pub open spec fn crashed_of(m: Message) -> bool {
    m matches Message::Other { label } && label <= 4
}

/// The teardown of one terminated service and of the running services that
/// depend on it.
pub struct Teardown {
    /// The service that terminated; the caller reaps it first.
    pub index: usize,
    pub graceful: bool,
    pub crashed: bool,
    /// Every dependent, ascending: each gets a dependency-lost notice.
    pub notified: Vec<usize>,
    /// The live dependents among them, ascending: each is reaped and has
    /// its forced restart counted.
    pub stopped: Vec<usize>,
    /// The restart policy's verdict on `index`.
    pub outcome: PolicyOutcome,
}

/// What the caller does after a message.
pub enum Reaction {
    /// A thread of init's own group faulted: reap and rebuild it.
    RebuildLogger,
    /// The badge names no service.
    Ignore,
    /// Reply and do nothing more.
    Reply,
    /// The service at `index` is running. After an early reply (crash drill
    /// armed but nothing to reap) and its 5 s settle, a log post of `flags`
    /// goes out through the console when `via_console`; the reply precedes
    /// the log post unless `log_first`, and `settle_ms` separates them.
    Started { index: usize, early_reply: bool, log_first: bool, settle_ms: u64, flags: u64, via_console: bool },
    /// The crash drill: reply, settle 5 s, log, then tear down `teardown.index`.
    CrashDrill { teardown: Teardown, via_console: bool },
    /// The sender terminated. When `drill_result`, the caller collects the
    /// logger's drill verdict after reaping it.
    Terminated { teardown: Teardown, drill_result: bool, via_console: bool },
}

/// The service a supervision badge names, among `count`.
pub open spec fn badge_index(count: int, badge: u64) -> Option<int> {
    if SERVICE_BADGE_BASE <= badge && badge - SERVICE_BADGE_BASE < count {
        Some(badge - SERVICE_BADGE_BASE)
    } else {
        None
    }
}

/// Handling `message` may count restarts: an exit or fault tears a service
/// down, and a READY may start the file-service crash drill.
pub open spec fn may_restart(s: Supervisor, message: Message) -> bool {
    match message {
        Message::Ready => s.kill_fs && !s.drilled,
        Message::Report => false,
        _ => true,
    }
}

/// Every restart counter can still be incremented.
pub open spec fn counts_fit(services: Seq<ServiceState>) -> bool {
    forall|i: int| 0 <= i < services.len() ==> #[trigger] services[i].restarts < u32::MAX
}

/// The indices of `old` whose service is live.
pub open spec fn live_in(services: Seq<ServiceState>) -> spec_fn(usize) -> bool {
    |j: usize| j < services.len() && is_live(services[j as int].status)
}

/// `t` describes the teardown of `old` into `new` at `now`.
pub open spec fn torn_down(old: Seq<ServiceState>, new: Seq<ServiceState>, t: Teardown, now: u64) -> bool {
    let index = t.index as int;
    &&& new.len() == old.len()
    &&& 0 <= index < old.len()
    &&& forall|j: int| 0 <= j < old.len() ==> (t.notified@.contains(j as usize) <==> j != index
        && depends_on(old[j].cfg.depends@, old[index].cfg.name@))
    &&& forall|k: int| 0 <= k < t.notified@.len() ==> #[trigger] t.notified@[k] < old.len()
    &&& forall|a: int, b: int| 0 <= a < b < t.notified@.len() ==> t.notified@[a] < t.notified@[b]
    &&& t.stopped@ == t.notified@.filter(live_in(old))
    &&& policy_applied(old[index], new[index], now, t.graceful, t.crashed, t.outcome)
    &&& forall|j: int| 0 <= j < old.len() && j != index ==> if t.stopped@.contains(j as usize) {
        forced_restart(old[j], new[j], now)
    } else {
        new[j] == old[j]
    }
}

/// `new` is `old` with the status of `index` set to `status`.
pub open spec fn with_status(old: Seq<ServiceState>, new: Seq<ServiceState>, index: int, status: Status) -> bool {
    &&& new.len() == old.len()
    &&& 0 <= index < old.len()
    &&& new[index] == (ServiceState { status, ..old[index] })
    &&& forall|j: int| 0 <= j < old.len() && j != index ==> new[j] == old[j]
}

/// The first service named `name`.
pub open spec fn index_named(services: Seq<ServiceState>, name: Seq<char>) -> Option<int> {
    if exists|i: int| 0 <= i < services.len() && #[trigger] services[i].cfg.name@ == name {
        Some(choose|i: int| 0 <= i < services.len() && #[trigger] services[i].cfg.name@ == name
            && forall|j: int| 0 <= j < i ==> #[trigger] services[j].cfg.name@ != name)
    } else {
        None
    }
}

/// The supervision state of init's main thread.
pub struct Supervisor {
    pub services: Vec<ServiceState>,
    /// Logs go through the console service (else the debug console).
    pub console_running: bool,
    /// Supervision drill builds, first incarnation only.
    pub drill_enabled: bool,
    /// The console's crash drill is in flight.
    pub drill_armed: bool,
    /// The logger's self-crash drill was requested.
    pub logger_drill_armed: bool,
    /// Crash drill builds: reap fs once appmgr is up.
    pub kill_fs: bool,
    /// The crash drill ran.
    pub drilled: bool,
}

fn named(name: &String, literal: &str) -> (b: bool)
    ensures
        b == (name@ == literal@),
{
    *name == literal.to_owned()
}

fn find_named(services: &Vec<ServiceState>, literal: &str) -> (found: Option<usize>)
    ensures
        match found {
            Some(i) => index_named(services@, literal@) == Some(i as int) && i < services@.len(),
            None => index_named(services@, literal@) is None,
        },
{
    let mut i: usize = 0;
    while i < services.len()
        invariant
            i <= services@.len(),
            forall|j: int| 0 <= j < i ==> #[trigger] services@[j].cfg.name@ != literal@,
        decreases services@.len() - i,
    {
        if named(&services[i].cfg.name, literal) {
            proof {
                let w = choose|w: int| 0 <= w < services@.len() && #[trigger] services@[w].cfg.name@ == literal@
                    && forall|j: int| 0 <= j < w ==> #[trigger] services@[j].cfg.name@ != literal@;
                assert(0 <= i < services@.len() && services@[i as int].cfg.name@ == literal@
                    && forall|j: int| 0 <= j < i ==> #[trigger] services@[j].cfg.name@ != literal@);
                if w < i {
                } else if w > i {
                    assert(services@[i as int].cfg.name@ != literal@);
                }
            }
            return Some(i);
        }
        i = i + 1;
    }
    None
}

/// Replace the status of the service at `index`.
fn set_status(services: &mut Vec<ServiceState>, index: usize, status: Status)
    requires
        index < old(services)@.len(),
    ensures
        with_status(old(services)@, final(services)@, index as int, status),
{
    let mut s = services.remove(index);
    s.status = status;
    services.insert(index, s);
    proof {
        assert forall|j: int| 0 <= j < old(services)@.len() && j != index implies final(services)@[j] == old(services)@[j] by {
            if j < index {
            } else {
                assert(final(services)@[j] == old(services)@.remove(index as int)[j - 1]);
            }
        }
    }
}

/// Tear down the service at `index` at `now`: count a forced restart for
/// every live dependent, then apply the restart policy to `index`.
#[verifier::rlimit(40)]
fn teardown(services: &mut Vec<ServiceState>, index: usize, now: u64, graceful: bool, crashed: bool) -> (t: Teardown)
    requires
        index < old(services)@.len(),
        counts_fit(old(services)@),
    ensures
        t.index == index,
        t.graceful == graceful,
        t.crashed == crashed,
        torn_down(old(services)@, final(services)@, t, now),
{
    let count = services.len();
    let ghost before = services@;
    let notified = dependents_of(services, index);
    let mut stopped: Vec<usize> = Vec::new();
    let mut k: usize = 0;
    while k < notified.len()
        invariant
            k <= notified@.len(),
            index < before.len(),
            before.len() == count,
            counts_fit(before),
            services@.len() == before.len(),
            forall|q: int| 0 <= q < notified@.len() ==> #[trigger] notified@[q] < before.len(),
            forall|j: int| 0 <= j < before.len() ==> (notified@.contains(j as usize) <==> j != index
                && depends_on(before[j].cfg.depends@, before[index as int].cfg.name@)),
            forall|a: int, b: int| 0 <= a < b < notified@.len() ==> notified@[a] < notified@[b],
            stopped@ == notified@.take(k as int).filter(live_in(before)),
            forall|j: int| 0 <= j < before.len() ==> if notified@.take(k as int).contains(j as usize) && is_live(before[j].status) {
                forced_restart(before[j], #[trigger] services@[j], now)
            } else {
                services@[j] == before[j]
            },
        decreases notified@.len() - k,
    {
        let j = notified[k];
        proof {
            assert(notified@.take(k as int + 1) =~= notified@.take(k as int).push(j));
            notified@.take(k as int).lemma_filter_push(j, live_in(before));
            assert(!notified@.take(k as int).contains(j)) by {
                if notified@.take(k as int).contains(j) {
                    let q = choose|q: int| 0 <= q < k && #[trigger] notified@.take(k as int)[q] == j;
                    assert(notified@[q] < notified@[k as int]);
                }
            }
        }
        if needs_stop(services[j].status) {
            let mut s = services.remove(j);
            record_forced_restart(&mut s, now);
            services.insert(j, s);
            stopped.push(j);
        }
        proof {
            assert forall|i: int| 0 <= i < before.len() implies if notified@.take(k as int + 1).contains(i as usize) && is_live(before[i].status) {
                forced_restart(before[i], #[trigger] services@[i], now)
            } else {
                services@[i] == before[i]
            } by {
                if i != j {
                    if notified@.take(k as int + 1).contains(i as usize) {
                        let q = choose|q: int| 0 <= q < k + 1 && #[trigger] notified@.take(k as int + 1)[q] == i as usize;
                        assert(notified@.take(k as int + 1)[k as int] == j);
                        assert(q != k);
                        assert(notified@.take(k as int)[q] == i as usize);
                    }
                    if notified@.take(k as int).contains(i as usize) {
                        let q = choose|q: int| 0 <= q < k && #[trigger] notified@.take(k as int)[q] == i as usize;
                        assert(notified@.take(k as int + 1)[q] == i as usize);
                    }
                } else {
                    assert(notified@.take(k as int + 1)[k as int] == j);
                }
            }
        }
        k = k + 1;
    }
    proof {
        assert(notified@.take(k as int) =~= notified@);
        assert(!notified@.contains(index));
    }
    let ghost middle = services@;
    let mut s = services.remove(index);
    let outcome = apply_policy(&mut s, now, graceful, crashed);
    services.insert(index, s);
    proof {
        assert forall|j: int| 0 <= j < before.len() && j != index implies if stopped@.contains(j as usize) {
            forced_restart(before[j], services@[j], now)
        } else {
            services@[j] == before[j]
        } by {
            if j < index {
                assert(services@[j] == middle[j]);
            } else {
                assert(services@[j] == middle.remove(index as int)[j - 1]);
            }
            let u = j as usize;
            assert(u as int == j);
            if stopped@.contains(u) {
                notified@.lemma_filter_contains_rev(live_in(before), u);
                assert(notified@.contains(u) && is_live(before[j].status));
                assert(notified@.take(k as int).contains(u));
            } else if notified@.contains(u) && is_live(before[j].status) {
                let q = choose|q: int| 0 <= q < notified@.len() && #[trigger] notified@[q] == u;
                let f = live_in(before);
                assert(f(u));
                notified@.lemma_filter_contains(f, q);
                assert(false);
            } else {
                assert(!(notified@.take(k as int).contains(u) && is_live(before[j].status)));
                assert(middle[j] == before[j]);
            }
        }
    }
    Teardown { index, graceful, crashed, notified, stopped, outcome }
}

impl Supervisor {
    /// A supervisor for `services`, before any of them runs.
    pub fn new(services: Vec<ServiceState>, drill_enabled: bool, kill_fs: bool) -> (s: Self)
        ensures
            s.services == services,
            !s.console_running,
            s.drill_enabled == drill_enabled,
            !s.drill_armed,
            !s.logger_drill_armed,
            s.kill_fs == kill_fs,
            !s.drilled,
    {
        Supervisor {
            services,
            console_running: false,
            drill_enabled,
            drill_armed: false,
            logger_drill_armed: false,
            kill_fs,
            drilled: false,
        }
    }

    /// Handling `message` may count restarts: an exit or fault tears a service
/// down, and a READY may start the file-service crash drill.
pub open spec fn may_restart(s: Supervisor, message: Message) -> bool {
    match message {
        Message::Ready => s.kill_fs && !s.drilled,
        Message::Report => false,
        _ => true,
    }
}

/// Every restart counter can still be incremented.
    pub fn counts_fit(&self) -> (b: bool)
        ensures
            b == counts_fit(self.services@),
    {
        let mut i: usize = 0;
        while i < self.services.len()
            invariant
                i <= self.services@.len(),
                forall|j: int| 0 <= j < i ==> #[trigger] self.services@[j].restarts < u32::MAX,
            decreases self.services@.len() - i,
        {
            if self.services[i].restarts == u32::MAX {
                return false;
            }
            i = i + 1;
        }
        true
    }

    /// The waiting service at `index` has all its dependencies running.
    pub fn startable(&self, index: usize) -> (b: bool)
        requires
            index < self.services@.len(),
        ensures
            b == (self.services@[index as int].status == Status::Waiting
                && crate::init::policy::dependencies_running(self.services@, index as int)),
    {
        ready_to_start(&self.services, index)
    }

    /// The spawn of the service at `index` was attempted: it starts, or it
    /// failed for good.
    pub fn spawned(&mut self, index: usize, ok: bool)
        requires
            index < old(self).services@.len(),
        ensures
            with_status(old(self).services@, final(self).services@, index as int,
                if ok { Status::Starting } else { Status::Failed }),
            final(self).console_running == old(self).console_running,
            final(self).drill_enabled == old(self).drill_enabled,
            final(self).drill_armed == old(self).drill_armed,
            final(self).logger_drill_armed == old(self).logger_drill_armed,
            final(self).kill_fs == old(self).kill_fs,
            final(self).drilled == old(self).drilled,
    {
        set_status(&mut self.services, index, if ok { Status::Starting } else { Status::Failed });
    }

    /// React to `message` from the sender badged `badge`, at `now`.
    #[verifier::rlimit(60)]
    pub fn on_message(&mut self, badge: u64, message: Message, now: u64) -> (r: Reaction)
        requires
            may_restart(*old(self), message) ==> counts_fit(old(self).services@),
        ensures
            final(self).drill_enabled == old(self).drill_enabled,
            final(self).kill_fs == old(self).kill_fs,
            ({
                let o = old(self).services@;
                let n = final(self).services@;
                let found = badge_index(o.len() as int, badge);
                if badge >= INTERNAL_BADGE_BASE {
                    r is RebuildLogger && *final(self) == *old(self)
                } else if found is None {
                    r is Ignore && *final(self) == *old(self)
                } else {
                    let index = found->0;
                    let name = o[index].cfg.name@;
                    let is_console = name == console_name();
                    match message {
                        Message::Ready => {
                            let drill = old(self).drill_enabled && is_console && o[index].restarts == 0;
                            let running = o.update(index, ServiceState { status: Status::Running, ..o[index] });
                            let fs = index_named(running, fs_name());
                            let drilling = old(self).kill_fs && !old(self).drilled && name == appmgr_name();
                            if drilling && fs is Some {
                                &&& r matches Reaction::CrashDrill { teardown, via_console }
                                    && teardown.index == fs->0 && !teardown.graceful && teardown.crashed
                                    && torn_down(running, n, teardown, now)
                                    && via_console == old(self).console_running
                                &&& final(self).drilled
                                &&& final(self).console_running == old(self).console_running
                                &&& final(self).drill_armed == old(self).drill_armed
                                &&& final(self).logger_drill_armed == old(self).logger_drill_armed
                            } else {
                                let console_running = old(self).console_running || is_console;
                                let self_drill = !drill && old(self).drill_enabled && is_console
                                    && o[index].restarts == 1 && !old(self).logger_drill_armed;
                                &&& n == running
                                &&& final(self).drilled == (old(self).drilled || drilling)
                                &&& final(self).console_running == console_running
                                &&& r matches Reaction::Started { index: i, early_reply, log_first, settle_ms, flags, via_console }
                                    && i == index && early_reply == drilling && via_console == console_running
                                    && if !old(self).drill_enabled {
                                        log_first && settle_ms == 0 && flags == 0
                                    } else {
                                        !log_first && settle_ms == 100
                                            && flags == (if drill { FLAG_CRASH_DRILL } else if self_drill { FLAG_CRASH_SELF } else { 0 })
                                    }
                                &&& final(self).drill_armed == (if old(self).drill_enabled { drill } else { old(self).drill_armed })
                                &&& final(self).logger_drill_armed == (old(self).logger_drill_armed || (old(self).drill_enabled && self_drill))
                            }
                        },
                        Message::Report => r is Reply && *final(self) == *old(self),
                        _ => {
                            &&& r matches Reaction::Terminated { teardown, drill_result, via_console }
                                && teardown.index == index
                                && teardown.graceful == graceful_of(message)
                                && teardown.crashed == crashed_of(message)
                                && torn_down(o, n, teardown, now)
                                && drill_result == old(self).drill_armed
                                && via_console == final(self).console_running
                            &&& final(self).console_running == (old(self).console_running && !is_console)
                            &&& !final(self).drill_armed
                            &&& final(self).logger_drill_armed == old(self).logger_drill_armed
                            &&& final(self).drilled == old(self).drilled
                        },
                    }
                }
            }),
    {
        if badge >= INTERNAL_BADGE_BASE {
            return Reaction::RebuildLogger;
        }
        let index = match service_for_badge(self.services.len(), badge) {
            Some(index) => index,
            None => return Reaction::Ignore,
        };
        let is_console = named(&self.services[index].cfg.name, "console");
        match message {
            Message::Ready => {
                let restarts = self.services[index].restarts;
                let drill = self.drill_enabled && is_console && restarts == 0;
                let is_appmgr = named(&self.services[index].cfg.name, "appmgr");
                let ghost o = self.services@;
                set_status(&mut self.services, index, Status::Running);
                proof {
                    assert(self.services@ =~= o.update(index as int, ServiceState { status: Status::Running, ..o[index as int] }));
                }
                let drilling = self.kill_fs && !self.drilled && is_appmgr;
                if drilling {
                    self.drilled = true;
                    if let Some(fs) = find_named(&self.services, "fs") {
                        proof {
                            assert forall|i: int| 0 <= i < self.services@.len() implies #[trigger] self.services@[i].restarts < u32::MAX by {
                                if i != index {
                                    assert(self.services@[i] == o[i]);
                                }
                            }
                        }
                        let teardown = teardown(&mut self.services, fs, now, false, true);
                        return Reaction::CrashDrill { teardown, via_console: self.console_running };
                    }
                }
                if !self.drill_enabled {
                    if is_console {
                        self.console_running = true;
                    }
                    return Reaction::Started {
                        index,
                        early_reply: drilling,
                        log_first: true,
                        settle_ms: 0,
                        flags: 0,
                        via_console: self.console_running,
                    };
                }
                if is_console {
                    self.console_running = true;
                }
                let mut flags: u64 = 0;
                if drill {
                    flags = FLAG_CRASH_DRILL;
                } else if is_console && restarts == 1 && !self.logger_drill_armed {
                    flags = FLAG_CRASH_SELF;
                    self.logger_drill_armed = true;
                }
                self.drill_armed = drill;
                Reaction::Started {
                    index,
                    early_reply: drilling,
                    log_first: false,
                    settle_ms: 100,
                    flags,
                    via_console: self.console_running,
                }
            },
            Message::Report => Reaction::Reply,
            _ => {
                let graceful = match message {
                    Message::Exit { code } => code == 0,
                    _ => false,
                };
                let crashed = match message {
                    Message::Other { label } => label <= 4,
                    _ => false,
                };
                if is_console {
                    self.console_running = false;
                }
                let drill_result = self.drill_armed;
                self.drill_armed = false;
                let teardown = teardown(&mut self.services, index, now, graceful, crashed);
                Reaction::Terminated { teardown, drill_result, via_console: self.console_running }
            },
        }
    }
}

} // verus!
