//! Restart policy: observation window, restart budget, backoff, and the
//! dependency bookkeeping of a lost service. Decisions only; the caller
//! performs the teardown, the sleep and the logging they call for.
use vstd::prelude::*;
use crate::init::config::Restart;
use crate::init::state::{BACKOFF_SHIFT_CAP, ServiceState, Status};

verus! {

broadcast use vstd::seq_lib::group_seq_properties;

/// A restart stamp still inside the window at `now`.
pub open spec fn recent(now: u64, window_ms: u32) -> spec_fn(u64) -> bool {
    |stamp: u64| (if now >= stamp { now - stamp } else { 0 }) < window_ms
}

/// What to do with a terminated service.
#[derive(PartialEq, Eq, Structural, Debug)]
pub enum PolicyOutcome {
    /// No restart; a critical service that failed takes init down with it.
    Stop { critical_failure: bool },
    /// Restart after sleeping `backoff_ms`.
    Restart { backoff_ms: u32 },
}

/// `2^min(restarts, BACKOFF_SHIFT_CAP)`.
pub open spec fn backoff_factor(restarts: u32) -> u64 {
    if restarts == 0 {
        1
    } else if restarts == 1 {
        2
    } else if restarts == 2 {
        4
    } else if restarts == 3 {
        8
    } else if restarts == 4 {
        16
    } else {
        32
    }
}

/// `base * 2^min(restarts, BACKOFF_SHIFT_CAP)`, saturating.
pub open spec fn backoff_spec(base: u32, restarts: u32) -> u32 {
    let v = base as int * backoff_factor(restarts);
    if v > u32::MAX {
        u32::MAX
    } else {
        v as u32
    }
}

/// Keep the stamps inside the window, in order.
pub fn prune_restart_times(times: &mut Vec<u64>, now: u64, window_ms: u32)
    ensures
        final(times)@ == old(times)@.filter(recent(now, window_ms)),
{
    let ghost keep = recent(now, window_ms);
    let mut kept: Vec<u64> = Vec::new();
    let mut i: usize = 0;
    while i < times.len()
        invariant
            i <= times@.len(),
            keep == recent(now, window_ms),
            kept@ == times@.take(i as int).filter(keep),
        decreases times@.len() - i,
    {
        let stamp = times[i];
        proof {
            assert(times@.take(i as int + 1) =~= times@.take(i as int).push(stamp));
            times@.take(i as int).lemma_filter_push(stamp, keep);
        }
        if now.saturating_sub(stamp) < window_ms as u64 {
            kept.push(stamp);
        }
        i = i + 1;
    }
    assert(times@.take(i as int) =~= times@);
    *times = kept;
}

/// The backoff before the next restart.
pub fn backoff(base: u32, restarts: u32) -> (ms: u32)
    ensures
        ms == backoff_spec(base, restarts),
{
    let factor: u64 = if restarts == 0 {
        1
    } else if restarts == 1 {
        2
    } else if restarts == 2 {
        4
    } else if restarts == 3 {
        8
    } else if restarts == 4 {
        16
    } else {
        32
    };
    let product: u64 = base as u64 * factor;
    if product > u32::MAX as u64 {
        u32::MAX
    } else {
        product as u32
    }
}

/// What `apply_policy` leaves behind: the service `o` became `n` at `now`
/// with the given outcome.
pub open spec fn policy_applied(o: ServiceState, n: ServiceState, now: u64, graceful_exit: bool, crashed: bool, outcome: PolicyOutcome) -> bool {
    let failed_run = crashed || !graceful_exit;
    let cfg = o.cfg;
    let times = o.restart_times@.filter(recent(now, cfg.window_ms));
    let allowed = match cfg.restart {
        Restart::Never => false,
        Restart::OnFailure => failed_run,
        Restart::Always => true,
    };
    let within_budget = (times.len() as u32) < cfg.max_restarts;
    &&& n.cfg == o.cfg
    &&& n.svc_ep_obj == o.svc_ep_obj
    &&& n.budget_slot == o.budget_slot
    &&& n.device_copies == o.device_copies
    &&& n.irq_masters == o.irq_masters
    &&& n.irq_copies == o.irq_copies
    &&& if !allowed || !within_budget {
        &&& outcome == PolicyOutcome::Stop { critical_failure: cfg.critical && failed_run }
        &&& n.status == (if failed_run { Status::Failed } else { Status::Terminated })
        &&& n.restart_times@ == times
        &&& n.restarts == o.restarts
    } else {
        &&& outcome == PolicyOutcome::Restart { backoff_ms: backoff_spec(cfg.backoff_ms, o.restarts) }
        &&& n.status == Status::Waiting
        &&& n.restart_times@ == times.push(now)
        &&& n.restarts == o.restarts + 1
    }
}

/// A restart never takes a service past its budget: after one, the window
/// holds at most `max_restarts` restarts, the new one included.
pub proof fn lemma_restart_budget(o: ServiceState, n: ServiceState, now: u64, graceful_exit: bool, crashed: bool, backoff_ms: u32)
    requires
        o.restart_times@.len() < u32::MAX,
        policy_applied(o, n, now, graceful_exit, crashed, PolicyOutcome::Restart { backoff_ms }),
    ensures
        n.restart_times@.len() <= o.cfg.max_restarts,
        n.restart_times@.last() == now,
        n.status == Status::Waiting,
{
    o.restart_times@.lemma_filter_len(recent(now, o.cfg.window_ms));
}

/// What each restart policy promises, with `recent` the restarts inside the
/// window at `now`: an `Always` service is restarted after every run, clean
/// or failed, while `recent` is under its budget; an `OnFailure` service is
/// restarted only after a failed run and a `Never` service never; and no
/// service is restarted once `recent` reaches the budget. A restart counts
/// one more restart and leaves the service waiting to start.
pub proof fn lemma_restart_policy(o: ServiceState, n: ServiceState, now: u64, graceful_exit: bool, crashed: bool, outcome: PolicyOutcome)
    requires
        o.restart_times@.len() < u32::MAX,
        policy_applied(o, n, now, graceful_exit, crashed, outcome),
    ensures
        ({
            let recent_count = o.restart_times@.filter(recent(now, o.cfg.window_ms)).len();
            let failed = crashed || !graceful_exit;
            &&& (o.cfg.restart == Restart::Always && recent_count < o.cfg.max_restarts) ==> outcome is Restart
            &&& (o.cfg.restart == Restart::OnFailure && failed && recent_count < o.cfg.max_restarts) ==> outcome is Restart
            &&& (o.cfg.restart == Restart::OnFailure && !failed) ==> outcome is Stop
            &&& o.cfg.restart == Restart::Never ==> outcome is Stop
            &&& recent_count >= o.cfg.max_restarts ==> outcome is Stop
            &&& outcome is Restart ==> n.status == Status::Waiting && n.restarts == o.restarts + 1
            &&& outcome is Stop ==> n.restarts == o.restarts && n.status == (if failed { Status::Failed } else { Status::Terminated })
        }),
{
    o.restart_times@.lemma_filter_len(recent(now, o.cfg.window_ms));
}

/// Apply the configured restart policy to a service that just terminated
/// at `now`. A run failed when it crashed or did not exit cleanly. Stamps
/// outside the window are dropped; a restart needs the policy to allow it
/// and fewer recent restarts than `max_restarts`. Without a restart a failed
/// run ends `Failed` and a clean one `Terminated`; with one, the service
/// counts the restart, stamps it and waits for its dependencies again.
pub fn apply_policy(service: &mut ServiceState, now: u64, graceful_exit: bool, crashed: bool) -> (outcome: PolicyOutcome)
    requires
        old(service).restarts < u32::MAX,
    ensures
        policy_applied(*old(service), *final(service), now, graceful_exit, crashed, outcome),
        (old(service).restart_times@.len() < u32::MAX && old(service).cfg.restart == Restart::Always
            && old(service).restart_times@.filter(recent(now, old(service).cfg.window_ms)).len()
            < old(service).cfg.max_restarts) ==> outcome is Restart,
        old(service).cfg.restart == Restart::Never ==> outcome is Stop,
{
    let failed_run = crashed || !graceful_exit;
    prune_restart_times(&mut service.restart_times, now, service.cfg.window_ms);
    let allowed = match service.cfg.restart {
        Restart::Never => false,
        Restart::OnFailure => failed_run,
        Restart::Always => true,
    };
    let within_budget = (service.restart_times.len() as u32) < service.cfg.max_restarts;
    if !allowed || !within_budget {
        service.status = if failed_run { Status::Failed } else { Status::Terminated };
        return PolicyOutcome::Stop { critical_failure: service.cfg.critical && failed_run };
    }
    let delay = backoff(service.cfg.backoff_ms, service.restarts);
    service.restarts = service.restarts + 1;
    service.restart_times.push(now);
    service.status = Status::Waiting;
    PolicyOutcome::Restart { backoff_ms: delay }
}

/// What `record_forced_restart` leaves behind: `o` became `n` at `now`.
pub open spec fn forced_restart(o: ServiceState, n: ServiceState, now: u64) -> bool {
    &&& n.cfg == o.cfg
    &&& n.svc_ep_obj == o.svc_ep_obj
    &&& n.budget_slot == o.budget_slot
    &&& n.device_copies == o.device_copies
    &&& n.irq_masters == o.irq_masters
    &&& n.irq_copies == o.irq_copies
    &&& n.restart_times@ == o.restart_times@.filter(recent(now, o.cfg.window_ms)).push(now)
    &&& n.restarts == o.restarts + 1
    &&& n.status == (if o.restarts + 1 > o.cfg.max_restarts { Status::Failed } else { Status::Waiting })
}

/// A dependent stopped because a service it uses was lost: the restart is
/// counted and stamped; beyond `max_restarts` the dependent fails,
/// otherwise it waits for its dependencies again.
pub fn record_forced_restart(service: &mut ServiceState, now: u64)
    requires
        old(service).restarts < u32::MAX,
    ensures
        forced_restart(*old(service), *final(service), now),
{
    prune_restart_times(&mut service.restart_times, now, service.cfg.window_ms);
    service.restarts = service.restarts + 1;
    service.restart_times.push(now);
    service.status = if service.restarts > service.cfg.max_restarts { Status::Failed } else { Status::Waiting };
}

/// Starting or running.
pub open spec fn is_live(status: Status) -> bool {
    status == Status::Starting || status == Status::Running
}

/// Starting or running: a dependent that must be stopped when a service it
/// uses is lost.
pub fn needs_stop(status: Status) -> (b: bool)
    ensures
        b == is_live(status),
{
    match status {
        Status::Starting | Status::Running => true,
        _ => false,
    }
}

/// `name` is among `depends`.
pub open spec fn depends_on(depends: Seq<String>, name: Seq<char>) -> bool {
    exists|k: int| 0 <= k < depends.len() && #[trigger] depends[k]@ == name
}

fn lists(depends: &Vec<String>, name: &String) -> (b: bool)
    ensures
        b == depends_on(depends@, name@),
{
    let mut k: usize = 0;
    while k < depends.len()
        invariant
            k <= depends@.len(),
            forall|j: int| 0 <= j < k ==> #[trigger] depends@[j]@ != name@,
        decreases depends@.len() - k,
    {
        if depends[k] == *name {
            return true;
        }
        k = k + 1;
    }
    false
}

/// The services other than `index` that depend on it, ascending.
pub fn dependents_of(services: &Vec<ServiceState>, index: usize) -> (found: Vec<usize>)
    requires
        index < services@.len(),
    ensures
        forall|k: int| 0 <= k < found@.len() ==> #[trigger] found@[k] < services@.len(),
        forall|j: int| 0 <= j < services@.len() ==> (found@.contains(j as usize) <==> j != index
            && depends_on(services@[j].cfg.depends@, services@[index as int].cfg.name@)),
        forall|a: int, b: int| 0 <= a < b < found@.len() ==> found@[a] < found@[b],
{
    let mut found: Vec<usize> = Vec::new();
    let mut j: usize = 0;
    while j < services.len()
        invariant
            j <= services@.len(),
            index < services@.len(),
            forall|k: int| 0 <= k < found@.len() ==> #[trigger] found@[k] < j,
            forall|i: int| 0 <= i < j ==> (found@.contains(i as usize) <==> i != index
                && depends_on(services@[i].cfg.depends@, services@[index as int].cfg.name@)),
            forall|a: int, b: int| 0 <= a < b < found@.len() ==> found@[a] < found@[b],
        decreases services@.len() - j,
    {
        if j != index && lists(&services[j].cfg.depends, &services[index].cfg.name) {
            found.push(j);
            proof {
                assert(found@.last() == j);
            }
        }
        proof {
            assert forall|i: int| 0 <= i < j + 1 implies (found@.contains(i as usize) <==> i != index
                && depends_on(services@[i].cfg.depends@, services@[index as int].cfg.name@)) by {
                if i < j && found@.contains(i as usize) {
                }
                if found@.contains(i as usize) && i == j {
                }
            }
        }
        j = j + 1;
    }
    found
}

/// Some service named `name` runs.
pub open spec fn running_named(services: Seq<ServiceState>, name: Seq<char>) -> bool {
    exists|s: int| 0 <= s < services.len() && #[trigger] services[s].cfg.name@ == name && services[s].status == Status::Running
}

/// Every dependency of the service at `index` names a running service.
pub open spec fn dependencies_running(services: Seq<ServiceState>, index: int) -> bool {
    forall|d: int|
        0 <= d < services[index].cfg.depends@.len() ==> #[trigger] running_named(services, services[index].cfg.depends@[d]@)
}

fn named_running(services: &Vec<ServiceState>, name: &String) -> (b: bool)
    ensures
        b == running_named(services@, name@),
{
    let mut s: usize = 0;
    while s < services.len()
        invariant
            s <= services@.len(),
            forall|i: int| 0 <= i < s ==> !(#[trigger] services@[i].cfg.name@ == name@ && services@[i].status == Status::Running),
        decreases services@.len() - s,
    {
        if services[s].cfg.name == *name && services[s].status == Status::Running {
            return true;
        }
        s = s + 1;
    }
    false
}

/// A waiting service whose dependencies all run is started next.
pub fn ready_to_start(services: &Vec<ServiceState>, index: usize) -> (b: bool)
    requires
        index < services@.len(),
    ensures
        b == (services@[index as int].status == Status::Waiting && dependencies_running(services@, index as int)),
{
    if services[index].status != Status::Waiting {
        return false;
    }
    let depends = &services[index].cfg.depends;
    let mut d: usize = 0;
    while d < depends.len()
        invariant
            d <= depends@.len(),
            index < services@.len(),
            depends@ == services@[index as int].cfg.depends@,
            services@[index as int].status == Status::Waiting,
            forall|e: int| 0 <= e < d ==> #[trigger] running_named(services@, services@[index as int].cfg.depends@[e]@),
        decreases depends@.len() - d,
    {
        if !named_running(services, &depends[d]) {
            return false;
        }
        d = d + 1;
    }
    true
}

/// Every service failed (and there is at least one): init gives up.
pub fn all_failed(services: &Vec<ServiceState>) -> (b: bool)
    ensures
        b == (services@.len() > 0 && forall|i: int| 0 <= i < services@.len() ==> #[trigger] services@[i].status == Status::Failed),
{
    let mut i: usize = 0;
    while i < services.len()
        invariant
            i <= services@.len(),
            forall|k: int| 0 <= k < i ==> #[trigger] services@[k].status == Status::Failed,
        decreases services@.len() - i,
    {
        if services[i].status != Status::Failed {
            return false;
        }
        i = i + 1;
    }
    services.len() > 0
}

} // verus!
