//! The capabilities a supervised service receives at spawn, in slot order:
//! control, console client, budget, ASID pool, own endpoint, then devices,
//! dependency endpoints and device IRQ handlers.
use vstd::prelude::*;
use crate::init::state::{
    CHILD_BUDGET, CHILD_CONSOLE, CHILD_CONTROL, CHILD_DEP_BASE, CHILD_DEV_BASE, CHILD_IRQ,
    CHILD_IRQ2, CHILD_SELF_EP, CONTROL_OBJ, MAX_DEPS, MAX_DEVICES, ServiceState, badge_for,
};

verus! {

/// One capability copied into the child's CSpace with full rights.
#[derive(Clone, Copy, PartialEq, Eq, Structural, Debug)]
pub struct ChildCap {
    pub slot: u64,
    pub source: u64,
    pub badge: u64,
}

/// The most capabilities one spawn can carry.
pub const MAX_CHILD_CAPS: usize = 16;

/// The slot of the ASID pool in every child.
pub const CHILD_ASID_POOL: u64 = 6;

pub open spec fn unbadged(slot: u64, source: u64) -> ChildCap {
    ChildCap { slot, source, badge: 0 }
}

pub open spec fn min_int(a: int, b: int) -> int {
    if a < b {
        a
    } else {
        b
    }
}

/// The lowest index of a service named `name`.
pub open spec fn first_named(services: Seq<ServiceState>, name: Seq<char>) -> Option<int> {
    if exists|s: int| 0 <= s < services.len() && #[trigger] services[s].cfg.name@ == name {
        Some(
            choose|s: int|
                0 <= s < services.len() && services[s].cfg.name@ == name && forall|t: int|
                    0 <= t < s ==> #[trigger] services[t].cfg.name@ != name,
        )
    } else {
        None
    }
}

/// The endpoint of the dependency `name`, 0 when no service has that name.
pub open spec fn dependency_source(services: Seq<ServiceState>, name: Seq<char>) -> u64 {
    match first_named(services, name) {
        Some(s) => services[s].svc_ep_obj,
        None => 0,
    }
}

/// (child slot, init-side source) of each device the child receives.
pub open spec fn device_pairs(svc: ServiceState) -> Seq<(u64, u64)> {
    Seq::new(
        min_int(svc.cfg.devices@.len() as int, MAX_DEVICES as int) as nat,
        |k: int| ((CHILD_DEV_BASE + k) as u64, svc.device_copies@[k]),
    )
}

/// (child slot, init-side source) of each dependency endpoint.
pub open spec fn dependency_pairs(services: Seq<ServiceState>, index: int) -> Seq<(u64, u64)> {
    let depends = services[index].cfg.depends@;
    Seq::new(
        min_int(depends.len() as int, MAX_DEPS as int) as nat,
        |j: int| ((CHILD_DEP_BASE + j) as u64, dependency_source(services, depends[j]@)),
    )
}

/// The IRQ handler copies, for each device that has a line.
pub open spec fn irq_grants(svc: ServiceState) -> Seq<ChildCap> {
    let first = if svc.irq_masters@[0] != 0 {
        seq![unbadged(CHILD_IRQ, svc.irq_copies@[0])]
    } else {
        Seq::empty()
    };
    if svc.irq_masters@[1] != 0 {
        first.push(unbadged(CHILD_IRQ2, svc.irq_copies@[1]))
    } else {
        first
    }
}

/// The fixed prefix every service receives.
pub open spec fn fixed_grants(svc: ServiceState, index: int, console_ep: u64, asid_pool: u64) -> Seq<ChildCap> {
    seq![
        ChildCap { slot: CHILD_CONTROL, source: CONTROL_OBJ, badge: (1 + index) as u64 },
        unbadged(CHILD_CONSOLE, console_ep),
        unbadged(CHILD_BUDGET, svc.budget_slot),
        unbadged(CHILD_ASID_POOL, asid_pool),
        unbadged(CHILD_SELF_EP, svc.svc_ep_obj),
    ]
}

fn find_named(services: &Vec<ServiceState>, name: &String) -> (r: Option<usize>)
    ensures
        match r {
            Some(s) => s < services@.len() && first_named(services@, name@) == Some(s as int),
            None => first_named(services@, name@) is None,
        },
{
    let mut s: usize = 0;
    while s < services.len()
        invariant
            s <= services@.len(),
            forall|t: int| 0 <= t < s ==> #[trigger] services@[t].cfg.name@ != name@,
        decreases services@.len() - s,
    {
        if services[s].cfg.name == *name {
            proof {
                let c = choose|c: int|
                    0 <= c < services@.len() && services@[c].cfg.name@ == name@ && forall|t: int|
                        0 <= t < c ==> #[trigger] services@[t].cfg.name@ != name@;
                if c < s {
                } else if c > s {
                    assert(services@[s as int].cfg.name@ != name@);
                }
            }
            return Some(s);
        }
        s = s + 1;
    }
    None
}

/// Each (slot, source) pair as an unbadged grant.
pub open spec fn pair_grants(pairs: Seq<(u64, u64)>) -> Seq<ChildCap> {
    Seq::new(pairs.len(), |k: int| unbadged(pairs[k].0, pairs[k].1))
}

/// Some pair has no source to copy from.
pub open spec fn missing_source(pairs: Seq<(u64, u64)>) -> bool {
    exists|k: int| 0 <= k < pairs.len() && (#[trigger] pairs[k]).1 == 0
}

/// The capabilities to hand the service at `index`, or `None` when a device
/// or dependency has no source to copy from.
#[verifier::rlimit(40)]
pub fn spawn_caps(services: &Vec<ServiceState>, index: usize, console_ep: u64, asid_pool: u64) -> (caps: Option<Vec<ChildCap>>)
    requires
        index < services@.len(),
    ensures
        ({
            let svc = services@[index as int];
            let devs = device_pairs(svc);
            let deps = dependency_pairs(services@, index as int);
            if missing_source(devs) || missing_source(deps) {
                caps is None
            } else {
                caps matches Some(c) && c@ == fixed_grants(svc, index as int, console_ep, asid_pool)
                    + pair_grants(devs) + pair_grants(deps) + irq_grants(svc)
            }
        }),
{
    let count = services.len();
    assert(index < usize::MAX);
    let svc = &services[index];
    let ghost devs = device_pairs(services@[index as int]);
    let ghost deps = dependency_pairs(services@, index as int);
    let mut caps: Vec<ChildCap> = Vec::new();
    caps.push(ChildCap { slot: CHILD_CONTROL, source: CONTROL_OBJ, badge: badge_for(index) });
    caps.push(ChildCap { slot: CHILD_CONSOLE, source: console_ep, badge: 0 });
    caps.push(ChildCap { slot: CHILD_BUDGET, source: svc.budget_slot, badge: 0 });
    caps.push(ChildCap { slot: CHILD_ASID_POOL, source: asid_pool, badge: 0 });
    caps.push(ChildCap { slot: CHILD_SELF_EP, source: svc.svc_ep_obj, badge: 0 });
    let ghost fixed = caps@;
    assert(fixed =~= fixed_grants(services@[index as int], index as int, console_ep, asid_pool));
    let devices = if svc.cfg.devices.len() < MAX_DEVICES { svc.cfg.devices.len() } else { MAX_DEVICES };
    let mut k: usize = 0;
    while k < devices
        invariant
            svc == &services@[index as int],
            devs == device_pairs(*svc),
            devices == devs.len(),
            k <= devices,
            forall|i: int| 0 <= i < k ==> (#[trigger] devs[i]).1 != 0,
            caps@ == fixed + pair_grants(devs.take(k as int)),
        decreases devices - k,
    {
        let source = svc.device_copies[k];
        if source == 0 {
            assert(devs[k as int].1 == 0);
            return None;
        }
        caps.push(ChildCap { slot: CHILD_DEV_BASE + k as u64, source, badge: 0 });
        assert(pair_grants(devs.take(k as int + 1)) =~= pair_grants(devs.take(k as int)).push(unbadged(devs[k as int].0, devs[k as int].1)));
        assert(caps@ =~= fixed + pair_grants(devs.take(k as int + 1)));
        k = k + 1;
    }
    assert(devs.take(devices as int) =~= devs);
    let ghost after_devices = caps@;
    let depends = if svc.cfg.depends.len() < MAX_DEPS { svc.cfg.depends.len() } else { MAX_DEPS };
    let mut j: usize = 0;
    while j < depends
        invariant
            svc == &services@[index as int],
            index < services@.len(),
            deps == dependency_pairs(services@, index as int),
            depends == deps.len(),
            j <= depends,
            forall|i: int| 0 <= i < j ==> (#[trigger] deps[i]).1 != 0,
            caps@ == after_devices + pair_grants(deps.take(j as int)),
        decreases depends - j,
    {
        let source = match find_named(services, &svc.cfg.depends[j]) {
            Some(s) => services[s].svc_ep_obj,
            None => 0,
        };
        assert(deps[j as int] == ((CHILD_DEP_BASE + j) as u64, source));
        if source == 0 {
            return None;
        }
        caps.push(ChildCap { slot: CHILD_DEP_BASE + j as u64, source, badge: 0 });
        assert(pair_grants(deps.take(j as int + 1)) =~= pair_grants(deps.take(j as int)).push(unbadged(deps[j as int].0, deps[j as int].1)));
        assert(caps@ =~= after_devices + pair_grants(deps.take(j as int + 1)));
        j = j + 1;
    }
    assert(deps.take(depends as int) =~= deps);
    let ghost middle = caps@;
    if svc.irq_masters[0] != 0 {
        caps.push(ChildCap { slot: CHILD_IRQ, source: svc.irq_copies[0], badge: 0 });
    }
    if svc.irq_masters[1] != 0 {
        caps.push(ChildCap { slot: CHILD_IRQ2, source: svc.irq_copies[1], badge: 0 });
    }
    assert(caps@ =~= middle + irq_grants(*svc));
    Some(caps)
}

} // verus!
