//! Properties of the scheduler that span several operations.
use vstd::prelude::*;
use crate::task::abi::{INVALID_ARGUMENT, NOT_FOUND, SYS_SLEEP, TASK_READY, TASK_SLEEPING, TASK_SUSPENDED, TASK_WAITING};
use crate::task::queue::{without, MAX_TASKS};
use crate::task::scheduler::{Invocation, invoke_spec, blank, destroy_spec, finished_tasks, is_terminal, lookup_spec, resume_spec, suspend_spec, Scheduler};

verus! {

/// Resuming a task that was just suspended succeeds and puts it back in the
/// state it left: a waiter keeps waiting, a sleeper keeps sleeping until its
/// deadline, and anything else becomes ready again at the tail of the ring.
pub proof fn lemma_resume_undoes_suspend(o: Scheduler, m: Scheduler, n: Scheduler, target: u64, now: u64, r2: Result<(), u64>)
    requires
        o.wf(),
        suspend_spec(o, m, target, Ok(())),
        resume_spec(m, n, target, now, r2),
    ensures
        r2 is Ok,
        lookup_spec(o.tasks(), target) matches Ok(slot) && {
            let from = o.tasks()[slot as int].state;
            let back = if from == TASK_WAITING {
                TASK_WAITING
            } else if from == TASK_SLEEPING && now < o.tasks()[slot as int].deadline {
                TASK_SLEEPING
            } else {
                TASK_READY
            };
            &&& n.tasks()[slot as int].state == back
            &&& n.ready_queue() == if back == TASK_READY {
                without(o.ready_queue(), slot).push(slot)
            } else {
                without(o.ready_queue(), slot)
            }
        },
{
    o.lemma_ready_iff_queued();
    let slot = lookup_spec(o.tasks(), target)->Ok_0;
    assert(m.tasks()[slot as int].state == TASK_SUSPENDED);
    assert(lookup_spec(m.tasks(), target) == lookup_spec(o.tasks(), target));
}

/// Once a task is destroyed its identity names nothing.
pub proof fn lemma_destroyed_identity_is_gone(o: Scheduler, n: Scheduler, target: u64)
    requires
        o.wf(),
        n.wf(),
        destroy_spec(o, n, target, Ok(())),
    ensures
        lookup_spec(n.tasks(), target) == Err::<usize, u64>(NOT_FOUND),
{
    o.lemma_ready_iff_queued();
    n.lemma_ready_iff_queued();
    let slot = lookup_spec(o.tasks(), target)->Ok_0;
    assert(slot < MAX_TASKS);
    if is_terminal(o.tasks()[slot as int].state) {
        let x = o.tasks().update(slot as int, blank());
        assert(n.tasks() == x);
        assert(x[slot as int] == blank());
    } else {
        let x = finished_tasks(o.tasks(), slot, false, u64::MAX).update(slot as int, blank());
        assert(n.tasks() == x);
        assert(x[slot as int] == blank());
    }
}

/// An operation refused for an unknown identity changes nothing.
pub proof fn lemma_unknown_identity_is_refused(o: Scheduler, n: Scheduler, target: u64, now: u64, r: Result<(), u64>)
    requires
        lookup_spec(o.tasks(), target) is Err,
        suspend_spec(o, n, target, r) || resume_spec(o, n, target, now, r) || destroy_spec(o, n, target, r),
    ensures
        r == Err::<(), u64>(NOT_FOUND),
        n.tasks() == o.tasks(),
        n.ready_queue() == o.ready_queue(),
{
}

/// A sleep of `ms` milliseconds made at counter value `now` on a
/// `frequency` Hz counter puts the caller to sleep until `now` plus `ms`
/// milliseconds' worth of ticks, `ms * frequency / 1000` rounded down: the
/// `ticks` slept satisfy `ticks * 1000 <= ms * frequency < (ticks + 1) * 1000`.
/// It is refused with `INVALID_ARGUMENT`, changing nothing, exactly when that
/// deadline does not fit the counter.
pub proof fn lemma_sleep_lasts_its_milliseconds(
    o: Scheduler,
    n: Scheduler,
    caller: usize,
    a: Seq<u64>,
    now: u64,
    frequency: u64,
    debug_console: bool,
    r: Invocation,
)
    requires
        a.len() >= 1,
        caller < o.tasks().len(),
        invoke_spec(o, n, caller, SYS_SLEEP, a, now, frequency, debug_console, r),
    ensures
        ({
            let ms = a[0] as int;
            let product = ms * frequency;
            let fits = product <= u64::MAX && now + product / 1000 <= u64::MAX;
            &&& fits ==> {
                let ticks = n.tasks()[caller as int].deadline - now;
                &&& r == Invocation::Complete(Ok(None))
                &&& n.tasks()[caller as int].state == TASK_SLEEPING
                &&& ticks * 1000 <= ms * frequency < (ticks + 1) * 1000
                &&& n.tasks().len() == o.tasks().len()
                &&& forall|s: int| 0 <= s < o.tasks().len() && s != caller ==> n.tasks()[s] == o.tasks()[s]
                &&& n.ready_queue() == o.ready_queue()
            }
            &&& !fits ==> r == Invocation::Complete(Err(INVALID_ARGUMENT)) && n.tasks() == o.tasks()
        }),
{
    let ms = a[0] as int;
    let product = ms * frequency;
    if product <= u64::MAX && now + product / 1000 <= u64::MAX {
        let ticks = n.tasks()[caller as int].deadline - now;
        assert(ticks == product / 1000);
        assert(ticks * 1000 <= product < (ticks + 1) * 1000) by (nonlinear_arith)
            requires ticks == product / 1000, product >= 0;
    }
}

} // verus!
