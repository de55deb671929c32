//! The task table: identities, lifecycle states and the ready ring.
//!
//! Scheduling decisions only; the saved register frames, kernel stacks and
//! address spaces of the tasks are held by the runtime beside this table,
//! indexed by slot.
use vstd::prelude::*;
use crate::task::abi::{
    OK, UNSUPPORTED, SYS_YIELD, SYS_DEBUG_PUTCHAR, SYS_TASK_ID, SYS_TASK_CREATE, SYS_SUSPEND_SELF,
    SYS_EXIT, SYS_SLEEP, SYS_CLOCK, SYS_MEMORY_AVAILABLE, SYS_TASK_START, SYS_TASK_STATUS,
    SYS_TASK_SUSPEND, SYS_TASK_RESUME, SYS_TASK_DESTROY, SYS_WAIT, SYS_MAP, SYS_UNMAP,
    SYS_PROTECT, SYS_WRITE_MEMORY, SYS_READ_MEMORY,
    INVALID_ARGUMENT, INVALID_STATE, NOT_FOUND, NO_MEMORY, BUSY, TASK_BLOCKED_FAULT,
    TASK_BLOCKED_RECV, TASK_BLOCKED_REPLY, TASK_BLOCKED_SEND, TASK_CREATED, TASK_EXITED,
    TASK_FAULTED, TASK_READY, TASK_RUNNING, TASK_SLEEPING, TASK_SUSPENDED, TASK_WAITING,
};
use crate::task::queue::{RunQueue, MAX_TASKS, without, other_than};

verus! {

broadcast use vstd::seq_lib::group_seq_properties;

/// What a task asked for when it returned to the scheduler.
pub enum Disposition {
    Resume,
    Sleep(u64),
    Wait(u64),
    Exit(u64),
    Fault(u64),
    Block,
}

/// A pending reply relationship.
#[derive(Clone, Copy)]
pub enum Caller {
    Call(u64),
    Fault(u64),
}

impl Caller {
    pub open spec fn id(self) -> u64 {
        match self {
            Caller::Call(id) => id,
            Caller::Fault(id) => id,
        }
    }

    /// The task waiting for the reply.
    pub fn task(self) -> (id: u64)
        ensures
            id == self.id(),
    {
        match self {
            Caller::Call(id) => id,
            Caller::Fault(id) => id,
        }
    }
}

/// Why a task is parked inside an IPC syscall.
#[derive(Clone, Copy)]
pub struct Blocked {
    pub ep: u64,
    pub badge: u64,
    pub call: bool,
    pub grant_reply: bool,
    pub fault: bool,
}

/// A fault message held for a queued fault sender.
#[derive(Clone, Copy)]
pub struct FaultMsg {
    pub label: u64,
    pub length: usize,
    pub mrs: [u64; 4],
}

/// One task-table entry.
#[derive(Clone, Copy)]
pub struct Task {
    pub state: u64,
    pub root: usize,
    pub cspace: Option<u64>,
    pub vspace: Option<u64>,
    pub ipc_buffer: usize,
    pub completion: Option<u64>,
    pub id: u64,
    pub parent: u64,
    pub deadline: u64,
    pub wait_for: u64,
    pub result: u64,
    pub started: bool,
    pub suspended_from: u64,
    pub fault_ep: u64,
    pub blocked: Option<Blocked>,
    pub caller: Option<Caller>,
    pub restart_pc: u64,
    pub fault_msg: Option<FaultMsg>,
}

/// The unused table entry.
pub open spec fn blank() -> Task {
    Task {
        state: TASK_CREATED,
        root: 0,
        cspace: None,
        vspace: None,
        ipc_buffer: 0,
        completion: None,
        id: 0,
        parent: 0,
        deadline: 0,
        wait_for: 0,
        result: 0,
        started: false,
        suspended_from: TASK_CREATED,
        fault_ep: 0,
        blocked: None,
        caller: None,
        restart_pc: 0,
        fault_msg: None,
    }
}

pub open spec fn is_terminal(state: u64) -> bool {
    state == TASK_EXITED || state == TASK_FAULTED
}

pub open spec fn with_state(t: Task, state: u64) -> Task {
    Task { state, ..t }
}

impl Task {
    pub fn empty() -> (t: Task)
        ensures
            t == blank(),
    {
        Task {
            state: TASK_CREATED,
            root: 0,
            cspace: None,
            vspace: None,
            ipc_buffer: 0,
            completion: None,
            id: 0,
            parent: 0,
            deadline: 0,
            wait_for: 0,
            result: 0,
            started: false,
            suspended_from: TASK_CREATED,
            fault_ep: 0,
            blocked: None,
            caller: None,
            restart_pc: 0,
            fault_msg: None,
        }
    }

    /// Exited or faulted.
    pub fn terminal(&self) -> (b: bool)
        ensures
            b == is_terminal(self.state),
    {
        self.state == TASK_EXITED || self.state == TASK_FAULTED
    }

    /// Blocked on a wait queue of an endpoint or notification.
    pub fn queued(&self) -> (b: bool)
        ensures
            b == (self.state == TASK_BLOCKED_SEND || self.state == TASK_BLOCKED_RECV),
    {
        self.state == TASK_BLOCKED_SEND || self.state == TASK_BLOCKED_RECV
    }
}

/// The slots `i < n` with `p(i)`, ascending.
pub open spec fn slots_where(p: spec_fn(int) -> bool, n: nat) -> Seq<usize>
    decreases n,
{
    if n == 0 {
        Seq::empty()
    } else {
        let rest = slots_where(p, (n - 1) as nat);
        if p(n - 1) {
            rest.push((n - 1) as usize)
        } else {
            rest
        }
    }
}

/// The task table with one task's state changed.
pub open spec fn table_with_state(ts: Seq<Task>, slot: int, state: u64) -> Seq<Task> {
    ts.update(slot, with_state(ts[slot], state))
}

/// The first slot whose identity is 0.
pub open spec fn first_free(ts: Seq<Task>) -> Option<usize> {
    if exists|s: int| 0 <= s < MAX_TASKS && #[trigger] ts[s].id == 0 {
        Some(
            (choose|s: int|
                0 <= s < MAX_TASKS && ts[s].id == 0 && forall|j: int| 0 <= j < s ==> #[trigger] ts[j].id
                    != 0) as usize,
        )
    } else {
        None
    }
}

proof fn lemma_first_free(ts: Seq<Task>, s: int)
    requires
        0 <= s < MAX_TASKS,
        ts[s].id == 0,
        forall|j: int| 0 <= j < s ==> #[trigger] ts[j].id != 0,
    ensures
        first_free(ts) == Some(s as usize),
{
    let c = choose|c: int|
        0 <= c < MAX_TASKS && ts[c].id == 0 && forall|j: int| 0 <= j < c ==> #[trigger] ts[j].id != 0;
    assert(c == s) by {
        if c < s {
            assert(ts[c].id != 0);
        } else if c > s {
            assert(ts[s].id != 0);
        }
    }
}

proof fn lemma_first_free_none(ts: Seq<Task>)
    requires
        forall|j: int| 0 <= j < MAX_TASKS ==> #[trigger] ts[j].id != 0,
    ensures
        first_free(ts) is None,
{
}

/// Where `id` lives in the table, or `NOT_FOUND`.
pub open spec fn lookup_spec(ts: Seq<Task>, id: u64) -> Result<usize, u64> {
    if id != 0 && ts[(id % (MAX_TASKS as u64)) as int].id == id {
        Ok((id % (MAX_TASKS as u64)) as usize)
    } else {
        Err(NOT_FOUND)
    }
}

/// `caller` may edit `target`: itself, or a task that is created or suspended.
pub open spec fn editable_spec(ts: Seq<Task>, caller: usize, target: usize) -> bool {
    target == caller || ts[target as int].state == TASK_CREATED || ts[target as int].state
        == TASK_SUSPENDED
}

/// Two schedulers hold the same table, ring, current task and generation.
pub open spec fn same_tables(a: Scheduler, b: Scheduler) -> bool {
    &&& a.tasks() == b.tasks()
    &&& a.ready_queue() == b.ready_queue()
    &&& a.current() == b.current()
    &&& a.generation() == b.generation()
}

/// A task after it exited (`fault` false) or faulted with `result`.
pub open spec fn marked_finished(t: Task, fault: bool, result: u64) -> Task {
    Task {
        state: if fault {
            TASK_FAULTED
        } else {
            TASK_EXITED
        },
        result,
        root: 0,
        vspace: None,
        caller: None,
        blocked: None,
        ..t
    }
}

/// Orphans are adopted by the root task (slot 0) while it lives, else by nobody (0).
pub open spec fn adoptive_parent(ts: Seq<Task>) -> u64 {
    if is_terminal(ts[0].state) {
        0
    } else {
        ts[0].id
    }
}

/// Every child of `id` gets `root_id` as its parent.
pub open spec fn reparented(ts: Seq<Task>, id: u64, root_id: u64) -> Seq<Task> {
    Seq::new(
        ts.len(),
        |i: int|
            if ts[i].parent == id {
                Task { parent: root_id, ..ts[i] }
            } else {
                ts[i]
            },
    )
}

/// Blocked on a reply or a fault handler, possibly suspended there.
pub open spec fn waits_for_reply(t: Task) -> bool {
    t.state == TASK_BLOCKED_REPLY || t.state == TASK_BLOCKED_FAULT || (t.state == TASK_SUSPENDED && (
    t.suspended_from == TASK_BLOCKED_REPLY || t.suspended_from == TASK_BLOCKED_FAULT))
}

/// The live partner that waits for the finished task's reply.
pub open spec fn reply_target(ts: Seq<Task>, caller: Option<Caller>) -> Option<usize> {
    match caller {
        Some(c) => match lookup_spec(ts, c.id()) {
            Ok(k) => if waits_for_reply(ts[k as int]) {
                Some(k)
            } else {
                None
            },
            Err(_) => None,
        },
        None => None,
    }
}

/// The reply partner, if any, is made ready with a failed completion (0).
pub open spec fn reply_woken(ts: Seq<Task>, target: Option<usize>) -> Seq<Task> {
    match target {
        Some(k) => ts.update(k as int, Task { completion: Some(0), state: TASK_READY, ..ts[k as int] }),
        None => ts,
    }
}

/// Waiting for the exit of `id`, possibly suspended in that wait.
pub open spec fn waits_for_exit(t: Task, id: u64) -> bool {
    (t.state == TASK_WAITING || (t.state == TASK_SUSPENDED && t.suspended_from == TASK_WAITING))
        && t.wait_for == id
}

/// A waiter of `id` receives `result`; a suspended one will be ready on resume.
pub open spec fn exit_woken_task(t: Task, id: u64, result: u64) -> Task {
    if waits_for_exit(t, id) {
        if t.state == TASK_SUSPENDED {
            Task { completion: Some(result), wait_for: 0, suspended_from: TASK_READY, ..t }
        } else {
            Task { completion: Some(result), wait_for: 0, state: TASK_READY, ..t }
        }
    } else {
        t
    }
}

pub open spec fn exit_woken(ts: Seq<Task>, id: u64, result: u64) -> Seq<Task> {
    Seq::new(ts.len(), |i: int| exit_woken_task(ts[i], id, result))
}

/// The waiters of `id` that become ready, in slot order.
pub open spec fn exit_woken_slots(ts: Seq<Task>, id: u64) -> Seq<usize> {
    slots_where(|i: int| ts[i].state == TASK_WAITING && ts[i].wait_for == id, ts.len())
}

/// The table after marking `slot` finished and adopting its children.
pub open spec fn finish_adopted(ts: Seq<Task>, slot: usize, fault: bool, result: u64) -> Seq<Task> {
    let marked = ts.update(slot as int, marked_finished(ts[slot as int], fault, result));
    reparented(marked, ts[slot as int].id, adoptive_parent(marked))
}

/// The reply partner woken by finishing `slot`.
pub open spec fn finish_reply_target(ts: Seq<Task>, slot: usize, fault: bool, result: u64) -> Option<usize> {
    reply_target(finish_adopted(ts, slot, fault, result), ts[slot as int].caller)
}

/// The table after finishing the task in `slot`: it exits or faults with
/// `result`, its children are adopted, a reply partner fails its call and
/// every waiter of the task receives `result`.
pub open spec fn finished_tasks(ts: Seq<Task>, slot: usize, fault: bool, result: u64) -> Seq<Task> {
    let adopted = finish_adopted(ts, slot, fault, result);
    let woken = reply_woken(adopted, finish_reply_target(ts, slot, fault, result));
    exit_woken(woken, ts[slot as int].id, result)
}

/// The ring after finishing `slot`: it leaves the ring; the reply partner and
/// then the waiters (in slot order) join at the tail.
pub open spec fn finished_queue(ts: Seq<Task>, q: Seq<usize>, slot: usize, fault: bool, result: u64) -> Seq<usize> {
    let adopted = finish_adopted(ts, slot, fault, result);
    let target = finish_reply_target(ts, slot, fault, result);
    let woken = reply_woken(adopted, target);
    let first = match target {
        Some(k) => without(q, slot).push(k),
        None => without(q, slot),
    };
    first + exit_woken_slots(woken, ts[slot as int].id)
}

/// The slot and identity `create` hands out next, if any.
pub open spec fn next_identity(ts: Seq<Task>, generation: u64) -> Option<(usize, u64)> {
    match first_free(ts) {
        None => None,
        Some(slot) => {
            let id = generation as int * MAX_TASKS + slot;
            if id > u64::MAX || generation == u64::MAX {
                None
            } else {
                Some((slot, id as u64))
            }
        },
    }
}

/// Terminated tasks nobody will wait for (parent 0) are cleared; the root
/// task's slot is kept.
pub open spec fn reaped(ts: Seq<Task>) -> Seq<Task> {
    Seq::new(
        ts.len(),
        |i: int|
            if 1 <= i && ts[i].parent == 0 && is_terminal(ts[i].state) {
                blank()
            } else {
                ts[i]
            },
    )
}

/// A sleeper whose deadline has come.
pub open spec fn sleep_due(t: Task, now: u64) -> bool {
    t.state == TASK_SLEEPING && now >= t.deadline
}

/// Due sleepers become ready.
pub open spec fn sleepers_woken(ts: Seq<Task>, now: u64) -> Seq<Task> {
    Seq::new(
        ts.len(),
        |i: int|
            if sleep_due(ts[i], now) {
                with_state(ts[i], TASK_READY)
            } else {
                ts[i]
            },
    )
}

/// The due sleepers, in slot order.
pub open spec fn due_slots(ts: Seq<Task>, now: u64) -> Seq<usize> {
    slots_where(|i: int| sleep_due(ts[i], now), ts.len())
}

/// What the runtime must do to complete a syscall the table cannot finish alone.
pub enum Invocation {
    /// The syscall is complete with this result.
    Complete(Result<Option<u64>, u64>),
    /// Write this byte to the debug console; the result is `Ok(None)`.
    Putchar(u8),
    /// Report the number of free frames.
    MemoryAvailable,
    /// Build an address space, then `create` a task whose parent is the caller.
    CreateTask,
    /// Check the entry against the slot's space, then `Scheduler::stack_bottom`
    /// of the stack, then the first frame against the space, then
    /// `commit_start`.
    StartTask { slot: usize },
    /// Map, unmap or protect in the slot's space.
    EditSpace { slot: usize },
    /// Copy `length` bytes from the source slot's space into the destination's.
    CopyMemory { source: usize, destination: usize, length: usize },
}

/// Largest copy between address spaces.
pub const MAX_COPY: usize = 4096;

/// What `suspend` does: a started, live, unsuspended task is suspended and
/// leaves the ring; otherwise nothing changes.
pub open spec fn suspend_spec(o: Scheduler, n: Scheduler, target: u64, r: Result<(), u64>) -> bool {
    match lookup_spec(o.tasks(), target) {
        Err(e) => r == Err::<(), u64>(e) && same_tables(o, n),
        Ok(slot) => {
            let t = o.tasks()[slot as int];
            if !t.started || is_terminal(t.state) || t.state == TASK_SUSPENDED {
                r == Err::<(), u64>(INVALID_STATE) && same_tables(o, n)
            } else {
                &&& r == Ok::<(), u64>(())
                &&& n.tasks() == o.tasks().update(
                    slot as int,
                    Task { suspended_from: t.state, state: TASK_SUSPENDED, ..t },
                )
                &&& n.ready_queue() == without(o.ready_queue(), slot)
            }
        },
    }
}

/// What `resume` does at time `now`.
pub open spec fn resume_spec(o: Scheduler, n: Scheduler, target: u64, now: u64, r: Result<(), u64>) -> bool {
    match lookup_spec(o.tasks(), target) {
        Err(e) => r == Err::<(), u64>(e) && same_tables(o, n),
        Ok(slot) => {
            let t = o.tasks()[slot as int];
            if t.state != TASK_SUSPENDED {
                r == Err::<(), u64>(INVALID_STATE) && same_tables(o, n)
            } else if t.suspended_from == TASK_WAITING {
                &&& r == Ok::<(), u64>(())
                &&& n.tasks() == table_with_state(o.tasks(), slot as int, TASK_WAITING)
                &&& n.ready_queue() == o.ready_queue()
            } else if t.suspended_from == TASK_SLEEPING && now < t.deadline {
                &&& r == Ok::<(), u64>(())
                &&& n.tasks() == table_with_state(o.tasks(), slot as int, TASK_SLEEPING)
                &&& n.ready_queue() == o.ready_queue()
            } else {
                &&& r == Ok::<(), u64>(())
                &&& n.tasks() == table_with_state(o.tasks(), slot as int, TASK_READY)
                &&& n.ready_queue() == o.ready_queue().push(slot)
            }
        },
    }
}

/// What `destroy` does when the current task asks.
pub open spec fn destroy_spec(o: Scheduler, n: Scheduler, target: u64, r: Result<(), u64>) -> bool {
    match lookup_spec(o.tasks(), target) {
        Err(e) => r == Err::<(), u64>(e) && same_tables(o, n),
        Ok(slot) => if slot == o.current()->0 {
            r == Err::<(), u64>(INVALID_ARGUMENT) && same_tables(o, n)
        } else if is_terminal(o.tasks()[slot as int].state) {
            &&& r == Ok::<(), u64>(())
            &&& n.tasks() == o.tasks().update(slot as int, blank())
            &&& n.ready_queue() == o.ready_queue()
        } else {
            &&& r == Ok::<(), u64>(())
            &&& n.tasks() == finished_tasks(o.tasks(), slot, false, u64::MAX).update(slot as int, blank())
            &&& n.ready_queue() == finished_queue(o.tasks(), o.ready_queue(), slot, false, u64::MAX)
        },
    }
}

/// The deadline of a sleep of `ms` milliseconds at `now`, if nothing overflows.
pub open spec fn sleep_deadline(ms: u64, now: u64, frequency: u64) -> Option<u64> {
    if ms as int * frequency as int > u64::MAX {
        None
    } else {
        let duration = (ms as int * frequency as int) / 1000;
        if now as int + duration > u64::MAX {
            None
        } else {
            Some((now as int + duration) as u64)
        }
    }
}

/// Milliseconds since boot at counter value `now`.
pub open spec fn clock_ms(now: u64, frequency: u64) -> u64 {
    let per_ms = if frequency / 1000 >= 1 { frequency / 1000 } else { 1 };
    now / per_ms
}

/// The outcome of syscall `number` with arguments `a`, made by the running
/// task `caller` at counter value `now`.
pub open spec fn invoke_spec(
    o: Scheduler,
    n: Scheduler,
    caller: usize,
    number: u64,
    a: Seq<u64>,
    now: u64,
    frequency: u64,
    debug_console: bool,
    r: Invocation,
) -> bool {
    let ts = o.tasks();
    let q = o.ready_queue();
    if number == SYS_YIELD {
        r == Invocation::Complete(Ok(None)) && same_tables(o, n)
    } else if number == SYS_DEBUG_PUTCHAR {
        same_tables(o, n) && r == (if a[0] > 255 {
            Invocation::Complete(Err(INVALID_ARGUMENT))
        } else if !debug_console {
            Invocation::Complete(Err(UNSUPPORTED))
        } else {
            Invocation::Putchar(a[0] as u8)
        })
    } else if number == SYS_TASK_ID {
        r == Invocation::Complete(Ok(Some(ts[caller as int].id))) && same_tables(o, n)
    } else if number == SYS_TASK_CREATE {
        r == Invocation::CreateTask && same_tables(o, n)
    } else if number == SYS_SUSPEND_SELF {
        &&& r == Invocation::Complete(Ok(None))
        &&& n.tasks() == ts.update(
            caller as int,
            Task { suspended_from: TASK_RUNNING, state: TASK_SUSPENDED, ..ts[caller as int] },
        )
        &&& n.ready_queue() == q
    } else if number == SYS_EXIT {
        &&& r == Invocation::Complete(Ok(None))
        &&& n.tasks() == finished_tasks(ts, caller, false, a[0])
        &&& n.ready_queue() == finished_queue(ts, q, caller, false, a[0])
    } else if number == SYS_SLEEP {
        match sleep_deadline(a[0], now, frequency) {
            None => r == Invocation::Complete(Err(INVALID_ARGUMENT)) && same_tables(o, n),
            Some(deadline) => {
                &&& r == Invocation::Complete(Ok(None))
                &&& n.tasks() == ts.update(
                    caller as int,
                    Task { deadline, state: TASK_SLEEPING, ..ts[caller as int] },
                )
                &&& n.ready_queue() == q
            },
        }
    } else if number == SYS_CLOCK {
        r == Invocation::Complete(Ok(Some(clock_ms(now, frequency)))) && same_tables(o, n)
    } else if number == SYS_MEMORY_AVAILABLE {
        r == Invocation::MemoryAvailable && same_tables(o, n)
    } else if number == SYS_TASK_START {
        same_tables(o, n) && r == (match check_start_spec(ts, a[0], a[1], a[2]) {
            Ok(slot) => Invocation::StartTask { slot },
            Err(e) => Invocation::Complete(Err(e)),
        })
    } else if number == SYS_TASK_STATUS {
        same_tables(o, n) && r == Invocation::Complete(
            match lookup_spec(ts, a[0]) {
                Ok(slot) => Ok(Some(ts[slot as int].state)),
                Err(e) => Err(e),
            },
        )
    } else if number == SYS_TASK_SUSPEND {
        exists|res: Result<(), u64>|
            suspend_spec(o, n, a[0], res) && r == Invocation::Complete(
                match res {
                    Ok(_) => Ok(None),
                    Err(e) => Err(e),
                },
            )
    } else if number == SYS_TASK_RESUME {
        exists|res: Result<(), u64>|
            resume_spec(o, n, a[0], now, res) && r == Invocation::Complete(
                match res {
                    Ok(_) => Ok(None),
                    Err(e) => Err(e),
                },
            )
    } else if number == SYS_TASK_DESTROY {
        exists|res: Result<(), u64>|
            destroy_spec(o, n, a[0], res) && r == Invocation::Complete(
                match res {
                    Ok(_) => Ok(None),
                    Err(e) => Err(e),
                },
            )
    } else if number == SYS_WAIT {
        match lookup_spec(ts, a[0]) {
            Err(e) => r == Invocation::Complete(Err(e)) && same_tables(o, n),
            Ok(slot) => if slot == caller {
                r == Invocation::Complete(Err(INVALID_ARGUMENT)) && same_tables(o, n)
            } else if is_terminal(ts[slot as int].state) {
                r == Invocation::Complete(Ok(Some(ts[slot as int].result))) && same_tables(o, n)
            } else {
                &&& r == Invocation::Complete(Ok(None))
                &&& n.tasks() == ts.update(
                    caller as int,
                    Task { state: TASK_WAITING, wait_for: a[0], ..ts[caller as int] },
                )
                &&& n.ready_queue() == q
            },
        }
    } else if number == SYS_MAP || number == SYS_UNMAP || number == SYS_PROTECT {
        same_tables(o, n) && r == (match lookup_spec(ts, a[0]) {
            Err(e) => Invocation::Complete(Err(e)),
            Ok(slot) => if !editable_spec(ts, caller, slot) {
                Invocation::Complete(Err(BUSY))
            } else if ts[slot as int].vspace is None {
                Invocation::Complete(Err(INVALID_STATE))
            } else {
                Invocation::EditSpace { slot }
            },
        })
    } else if number == SYS_WRITE_MEMORY || number == SYS_READ_MEMORY {
        same_tables(o, n) && r == (match lookup_spec(ts, a[0]) {
            Err(e) => Invocation::Complete(Err(e)),
            Ok(slot) => if !editable_spec(ts, caller, slot) {
                Invocation::Complete(Err(BUSY))
            } else if a[3] > MAX_COPY {
                Invocation::Complete(Err(INVALID_ARGUMENT))
            } else if number == SYS_WRITE_MEMORY {
                Invocation::CopyMemory { source: caller, destination: slot, length: a[3] as usize }
            } else {
                Invocation::CopyMemory { source: slot, destination: caller, length: a[3] as usize }
            },
        })
    } else {
        r == Invocation::Complete(Err(UNSUPPORTED)) && same_tables(o, n)
    }
}

/// The checks `check_start` makes.
pub open spec fn check_start_spec(ts: Seq<Task>, target: u64, entry: u64, stack: u64) -> Result<usize, u64> {
    match lookup_spec(ts, target) {
        Err(e) => Err(e),
        Ok(slot) => if ts[slot as int].state != TASK_CREATED {
            Err(INVALID_STATE)
        } else if entry % 4 != 0 || stack % 16 != 0 {
            Err(INVALID_ARGUMENT)
        } else if ts[slot as int].vspace is None {
            Err(INVALID_STATE)
        } else {
            Ok(slot)
        },
    }
}

/// The two result registers after a syscall: `x0` carries `OK` or the error
/// code, `x1` the value when there is one and otherwise keeps `x1`.
pub open spec fn syscall_registers(result: Result<Option<u64>, u64>, x1: u64) -> (u64, u64) {
    match result {
        Ok(Some(v)) => (OK, v),
        Ok(None) => (OK, x1),
        Err(code) => (code, x1),
    }
}

pub struct Scheduler {
    tasks: Vec<Task>,
    current: Option<usize>,
    queue: RunQueue,
    generation: u64,
}

/// A distinct sequence of slots that misses one slot is shorter than the table.
proof fn lemma_queue_has_room(q: Seq<usize>, missing: usize)
    requires
        q.no_duplicates(),
        forall|k: int| 0 <= k < q.len() ==> q[k] < MAX_TASKS,
        !q.contains(missing),
        missing < MAX_TASKS,
    ensures
        q.len() < MAX_TASKS,
{
    let f = |x: usize| x as int;
    let qi = q.map_values(f);
    assert(vstd::relations::injective(f));
    q.lemma_no_duplicates_injective(f);
    qi.unique_seq_to_set();
    let range = vstd::set_lib::set_int_range(0, MAX_TASKS as int).remove(missing as int);
    vstd::set_lib::lemma_int_range(0, MAX_TASKS as int);
    assert forall|x: int| qi.to_set().contains(x) implies range.contains(x) by {
        let k = choose|k: int| 0 <= k < qi.len() && qi[k] == x;
        assert(q[k] as int == x);
    }
    vstd::set_lib::lemma_len_subset(qi.to_set(), range);
}

/// Filtering keeps distinctness and exactly the other entries.
proof fn lemma_without(s: Seq<usize>, t: usize)
    ensures
        forall|x: usize| without(s, t).contains(x) <==> s.contains(x) && x != t,
        s.no_duplicates() ==> without(s, t).no_duplicates(),
        without(s, t).len() <= s.len(),
    decreases s.len(),
{
    broadcast use vstd::seq_lib::group_filter_ensures;
    reveal(Seq::filter);
    if s.len() > 0 {
        let init = s.drop_last();
        lemma_without(init, t);
        assert(s =~= init.push(s.last()));
        init.lemma_filter_push(s.last(), other_than(t));
        assert forall|x: usize| without(s, t).contains(x) implies s.contains(x) && x != t by {
            if x == s.last() {
            } else {
                assert(without(init, t).contains(x));
            }
        }
        assert forall|x: usize| s.contains(x) && x != t implies without(s, t).contains(x) by {
            if x == s.last() {
                assert(without(s, t)[without(s, t).len() - 1] == x);
            } else {
                let k = choose|k: int| 0 <= k < s.len() && s[k] == x;
                assert(init[k] == x);
                assert(without(init, t).contains(x));
                let j = choose|j: int| 0 <= j < without(init, t).len() && without(init, t)[j] == x;
                assert(without(s, t)[j] == x);
            }
        }
        if s.no_duplicates() {
            assert(init.no_duplicates());
            assert(!init.contains(s.last()));
        }
    }
}

impl Scheduler {
    pub closed spec fn tasks(&self) -> Seq<Task> {
        self.tasks@
    }

    pub closed spec fn ready_queue(&self) -> Seq<usize> {
        self.queue@
    }

    pub closed spec fn current(&self) -> Option<usize> {
        self.current
    }

    pub closed spec fn generation(&self) -> u64 {
        self.generation
    }

    /// The table invariant: the ring holds exactly the ready tasks, once each;
    /// identities name their slot and are below the next generation.
    pub closed spec fn wf(&self) -> bool {
        &&& self.tasks@.len() == MAX_TASKS
        &&& self.queue.wf()
        &&& self.generation >= 1
        &&& self.queue@.no_duplicates()
        &&& forall|k: int|
            0 <= k < self.queue@.len() ==> #[trigger] self.queue@[k] < MAX_TASKS
                && self.tasks@[self.queue@[k] as int].state == TASK_READY
        &&& forall|s: int|
            0 <= s < MAX_TASKS && #[trigger] self.tasks@[s].state == TASK_READY
                ==> self.queue@.contains(s as usize)
        &&& forall|s: int|
            0 <= s < MAX_TASKS && #[trigger] self.tasks@[s].id == 0 ==> self.tasks@[s].state
                == TASK_CREATED
        &&& forall|s: int|
            0 <= s < MAX_TASKS && #[trigger] self.tasks@[s].id != 0 ==> self.tasks@[s].id
                % (MAX_TASKS as u64) == s && self.tasks@[s].id < self.generation as int
                * MAX_TASKS
        &&& self.current matches Some(c) ==> c < MAX_TASKS && self.tasks@[c as int].id != 0
    }

    /// The ready ring holds each ready task exactly once and nothing else.
    pub proof fn lemma_ready_iff_queued(&self)
        requires
            self.wf(),
        ensures
            self.tasks().len() == MAX_TASKS,
            self.ready_queue().no_duplicates(),
            forall|s: usize|
                s < MAX_TASKS ==> (self.tasks()[s as int].state == TASK_READY
                    <==> self.ready_queue().contains(s)),
            forall|x: usize| self.ready_queue().contains(x) ==> x < MAX_TASKS,
    {
        assert forall|s: usize| s < MAX_TASKS implies (self.tasks()[s as int].state == TASK_READY
            <==> self.ready_queue().contains(s)) by {
            if self.ready_queue().contains(s) {
                let k = choose|k: int| 0 <= k < self.queue@.len() && self.queue@[k] == s;
                assert(self.queue@[k] < MAX_TASKS);
            }
            if self.tasks@[s as int].state == TASK_READY {
                assert(self.queue@.contains(s as usize));
            }
        }
        assert forall|x: usize| self.ready_queue().contains(x) implies x < MAX_TASKS by {
            let k = choose|k: int| 0 <= k < self.queue@.len() && self.queue@[k] == x;
            assert(self.queue@[k] < MAX_TASKS);
        }
    }

    /// Identities are unique and name their slot; the current task, if any,
    /// is a slot of the table with an identity.
    pub proof fn lemma_ids_name_slots(&self)
        requires
            self.wf(),
        ensures
            self.tasks().len() == MAX_TASKS,
            self.current() matches Some(c) ==> c < MAX_TASKS && self.tasks()[c as int].id != 0,
            forall|s: int|
                0 <= s < MAX_TASKS && #[trigger] self.tasks()[s].id != 0 ==> self.tasks()[s].id
                    % (MAX_TASKS as u64) == s,
            forall|a: int, b: int|
                0 <= a < MAX_TASKS && 0 <= b < MAX_TASKS && a != b && self.tasks()[a].id != 0
                    ==> #[trigger] self.tasks()[a].id != #[trigger] self.tasks()[b].id,
    {
    }

    /// An empty table; the first identity generation is 1.
    pub fn new() -> (s: Self)
        ensures
            s.wf(),
            s.tasks() == Seq::new(MAX_TASKS as nat, |i: int| blank()),
            s.ready_queue() == Seq::<usize>::empty(),
            s.current() is None,
            s.generation() == 1,
    {
        let mut tasks: Vec<Task> = Vec::new();
        let mut i: usize = 0;
        while i < MAX_TASKS
            invariant
                i <= MAX_TASKS,
                tasks@ == Seq::new(i as nat, |j: int| blank()),
            decreases MAX_TASKS - i,
        {
            tasks.push(Task::empty());
            i = i + 1;
            assert(tasks@ =~= Seq::new(i as nat, |j: int| blank()));
        }
        Scheduler { tasks, current: None, queue: RunQueue::new(), generation: 1 }
    }

    /// The result registers (`x0`, `x1`) after a syscall returned `result`.
    pub fn syscall_return(result: Result<Option<u64>, u64>, x1: u64) -> (regs: (u64, u64))
        ensures
            regs == syscall_registers(result, x1),
    {
        match result {
            Ok(Some(v)) => (OK, v),
            Ok(None) => (OK, x1),
            Err(code) => (code, x1),
        }
    }

    pub fn current_slot(&self) -> (slot: Option<usize>)
        ensures
            slot == self.current(),
    {
        self.current
    }

    /// Identity of the current task; boot and idle have none.
    pub fn current_id(&self) -> (id: Option<u64>)
        requires
            self.wf(),
        ensures
            id == (match self.current() {
                Some(c) => Some(self.tasks()[c as int].id),
                None => None,
            }),
    {
        match self.current {
            Some(slot) => Some(self.tasks[slot].id),
            None => None,
        }
    }

    /// Translation root and IPC buffer of the current task.
    pub fn current_root(&self) -> (r: (usize, usize))
        requires
            self.wf(),
            self.current() is Some,
        ensures
            r == (self.tasks()[self.current()->0 as int].root, self.tasks()[self.current()->0 as int].ipc_buffer),
    {
        let slot = self.current.unwrap();
        (self.tasks[slot].root, self.tasks[slot].ipc_buffer)
    }

    /// State of the root task (slot 0).
    pub fn root_state(&self) -> (state: u64)
        requires
            self.wf(),
        ensures
            state == self.tasks()[0].state,
    {
        self.tasks[0].state
    }

    /// The slot of a live identity.
    pub fn lookup(&self, id: u64) -> (r: Result<usize, u64>)
        requires
            self.wf(),
        ensures
            r == lookup_spec(self.tasks(), id),
    {
        let index = (id % (MAX_TASKS as u64)) as usize;
        if id == 0 || self.tasks[index].id != id {
            return Err(NOT_FOUND);
        }
        Ok(index)
    }

    /// Make a task ready and queue it at the tail.
    fn ready(&mut self, slot: usize)
        requires
            old(self).wf(),
            slot < MAX_TASKS,
            old(self).tasks()[slot as int].state != TASK_READY,
            old(self).tasks()[slot as int].id != 0,
        ensures
            final(self).wf(),
            final(self).tasks() == table_with_state(old(self).tasks(), slot as int, TASK_READY),
            final(self).ready_queue() == old(self).ready_queue().push(slot),
            final(self).current() == old(self).current(),
            final(self).generation() == old(self).generation(),
    {
        proof {
            self.lemma_ready_iff_queued();
            lemma_queue_has_room(self.queue@, slot);
        }
        let mut task = self.tasks[slot];
        task.state = TASK_READY;
        self.tasks.set(slot, task);
        self.queue.push(slot);
        proof {
            assert(self.tasks@ =~= table_with_state(old(self).tasks(), slot as int, TASK_READY));
            assert forall|s: int|
                0 <= s < MAX_TASKS && #[trigger] self.tasks@[s].state == TASK_READY implies self.queue@.contains(s as usize) by {
                if s != slot {
                    assert(old(self).queue@.contains(s as usize));
                    let k = choose|k: int| 0 <= k < old(self).queue@.len() && old(self).queue@[k] == s as usize;
                    assert(self.queue@[k] == s as usize);
                } else {
                    assert(self.queue@[self.queue@.len() - 1] == slot);
                }
            }
        }
    }

    /// The first free slot, if any.
    fn free_slot(&self) -> (r: Option<usize>)
        requires
            self.wf(),
        ensures
            r == first_free(self.tasks()),
    {
        let mut i: usize = 0;
        while i < MAX_TASKS
            invariant
                self.wf(),
                i <= MAX_TASKS,
                forall|j: int| 0 <= j < i ==> #[trigger] self.tasks()[j].id != 0,
            decreases MAX_TASKS - i,
        {
            if self.tasks[i].id == 0 {
                proof { lemma_first_free(self.tasks(), i as int); }
                return Some(i);
            }
            i = i + 1;
        }
        proof { lemma_first_free_none(self.tasks()); }
        None
    }

    /// Claim the first free slot for a new task of `parent`; its identity is
    /// the current generation times the table size plus the slot.
    pub fn create(&mut self, parent: u64) -> (r: Result<usize, u64>)
        requires
            old(self).wf(),
        ensures
            final(self).wf(),
            final(self).ready_queue() == old(self).ready_queue(),
            final(self).current() == old(self).current(),
            match next_identity(old(self).tasks(), old(self).generation()) {
                None => r == Err::<usize, u64>(NO_MEMORY) && final(self).tasks() == old(self).tasks()
                    && final(self).generation() == old(self).generation(),
                Some((slot, id)) => {
                    &&& r == Ok::<usize, u64>(slot)
                    &&& final(self).tasks() == old(self).tasks().update(
                        slot as int,
                        Task { id, parent, ..blank() },
                    )
                    &&& final(self).generation() == old(self).generation() + 1
                },
            },
            // A new identity differs from every identity in the table before.
            r matches Ok(slot) ==> forall|j: int|
                0 <= j < MAX_TASKS ==> old(self).tasks()[j].id != final(self).tasks()[slot as int].id,
    {
        let slot = match self.free_slot() {
            Some(slot) => slot,
            None => return Err(NO_MEMORY),
        };
        let id = match self.generation.checked_mul(MAX_TASKS as u64) {
            Some(g) => match g.checked_add(slot as u64) {
                Some(id) => id,
                None => return Err(NO_MEMORY),
            },
            None => return Err(NO_MEMORY),
        };
        let generation = match self.generation.checked_add(1) {
            Some(g) => g,
            None => return Err(NO_MEMORY),
        };
        proof {
            let g = self.generation as int;
            assert(id as int == g * 32 + slot);
            assert((g * 32 + slot) % 32 == slot) by (nonlinear_arith)
                requires slot < 32, g >= 1;
            assert(id as int >= 32) by (nonlinear_arith) requires g >= 1, id as int == g * 32 + slot;
        }
        self.generation = generation;
        let mut task = Task::empty();
        task.id = id;
        task.parent = parent;
        self.tasks.set(slot, task);
        proof {
            assert forall|s: int| 0 <= s < MAX_TASKS && #[trigger] self.tasks@[s].id != 0 implies self.tasks@[s].id
                % (MAX_TASKS as u64) == s && self.tasks@[s].id < self.generation as int * MAX_TASKS by {
                if s != slot {
                    assert(old(self).tasks@[s].id < old(self).generation as int * MAX_TASKS);
                }
            }
            assert forall|k: int| 0 <= k < self.queue@.len() implies #[trigger] self.queue@[k] < MAX_TASKS
                && self.tasks@[self.queue@[k] as int].state == TASK_READY by {
                assert(old(self).tasks@[self.queue@[k] as int].state == TASK_READY);
            }
            assert forall|j: int| 0 <= j < MAX_TASKS implies old(self).tasks()[j].id != id by {
                if old(self).tasks()[j].id != 0 {
                    assert(old(self).tasks@[j].id < old(self).generation as int * MAX_TASKS);
                }
            }
        }
        Ok(slot)
    }

    /// The lifecycle state of a live task.
    pub fn status(&self, target: u64) -> (r: Result<u64, u64>)
        requires
            self.wf(),
        ensures
            r == (match lookup_spec(self.tasks(), target) {
                Ok(slot) => Ok::<u64, u64>(self.tasks()[slot as int].state),
                Err(e) => Err::<u64, u64>(e),
            }),
    {
        let slot = self.lookup(target)?;
        Ok(self.tasks[slot].state)
    }

    /// Stop a started, live task; it remembers the state it left.
    pub fn suspend(&mut self, target: u64) -> (r: Result<(), u64>)
        requires
            old(self).wf(),
        ensures
            final(self).wf(),
            final(self).current() == old(self).current(),
            final(self).generation() == old(self).generation(),
            suspend_spec(*old(self), *final(self), target, r),
    {
        let slot = self.lookup(target)?;
        let mut task = self.tasks[slot];
        if !task.started || task.terminal() || task.state == TASK_SUSPENDED {
            return Err(INVALID_STATE);
        }
        task.suspended_from = task.state;
        task.state = TASK_SUSPENDED;
        self.tasks.set(slot, task);
        self.queue.remove(slot);
        proof {
            lemma_without(old(self).queue@, slot);
            self.lemma_restore_after_remove(*old(self), slot);
        }
        Ok(())
    }

    /// The table invariant holds after one task left the ready state and
    /// the ring lost that slot.
    proof fn lemma_restore_after_remove(&self, before: Scheduler, slot: usize)
        requires
            before.wf(),
            slot < MAX_TASKS,
            self.tasks@.len() == MAX_TASKS,
            self.queue.wf(),
            self.queue@ == without(before.queue@, slot),
            self.generation == before.generation,
            self.current == before.current,
            self.tasks@[slot as int].state != TASK_READY,
            self.tasks@[slot as int].id == before.tasks@[slot as int].id,
            self.tasks@[slot as int].id == 0 ==> self.tasks@[slot as int].state == TASK_CREATED,
            forall|j: int| 0 <= j < MAX_TASKS && j != slot ==> self.tasks@[j] == before.tasks@[j],
        ensures
            self.wf(),
    {
        lemma_without(before.queue@, slot);
        assert forall|k: int| 0 <= k < self.queue@.len() implies #[trigger] self.queue@[k] < MAX_TASKS
            && self.tasks@[self.queue@[k] as int].state == TASK_READY by {
            let x = self.queue@[k];
            assert(self.queue@.contains(x));
            assert(before.queue@.contains(x));
            let j = choose|j: int| 0 <= j < before.queue@.len() && before.queue@[j] == x;
            assert(before.queue@[j] < MAX_TASKS);
        }
        assert forall|s: int| 0 <= s < MAX_TASKS && #[trigger] self.tasks@[s].state == TASK_READY implies self.queue@.contains(s as usize) by {
            assert(before.tasks@[s].state == TASK_READY);
            assert(before.queue@.contains(s as usize));
        }
        assert forall|s: int| 0 <= s < MAX_TASKS && #[trigger] self.tasks@[s].id != 0 implies self.tasks@[s].id
            % (MAX_TASKS as u64) == s && self.tasks@[s].id < self.generation as int * MAX_TASKS by {
            assert(before.tasks@[s].id != 0);
        }
        assert forall|s: int| 0 <= s < MAX_TASKS && #[trigger] self.tasks@[s].id == 0 implies self.tasks@[s].state
            == TASK_CREATED by {
            if s != slot {
                assert(before.tasks@[s].id == 0);
            }
        }
        if let Some(c) = self.current {
            assert(before.tasks@[c as int].id != 0);
        }
    }

    /// Restart a suspended task where it left off: a wait resumes waiting, a
    /// sleep resumes sleeping until its deadline, anything else becomes ready.
    pub fn resume(&mut self, target: u64, now: u64) -> (r: Result<(), u64>)
        requires
            old(self).wf(),
        ensures
            final(self).wf(),
            final(self).current() == old(self).current(),
            final(self).generation() == old(self).generation(),
            resume_spec(*old(self), *final(self), target, now, r),
    {
        let slot = self.lookup(target)?;
        let task = self.tasks[slot];
        if task.state != TASK_SUSPENDED {
            return Err(INVALID_STATE);
        }
        if task.suspended_from == TASK_WAITING {
            self.set_state(slot, TASK_WAITING);
        } else if task.suspended_from == TASK_SLEEPING && now < task.deadline {
            self.set_state(slot, TASK_SLEEPING);
        } else {
            self.ready(slot);
        }
        Ok(())
    }

    /// Move a task that is not ready to another state other than ready.
    fn set_state(&mut self, slot: usize, state: u64)
        requires
            old(self).wf(),
            slot < MAX_TASKS,
            old(self).tasks()[slot as int].state != TASK_READY,
            old(self).tasks()[slot as int].id != 0,
            state != TASK_READY,
        ensures
            final(self).wf(),
            final(self).tasks() == table_with_state(old(self).tasks(), slot as int, state),
            final(self).ready_queue() == old(self).ready_queue(),
            final(self).current() == old(self).current(),
            final(self).generation() == old(self).generation(),
    {
        let mut task = self.tasks[slot];
        task.state = state;
        self.tasks.set(slot, task);
        proof {
            assert forall|k: int| 0 <= k < self.queue@.len() implies #[trigger] self.queue@[k] < MAX_TASKS
                && self.tasks@[self.queue@[k] as int].state == TASK_READY by {
                assert(old(self).tasks@[self.queue@[k] as int].state == TASK_READY);
            }
            assert forall|s: int| 0 <= s < MAX_TASKS && #[trigger] self.tasks@[s].id != 0 implies self.tasks@[s].id
                % (MAX_TASKS as u64) == s && self.tasks@[s].id < self.generation as int * MAX_TASKS by {
                assert(old(self).tasks@[s].id != 0);
            }
            assert forall|s: int| 0 <= s < MAX_TASKS && #[trigger] self.tasks@[s].state == TASK_READY implies self.queue@.contains(s as usize) by {
                assert(old(self).tasks@[s].state == TASK_READY);
            }
        }
    }

    /// Result of a terminated task, or `None` while it still runs: the caller
    /// then commits a wait. A task cannot wait for itself.
    pub fn wait_result(&self, target: u64) -> (r: Result<Option<u64>, u64>)
        requires
            self.wf(),
            self.current() is Some,
        ensures
            r == (match lookup_spec(self.tasks(), target) {
                Err(e) => Err::<Option<u64>, u64>(e),
                Ok(slot) => if slot == self.current()->0 {
                    Err::<Option<u64>, u64>(INVALID_ARGUMENT)
                } else if is_terminal(self.tasks()[slot as int].state) {
                    Ok::<Option<u64>, u64>(Some(self.tasks()[slot as int].result))
                } else {
                    Ok::<Option<u64>, u64>(None)
                },
            }),
    {
        let caller = self.current.unwrap();
        let slot = self.lookup(target)?;
        if caller == slot {
            return Err(INVALID_ARGUMENT);
        }
        if self.tasks[slot].terminal() {
            Ok(Some(self.tasks[slot].result))
        } else {
            Ok(None)
        }
    }

    /// The address space of a slot, or `INVALID_STATE` once it is gone.
    pub fn space(&self, slot: usize) -> (r: Result<u64, u64>)
        requires
            self.wf(),
            slot < MAX_TASKS,
        ensures
            r == (match self.tasks()[slot as int].vspace {
                Some(v) => Ok::<u64, u64>(v),
                None => Err::<u64, u64>(INVALID_STATE),
            }),
    {
        match self.tasks[slot].vspace {
            Some(v) => Ok(v),
            None => Err(INVALID_STATE),
        }
    }

    /// Another task may be edited only while created or suspended.
    fn editable(&self, caller: usize, target: usize) -> (r: Result<(), u64>)
        requires
            self.wf(),
            target < MAX_TASKS,
        ensures
            r == (if editable_spec(self.tasks(), caller, target) {
                Ok::<(), u64>(())
            } else {
                Err::<(), u64>(BUSY)
            }),
    {
        let state = self.tasks[target].state;
        if target != caller && !(state == TASK_CREATED || state == TASK_SUSPENDED) {
            return Err(BUSY);
        }
        Ok(())
    }

    /// Authorize an address-space edit of `target` by the current task: the
    /// slot whose space the edit applies to.
    pub fn edit_space(&self, target: u64) -> (r: Result<usize, u64>)
        requires
            self.wf(),
            self.current() is Some,
        ensures
            r == (match lookup_spec(self.tasks(), target) {
                Err(e) => Err::<usize, u64>(e),
                Ok(slot) => if !editable_spec(self.tasks(), self.current()->0, slot) {
                    Err::<usize, u64>(BUSY)
                } else if self.tasks()[slot as int].vspace is None {
                    Err::<usize, u64>(INVALID_STATE)
                } else {
                    Ok::<usize, u64>(slot)
                },
            }),
    {
        let caller = self.current.unwrap();
        let slot = self.lookup(target)?;
        self.editable(caller, slot)?;
        self.space(slot)?;
        Ok(slot)
    }

    /// Authorize a copy from the current task into `target`: the (source,
    /// destination) slots. The source space must exist; the destination's is
    /// checked with [`Scheduler::space`] once the source has been read.
    pub fn write_memory(&self, target: u64) -> (r: Result<(usize, usize), u64>)
        requires
            self.wf(),
            self.current() is Some,
        ensures
            r == (match lookup_spec(self.tasks(), target) {
                Err(e) => Err::<(usize, usize), u64>(e),
                Ok(slot) => if !editable_spec(self.tasks(), self.current()->0, slot) {
                    Err::<(usize, usize), u64>(BUSY)
                } else if self.tasks()[self.current()->0 as int].vspace is None {
                    Err::<(usize, usize), u64>(INVALID_STATE)
                } else {
                    Ok::<(usize, usize), u64>((self.current()->0, slot))
                },
            }),
    {
        let caller = self.current.unwrap();
        let slot = self.lookup(target)?;
        self.editable(caller, slot)?;
        self.space(caller)?;
        Ok((caller, slot))
    }

    /// Authorize a copy from `target` into the current task: the (source,
    /// destination) slots.
    pub fn read_memory(&self, target: u64) -> (r: Result<(usize, usize), u64>)
        requires
            self.wf(),
            self.current() is Some,
        ensures
            r == (match lookup_spec(self.tasks(), target) {
                Err(e) => Err::<(usize, usize), u64>(e),
                Ok(slot) => if !editable_spec(self.tasks(), self.current()->0, slot) {
                    Err::<(usize, usize), u64>(BUSY)
                } else if self.tasks()[slot as int].vspace is None {
                    Err::<(usize, usize), u64>(INVALID_STATE)
                } else {
                    Ok::<(usize, usize), u64>((slot, self.current()->0))
                },
            }),
    {
        let caller = self.current.unwrap();
        let slot = self.lookup(target)?;
        self.editable(caller, slot)?;
        self.space(slot)?;
        Ok((slot, caller))
    }

    /// The invariant depends only on the states and identities of the tasks.
    proof fn lemma_wf_same_state_id(&self, before: Scheduler)
        requires
            before.wf(),
            self.tasks@.len() == MAX_TASKS,
            self.queue == before.queue,
            self.generation == before.generation,
            self.current == before.current,
            forall|j: int|
                0 <= j < MAX_TASKS ==> (#[trigger] self.tasks@[j]).state == before.tasks@[j].state
                    && self.tasks@[j].id == before.tasks@[j].id,
        ensures
            self.wf(),
    {
        assert forall|k: int| 0 <= k < self.queue@.len() implies #[trigger] self.queue@[k] < MAX_TASKS
            && self.tasks@[self.queue@[k] as int].state == TASK_READY by {
            assert(before.queue@[k] < MAX_TASKS);
            assert(before.tasks@[self.queue@[k] as int].state == TASK_READY);
        }
        assert forall|s: int| 0 <= s < MAX_TASKS && #[trigger] self.tasks@[s].state == TASK_READY implies self.queue@.contains(s as usize) by {
            assert(before.tasks@[s].state == TASK_READY);
        }
        assert forall|s: int| 0 <= s < MAX_TASKS && #[trigger] self.tasks@[s].id != 0 implies self.tasks@[s].id
            % (MAX_TASKS as u64) == s && self.tasks@[s].id < self.generation as int * MAX_TASKS by {
            assert(before.tasks@[s].id != 0);
        }
        assert forall|s: int| 0 <= s < MAX_TASKS && #[trigger] self.tasks@[s].id == 0 implies self.tasks@[s].state
            == TASK_CREATED by {
            assert(before.tasks@[s].id == 0);
        }
        if let Some(c) = self.current {
            assert(before.tasks@[c as int].id != 0);
        }
    }

    /// Finish the task in `slot`: it leaves the ring, its children are adopted
    /// by the root task, a partner blocked on its reply fails its call and
    /// every task waiting for it receives `result`.
    fn finish(&mut self, slot: usize, fault: bool, result: u64)
        requires
            old(self).wf(),
            slot < MAX_TASKS,
            old(self).tasks()[slot as int].id != 0,
        ensures
            final(self).wf(),
            final(self).tasks() == finished_tasks(old(self).tasks(), slot, fault, result),
            final(self).ready_queue() == finished_queue(old(self).tasks(), old(self).ready_queue(), slot, fault, result),
            final(self).current() == old(self).current(),
            final(self).generation() == old(self).generation(),
    {
        let ghost o = self.tasks@;
        self.queue.remove(slot);
        let mut task = self.tasks[slot];
        task.state = if fault { TASK_FAULTED } else { TASK_EXITED };
        task.result = result;
        task.root = 0;
        task.vspace = None;
        let id = task.id;
        let waiting = match task.caller {
            Some(c) => Some(c.task()),
            None => None,
        };
        task.caller = None;
        task.blocked = None;
        self.tasks.set(slot, task);
        proof {
            self.lemma_restore_after_remove(*old(self), slot);
        }
        let ghost marked = self.tasks@;
        assert(marked == o.update(slot as int, marked_finished(o[slot as int], fault, result)));
        let root_id = if self.tasks[0].terminal() { 0 } else { self.tasks[0].id };
        let ghost adopted = reparented(marked, id, root_id);
        let ghost base = self.queue@;
        let mut i: usize = 0;
        while i < MAX_TASKS
            invariant
                self.wf(),
                self.queue@ == base,
                self.current == old(self).current,
                self.generation == old(self).generation,
                marked.len() == MAX_TASKS,
                adopted == reparented(marked, id, root_id),
                i <= MAX_TASKS,
                forall|j: int| 0 <= j < i ==> #[trigger] self.tasks@[j] == adopted[j],
                forall|j: int| i <= j < MAX_TASKS ==> #[trigger] self.tasks@[j] == marked[j],
            decreases MAX_TASKS - i,
        {
            let mut child = self.tasks[i];
            if child.parent == id {
                child.parent = root_id;
                let ghost before = *self;
                self.tasks.set(i, child);
                proof {
                    self.lemma_wf_same_state_id(before);
                }
            }
            i = i + 1;
        }
        assert(self.tasks@ =~= adopted);
        let ghost target = reply_target(adopted, o[slot as int].caller);
        if let Some(waiter) = waiting {
            if let Ok(target_slot) = self.lookup(waiter) {
                let t = self.tasks[target_slot];
                let waiting_for_reply = t.state == TASK_BLOCKED_REPLY || t.state == TASK_BLOCKED_FAULT
                    || (t.state == TASK_SUSPENDED && (t.suspended_from == TASK_BLOCKED_REPLY
                    || t.suspended_from == TASK_BLOCKED_FAULT));
                if waiting_for_reply {
                    let mut t = t;
                    t.completion = Some(0);
                    let ghost before = *self;
                    self.tasks.set(target_slot, t);
                    proof {
                        self.lemma_wf_same_state_id(before);
                    }
                    self.ready(target_slot);
                }
            }
        }
        let ghost woken = reply_woken(adopted, target);
        assert(self.tasks@ =~= woken);
        let ghost first = match target {
            Some(k) => base.push(k),
            None => base,
        };
        assert(self.queue@ == first);
        let ghost waits = |j: int| woken[j].state == TASK_WAITING && woken[j].wait_for == id;
        let mut i: usize = 0;
        while i < MAX_TASKS
            invariant
                self.wf(),
                self.current == old(self).current,
                self.generation == old(self).generation,
                woken.len() == MAX_TASKS,
                waits == (|j: int| woken[j].state == TASK_WAITING && woken[j].wait_for == id),
                i <= MAX_TASKS,
                self.queue@ == first + slots_where(waits, i as nat),
                forall|j: int| 0 <= j < i ==> #[trigger] self.tasks@[j] == exit_woken_task(woken[j], id, result),
                forall|j: int| i <= j < MAX_TASKS ==> #[trigger] self.tasks@[j] == woken[j],
            decreases MAX_TASKS - i,
        {
            let mut t = self.tasks[i];
            let suspended_wait = t.state == TASK_SUSPENDED && t.suspended_from == TASK_WAITING;
            if (t.state == TASK_WAITING || suspended_wait) && t.wait_for == id {
                t.completion = Some(result);
                t.wait_for = 0;
                let ghost before = *self;
                if suspended_wait {
                    t.suspended_from = TASK_READY;
                    self.tasks.set(i, t);
                    proof {
                        self.lemma_wf_same_state_id(before);
                    }
                } else {
                    self.tasks.set(i, t);
                    proof {
                        self.lemma_wf_same_state_id(before);
                    }
                    self.ready(i);
                }
            }
            assert(self.queue@ =~= first + slots_where(waits, (i + 1) as nat));
            i = i + 1;
        }
        assert(self.tasks@ =~= exit_woken(woken, id, result));
    }

    /// Replace a slot that is neither ready nor current with the blank entry.
    fn clear_slot(&mut self, slot: usize)
        requires
            old(self).wf(),
            slot < MAX_TASKS,
            old(self).tasks()[slot as int].state != TASK_READY,
            old(self).current() != Some(slot),
        ensures
            final(self).wf(),
            final(self).tasks() == old(self).tasks().update(slot as int, blank()),
            final(self).ready_queue() == old(self).ready_queue(),
            final(self).current() == old(self).current(),
            final(self).generation() == old(self).generation(),
    {
        self.tasks.set(slot, Task::empty());
        proof {
            let before = *old(self);
            assert forall|k: int| 0 <= k < self.queue@.len() implies #[trigger] self.queue@[k] < MAX_TASKS
                && self.tasks@[self.queue@[k] as int].state == TASK_READY by {
                assert(before.queue@[k] < MAX_TASKS);
                assert(before.tasks@[self.queue@[k] as int].state == TASK_READY);
            }
            assert forall|s: int| 0 <= s < MAX_TASKS && #[trigger] self.tasks@[s].state == TASK_READY implies self.queue@.contains(s as usize) by {
                assert(before.tasks@[s].state == TASK_READY);
            }
            assert forall|s: int| 0 <= s < MAX_TASKS && #[trigger] self.tasks@[s].id != 0 implies self.tasks@[s].id
                % (MAX_TASKS as u64) == s && self.tasks@[s].id < self.generation as int * MAX_TASKS by {
                assert(before.tasks@[s].id != 0);
            }
            assert forall|s: int| 0 <= s < MAX_TASKS && #[trigger] self.tasks@[s].id == 0 implies self.tasks@[s].state
                == TASK_CREATED by {
                if s != slot {
                    assert(before.tasks@[s].id == 0);
                }
            }
            if let Some(c) = self.current {
                assert(before.tasks@[c as int].id != 0);
            }
        }
    }

    /// Finishing a task leaves it exited or faulted.
    proof fn lemma_finished_slot(ts: Seq<Task>, slot: usize, fault: bool, result: u64)
        requires
            ts.len() == MAX_TASKS,
            slot < MAX_TASKS,
        ensures
            finished_tasks(ts, slot, fault, result)[slot as int].state == (if fault {
                TASK_FAULTED
            } else {
                TASK_EXITED
            }),
            finished_tasks(ts, slot, fault, result)[slot as int].id == ts[slot as int].id,
    {
        let adopted = finish_adopted(ts, slot, fault, result);
        let target = finish_reply_target(ts, slot, fault, result);
        if let Some(k) = target {
            assert(waits_for_reply(adopted[k as int]));
            assert(k != slot);
        }
    }

    /// Destroy another task: it is finished (result `u64::MAX`) unless it had
    /// already terminated, and its slot becomes free.
    pub fn destroy(&mut self, target: u64) -> (r: Result<(), u64>)
        requires
            old(self).wf(),
            old(self).current() is Some,
        ensures
            final(self).wf(),
            final(self).current() == old(self).current(),
            final(self).generation() == old(self).generation(),
            destroy_spec(*old(self), *final(self), target, r),
    {
        let caller = self.current.unwrap();
        let slot = self.lookup(target)?;
        if slot == caller {
            return Err(INVALID_ARGUMENT);
        }
        if !self.tasks[slot].terminal() {
            self.finish(slot, false, u64::MAX);
            proof {
                Self::lemma_finished_slot(old(self).tasks(), slot, false, u64::MAX);
            }
        }
        self.clear_slot(slot);
        Ok(())
    }

    /// Clear terminated orphans (parent 0) outside the root slot.
    fn reap_orphans(&mut self)
        requires
            old(self).wf(),
            old(self).current() is None,
        ensures
            final(self).wf(),
            final(self).tasks() == reaped(old(self).tasks()),
            final(self).ready_queue() == old(self).ready_queue(),
            final(self).current() == old(self).current(),
            final(self).generation() == old(self).generation(),
    {
        let ghost o = self.tasks@;
        let mut i: usize = 1;
        while i < MAX_TASKS
            invariant
                self.wf(),
                o.len() == MAX_TASKS,
                self.ready_queue() == old(self).ready_queue(),
                self.current() is None,
                self.generation() == old(self).generation(),
                1 <= i <= MAX_TASKS,
                forall|j: int| 0 <= j < i ==> #[trigger] self.tasks@[j] == reaped(o)[j],
                forall|j: int| i <= j < MAX_TASKS ==> #[trigger] self.tasks@[j] == o[j],
            decreases MAX_TASKS - i,
        {
            if self.tasks[i].parent == 0 && self.tasks[i].terminal() {
                self.clear_slot(i);
            }
            i = i + 1;
        }
        assert(self.tasks@ =~= reaped(o));
    }

    /// Make every sleeper whose deadline has passed ready, in slot order.
    fn wake_sleepers(&mut self, now: u64)
        requires
            old(self).wf(),
        ensures
            final(self).wf(),
            final(self).tasks() == sleepers_woken(old(self).tasks(), now),
            final(self).ready_queue() == old(self).ready_queue() + due_slots(old(self).tasks(), now),
            final(self).current() == old(self).current(),
            final(self).generation() == old(self).generation(),
    {
        let ghost o = self.tasks@;
        let ghost due = |j: int| sleep_due(o[j], now);
        let mut i: usize = 0;
        while i < MAX_TASKS
            invariant
                self.wf(),
                o.len() == MAX_TASKS,
                o == old(self).tasks(),
                due == (|j: int| sleep_due(o[j], now)),
                self.ready_queue() == old(self).ready_queue() + slots_where(due, i as nat),
                self.current() == old(self).current(),
                self.generation() == old(self).generation(),
                i <= MAX_TASKS,
                forall|j: int| 0 <= j < i ==> #[trigger] self.tasks@[j] == sleepers_woken(o, now)[j],
                forall|j: int| i <= j < MAX_TASKS ==> #[trigger] self.tasks@[j] == o[j],
            decreases MAX_TASKS - i,
        {
            if self.tasks[i].state == TASK_SLEEPING && now >= self.tasks[i].deadline {
                self.ready(i);
            }
            assert(self.ready_queue() =~= old(self).ready_queue() + slots_where(due, (i + 1) as nat));
            i = i + 1;
        }
        assert(self.tasks@ =~= sleepers_woken(o, now));
    }

    /// Pick the next task to run: orphans are reaped, due sleepers woken, and
    /// the front of the ring becomes the running current task. Returns its
    /// slot and identity, or `None` when nothing is ready.
    pub fn take_next(&mut self, now: u64) -> (next: Option<(usize, u64)>)
        requires
            old(self).wf(),
            old(self).current() is None,
        ensures
            final(self).wf(),
            final(self).generation() == old(self).generation(),
            ({
                let t1 = reaped(old(self).tasks());
                let t2 = sleepers_woken(t1, now);
                let q = old(self).ready_queue() + due_slots(t1, now);
                if q.len() == 0 {
                    &&& next is None
                    &&& final(self).tasks() == t2
                    &&& final(self).ready_queue() == q
                    &&& final(self).current() is None
                } else {
                    &&& next == Some((q[0], t2[q[0] as int].id))
                    &&& final(self).tasks() == table_with_state(t2, q[0] as int, TASK_RUNNING)
                    &&& final(self).ready_queue() == q.drop_first()
                    &&& final(self).current() == Some(q[0])
                }
            }),
    {
        self.reap_orphans();
        self.wake_sleepers(now);
        let index = match self.queue.pop() {
            Some(index) => index,
            None => return None,
        };
        proof {
            assert(old(self).ready_queue() + due_slots(reaped(old(self).tasks()), now) == self.queue@.insert(0, index)) by {
                assert(self.queue@.insert(0, index) =~= old(self).ready_queue() + due_slots(reaped(old(self).tasks()), now));
            }
        }
        let ghost before_pop_tasks = self.tasks@;
        assert(self.queue@.insert(0, index)[0] == index);
        assert(index < MAX_TASKS && self.tasks@[index as int].state == TASK_READY) by {
            let q0 = self.queue@.insert(0, index);
            assert(q0[0] == index);
        }
        let mut task = self.tasks[index];
        task.state = TASK_RUNNING;
        self.tasks.set(index, task);
        self.current = Some(index);
        proof {
            let q0 = self.queue@.insert(0, index);
            assert(q0.no_duplicates());
            assert(!self.queue@.contains(index)) by {
                if self.queue@.contains(index) {
                    let k = choose|k: int| 0 <= k < self.queue@.len() && self.queue@[k] == index;
                    assert(q0[k + 1] == index);
                }
            }
            assert forall|k: int| 0 <= k < self.queue@.len() implies #[trigger] self.queue@[k] < MAX_TASKS
                && self.tasks@[self.queue@[k] as int].state == TASK_READY by {
                assert(q0[k + 1] == self.queue@[k]);
                assert(q0[k + 1] < MAX_TASKS);
            }
            assert forall|s: int| 0 <= s < MAX_TASKS && #[trigger] self.tasks@[s].state == TASK_READY implies self.queue@.contains(s as usize) by {
                assert(before_pop_tasks[s].state == TASK_READY);
                assert(q0.contains(s as usize));
                let k = choose|k: int| 0 <= k < q0.len() && q0[k] == s as usize;
                assert(k != 0);
                assert(self.queue@[k - 1] == s as usize);
            }
            assert forall|s: int| 0 <= s < MAX_TASKS && #[trigger] self.tasks@[s].id != 0 implies self.tasks@[s].id
                % (MAX_TASKS as u64) == s && self.tasks@[s].id < self.generation as int * MAX_TASKS by {
                assert(before_pop_tasks[s].id != 0);
            }
            assert forall|s: int| 0 <= s < MAX_TASKS && #[trigger] self.tasks@[s].id == 0 implies self.tasks@[s].state
                == TASK_CREATED by {
                assert(before_pop_tasks[s].id == 0);
            }
            assert(before_pop_tasks[index as int].id != 0);
        }
        Some((index, task.id))
    }

    /// The running task came back with `disposition`: it rejoins the ring
    /// after a yield, sleeps, waits, or finishes; the CPU has no current task.
    /// A task that parks to sleep or wait is not in the ready ring: it was
    /// taken off the ring to run, and nothing makes the running task ready.
    pub fn complete_run(&mut self, disposition: Disposition)
        requires
            old(self).wf(),
            old(self).current() is Some,
            (disposition is Sleep || disposition is Wait) ==> old(self).tasks()[old(self).current()->0 as int].state != TASK_READY,
        ensures
            final(self).wf(),
            final(self).current() is None,
            final(self).generation() == old(self).generation(),
            ({
                let c = old(self).current()->0;
                let ts = old(self).tasks();
                let q = old(self).ready_queue();
                match disposition {
                    Disposition::Resume => if ts[c as int].state == TASK_RUNNING {
                        final(self).tasks() == table_with_state(ts, c as int, TASK_READY)
                            && final(self).ready_queue() == q.push(c)
                    } else {
                        final(self).tasks() == ts && final(self).ready_queue() == q
                    },
                    Disposition::Block => final(self).tasks() == ts && final(self).ready_queue() == q,
                    Disposition::Sleep(deadline) => final(self).tasks() == ts.update(
                        c as int,
                        Task { deadline, state: TASK_SLEEPING, ..ts[c as int] },
                    ) && final(self).ready_queue() == q,
                    Disposition::Wait(target) => final(self).tasks() == ts.update(
                        c as int,
                        Task { wait_for: target, state: TASK_WAITING, ..ts[c as int] },
                    ) && final(self).ready_queue() == q,
                    Disposition::Exit(code) => final(self).tasks() == finished_tasks(ts, c, false, code)
                        && final(self).ready_queue() == finished_queue(ts, q, c, false, code),
                    Disposition::Fault(code) => final(self).tasks() == finished_tasks(ts, c, true, code)
                        && final(self).ready_queue() == finished_queue(ts, q, c, true, code),
                }
            }),
    {
        let index = self.current.unwrap();
        self.current = None;
        match disposition {
            Disposition::Resume => {
                if self.tasks[index].state == TASK_RUNNING {
                    self.ready(index);
                }
            },
            Disposition::Block => {},
            Disposition::Sleep(deadline) => {
                let mut task = self.tasks[index];
                task.deadline = deadline;
                task.state = TASK_SLEEPING;
                let ghost before = *self;
                self.tasks.set(index, task);
                proof {
                    self.lemma_restore_after_remove_same_queue(before, index);
                }
            },
            Disposition::Wait(target) => {
                let mut task = self.tasks[index];
                task.wait_for = target;
                task.state = TASK_WAITING;
                let ghost before = *self;
                self.tasks.set(index, task);
                proof {
                    self.lemma_restore_after_remove_same_queue(before, index);
                }
            },
            Disposition::Exit(code) => self.finish(index, false, code),
            Disposition::Fault(code) => self.finish(index, true, code),
        }
    }

    /// The invariant holds after a task that was not ready moved to another
    /// non-ready state, keeping its identity.
    proof fn lemma_restore_after_remove_same_queue(&self, before: Scheduler, slot: usize)
        requires
            before.wf(),
            slot < MAX_TASKS,
            before.tasks@[slot as int].state != TASK_READY,
            before.tasks@[slot as int].id != 0,
            self.tasks@.len() == MAX_TASKS,
            self.queue == before.queue,
            self.generation == before.generation,
            self.current == before.current,
            self.tasks@[slot as int].state != TASK_READY,
            self.tasks@[slot as int].id == before.tasks@[slot as int].id,
            forall|j: int| 0 <= j < MAX_TASKS && j != slot ==> self.tasks@[j] == before.tasks@[j],
        ensures
            self.wf(),
    {
        assert forall|k: int| 0 <= k < self.queue@.len() implies #[trigger] self.queue@[k] < MAX_TASKS
            && self.tasks@[self.queue@[k] as int].state == TASK_READY by {
            assert(before.queue@[k] < MAX_TASKS);
            assert(before.tasks@[self.queue@[k] as int].state == TASK_READY);
        }
        assert forall|s: int| 0 <= s < MAX_TASKS && #[trigger] self.tasks@[s].state == TASK_READY implies self.queue@.contains(s as usize) by {
            assert(before.tasks@[s].state == TASK_READY);
        }
        assert forall|s: int| 0 <= s < MAX_TASKS && #[trigger] self.tasks@[s].id != 0 implies self.tasks@[s].id
            % (MAX_TASKS as u64) == s && self.tasks@[s].id < self.generation as int * MAX_TASKS by {
            assert(before.tasks@[s].id != 0);
        }
        assert forall|s: int| 0 <= s < MAX_TASKS && #[trigger] self.tasks@[s].id == 0 implies self.tasks@[s].state
            == TASK_CREATED by {
            assert(before.tasks@[s].id == 0);
        }
        if let Some(c) = self.current {
            assert(before.tasks@[c as int].id != 0);
        }
    }

    /// Install the root task (parent 0) with its translation root, IPC buffer
    /// and address space; it is started and ready.
    pub fn install_root(&mut self, root: usize, ipc_buffer: usize, vspace: u64) -> (r: Result<usize, u64>)
        requires
            old(self).wf(),
        ensures
            final(self).wf(),
            final(self).current() == old(self).current(),
            match next_identity(old(self).tasks(), old(self).generation()) {
                None => r == Err::<usize, u64>(NO_MEMORY) && same_tables(*old(self), *final(self)),
                Some((slot, id)) => {
                    &&& r == Ok::<usize, u64>(slot)
                    &&& final(self).tasks() == old(self).tasks().update(
                        slot as int,
                        Task { id, parent: 0, root, ipc_buffer, vspace: Some(vspace), started: true, state: TASK_READY, ..blank() },
                    )
                    &&& final(self).ready_queue() == old(self).ready_queue().push(slot)
                    &&& final(self).generation() == old(self).generation() + 1
                },
            },
    {
        let slot = self.create(0)?;
        let mut task = self.tasks[slot];
        task.root = root;
        task.ipc_buffer = ipc_buffer;
        task.vspace = Some(vspace);
        task.started = true;
        let ghost before = *self;
        self.tasks.set(slot, task);
        proof {
            self.lemma_wf_same_state_id(before);
        }
        self.ready(slot);
        proof {
            assert(self.tasks@ =~= old(self).tasks().update(
                slot as int,
                Task { id: task.id, parent: 0, root, ipc_buffer, vspace: Some(vspace), started: true, state: TASK_READY, ..blank() },
            ));
        }
        Ok(slot)
    }

    /// Record the capability space of a slot.
    pub fn set_cspace(&mut self, slot: usize, cspace: u64)
        requires
            old(self).wf(),
            slot < MAX_TASKS,
        ensures
            final(self).wf(),
            final(self).tasks() == old(self).tasks().update(slot as int, Task { cspace: Some(cspace), ..old(self).tasks()[slot as int] }),
            final(self).ready_queue() == old(self).ready_queue(),
            final(self).current() == old(self).current(),
            final(self).generation() == old(self).generation(),
    {
        let mut task = self.tasks[slot];
        task.cspace = Some(cspace);
        let ghost before = *self;
        self.tasks.set(slot, task);
        proof {
            self.lemma_wf_same_state_id(before);
        }
    }

    /// Record the address space of a slot created by `create`.
    pub fn set_space(&mut self, slot: usize, vspace: u64)
        requires
            old(self).wf(),
            slot < MAX_TASKS,
        ensures
            final(self).wf(),
            final(self).tasks() == old(self).tasks().update(slot as int, Task { vspace: Some(vspace), ..old(self).tasks()[slot as int] }),
            final(self).ready_queue() == old(self).ready_queue(),
            final(self).current() == old(self).current(),
            final(self).generation() == old(self).generation(),
    {
        let mut task = self.tasks[slot];
        task.vspace = Some(vspace);
        let ghost before = *self;
        self.tasks.set(slot, task);
        proof {
            self.lemma_wf_same_state_id(before);
        }
    }

    /// Checks before starting a created task at `entry` with stack top `stack`:
    /// the entry is word aligned, the stack 16-byte aligned, and the task has
    /// an address space. The runtime then checks the entry against that
    /// space, takes the first frame's bottom from `stack_bottom`, and checks
    /// that frame. The runtime then checks both against that space.
    pub fn check_start(&self, target: u64, entry: u64, stack: u64) -> (r: Result<usize, u64>)
        requires
            self.wf(),
        ensures
            r == check_start_spec(self.tasks(), target, entry, stack),
    {
        let slot = self.lookup(target)?;
        if self.tasks[slot].state != TASK_CREATED {
            return Err(INVALID_STATE);
        }
        if entry % 4 != 0 || stack % 16 != 0 {
            return Err(INVALID_ARGUMENT);
        }
        self.space(slot)?;
        Ok(slot)
    }

    /// The bottom of a new task's first 16-byte stack frame below the stack
    /// top `stack`: refused with `INVALID_ARGUMENT` when there is no room.
    pub fn stack_bottom(stack: u64) -> (r: Result<u64, u64>)
        ensures
            r == (if stack < 16 { Err(INVALID_ARGUMENT) } else { Ok((stack - 16) as u64) }),
    {
        if stack < 16 {
            Err(INVALID_ARGUMENT)
        } else {
            Ok(stack - 16)
        }
    }

    /// Start a created task whose context the runtime has installed.
    pub fn commit_start(&mut self, slot: usize)
        requires
            old(self).wf(),
            slot < MAX_TASKS,
            old(self).tasks()[slot as int].state == TASK_CREATED,
            old(self).tasks()[slot as int].id != 0,
        ensures
            final(self).wf(),
            final(self).tasks() == old(self).tasks().update(
                slot as int,
                Task { started: true, state: TASK_READY, ..old(self).tasks()[slot as int] },
            ),
            final(self).ready_queue() == old(self).ready_queue().push(slot),
            final(self).current() == old(self).current(),
            final(self).generation() == old(self).generation(),
    {
        let mut task = self.tasks[slot];
        task.started = true;
        let ghost before = *self;
        self.tasks.set(slot, task);
        proof {
            self.lemma_wf_same_state_id(before);
        }
        self.ready(slot);
        proof {
            assert(self.tasks@ =~= old(self).tasks().update(
                slot as int,
                Task { started: true, state: TASK_READY, ..old(self).tasks()[slot as int] },
            ));
        }
    }

    /// Carry out syscall `number` of the running task `caller`. Scheduling
    /// syscalls complete here; those that need the task's address space or
    /// the console come back as the work the runtime must do.
    pub fn invoke(
        &mut self,
        caller: usize,
        number: u64,
        a: [u64; 5],
        now: u64,
        frequency: u64,
        debug_console: bool,
    ) -> (r: Invocation)
        requires
            old(self).wf(),
            old(self).current() == Some(caller),
            old(self).tasks()[caller as int].state == TASK_RUNNING,
        ensures
            final(self).wf(),
            final(self).current() == old(self).current(),
            final(self).generation() == old(self).generation(),
            invoke_spec(*old(self), *final(self), caller, number, a@, now, frequency, debug_console, r),
            (number == SYS_SLEEP && r == Invocation::Complete(Ok(None))) ==> {
                let ticks = final(self).tasks()[caller as int].deadline - now;
                ticks * 1000 <= a[0] * frequency < (ticks + 1) * 1000
            },
    {
        if number == SYS_YIELD {
            Invocation::Complete(Ok(None))
        } else if number == SYS_DEBUG_PUTCHAR {
            if a[0] > 255 {
                Invocation::Complete(Err(INVALID_ARGUMENT))
            } else if !debug_console {
                Invocation::Complete(Err(UNSUPPORTED))
            } else {
                Invocation::Putchar(a[0] as u8)
            }
        } else if number == SYS_TASK_ID {
            Invocation::Complete(Ok(Some(self.tasks[caller].id)))
        } else if number == SYS_TASK_CREATE {
            Invocation::CreateTask
        } else if number == SYS_SUSPEND_SELF {
            let mut task = self.tasks[caller];
            task.suspended_from = TASK_RUNNING;
            task.state = TASK_SUSPENDED;
            let ghost before = *self;
            self.tasks.set(caller, task);
            proof {
                self.lemma_restore_after_remove_same_queue(before, caller);
            }
            Invocation::Complete(Ok(None))
        } else if number == SYS_EXIT {
            self.finish(caller, false, a[0]);
            Invocation::Complete(Ok(None))
        } else if number == SYS_SLEEP {
            let scaled = match a[0].checked_mul(frequency) {
                Some(v) => v,
                None => return Invocation::Complete(Err(INVALID_ARGUMENT)),
            };
            let duration = scaled / 1000;
            let deadline = match now.checked_add(duration) {
                Some(v) => v,
                None => return Invocation::Complete(Err(INVALID_ARGUMENT)),
            };
            proof {
                let product = a[0] as int * frequency as int;
                let ticks = deadline - now;
                assert(ticks * 1000 <= product < (ticks + 1) * 1000) by (nonlinear_arith)
                    requires ticks == product / 1000, product >= 0;
            }
            let mut task = self.tasks[caller];
            task.deadline = deadline;
            task.state = TASK_SLEEPING;
            let ghost before = *self;
            self.tasks.set(caller, task);
            proof {
                self.lemma_restore_after_remove_same_queue(before, caller);
            }
            Invocation::Complete(Ok(None))
        } else if number == SYS_CLOCK {
            let per_ms = if frequency / 1000 >= 1 { frequency / 1000 } else { 1 };
            Invocation::Complete(Ok(Some(now / per_ms)))
        } else if number == SYS_MEMORY_AVAILABLE {
            Invocation::MemoryAvailable
        } else if number == SYS_TASK_START {
            match self.check_start(a[0], a[1], a[2]) {
                Ok(slot) => Invocation::StartTask { slot },
                Err(e) => Invocation::Complete(Err(e)),
            }
        } else if number == SYS_TASK_STATUS {
            match self.status(a[0]) {
                Ok(state) => Invocation::Complete(Ok(Some(state))),
                Err(e) => Invocation::Complete(Err(e)),
            }
        } else if number == SYS_TASK_SUSPEND {
            let res = self.suspend(a[0]);
            match res {
                Ok(_) => Invocation::Complete(Ok(None)),
                Err(e) => Invocation::Complete(Err(e)),
            }
        } else if number == SYS_TASK_RESUME {
            let res = self.resume(a[0], now);
            match res {
                Ok(_) => Invocation::Complete(Ok(None)),
                Err(e) => Invocation::Complete(Err(e)),
            }
        } else if number == SYS_TASK_DESTROY {
            let res = self.destroy(a[0]);
            match res {
                Ok(_) => Invocation::Complete(Ok(None)),
                Err(e) => Invocation::Complete(Err(e)),
            }
        } else if number == SYS_WAIT {
            let slot = match self.lookup(a[0]) {
                Ok(slot) => slot,
                Err(e) => return Invocation::Complete(Err(e)),
            };
            if slot == caller {
                return Invocation::Complete(Err(INVALID_ARGUMENT));
            }
            if self.tasks[slot].terminal() {
                Invocation::Complete(Ok(Some(self.tasks[slot].result)))
            } else {
                let mut task = self.tasks[caller];
                task.state = TASK_WAITING;
                task.wait_for = a[0];
                let ghost before = *self;
                self.tasks.set(caller, task);
                proof {
                    self.lemma_restore_after_remove_same_queue(before, caller);
                }
                Invocation::Complete(Ok(None))
            }
        } else if number == SYS_MAP || number == SYS_UNMAP || number == SYS_PROTECT {
            let slot = match self.lookup(a[0]) {
                Ok(slot) => slot,
                Err(e) => return Invocation::Complete(Err(e)),
            };
            if let Err(e) = self.editable(caller, slot) {
                return Invocation::Complete(Err(e));
            }
            if let Err(e) = self.space(slot) {
                return Invocation::Complete(Err(e));
            }
            Invocation::EditSpace { slot }
        } else if number == SYS_WRITE_MEMORY || number == SYS_READ_MEMORY {
            let slot = match self.lookup(a[0]) {
                Ok(slot) => slot,
                Err(e) => return Invocation::Complete(Err(e)),
            };
            if let Err(e) = self.editable(caller, slot) {
                return Invocation::Complete(Err(e));
            }
            if a[3] > MAX_COPY as u64 {
                return Invocation::Complete(Err(INVALID_ARGUMENT));
            }
            let length = a[3] as usize;
            if number == SYS_WRITE_MEMORY {
                Invocation::CopyMemory { source: caller, destination: slot, length }
            } else {
                Invocation::CopyMemory { source: slot, destination: caller, length }
            }
        } else {
            Invocation::Complete(Err(UNSUPPORTED))
        }
    }
}

} // verus!
