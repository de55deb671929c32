//! The per-task user loop: what the kernel does after user code stops.
use vstd::prelude::*;
use crate::task::scheduler::Disposition;

verus! {

/// Why user code stopped.
pub enum UserEvent {
    /// A system call.
    Syscall,
    /// An interrupt.
    Interrupt,
    /// A fault, with its syndrome.
    Fault { esr: u64 },
}

/// What the loop does next.
pub enum LoopStep {
    /// Hand the call to the task's system-call policy, then park with its
    /// disposition.
    Dispatch,
    /// Re-enter user code at once.
    Reenter,
    /// Park with this disposition.
    Park(Disposition),
}

/// The next step after `event`; `reschedule` says whether the interrupt
/// asked for a scheduling point.
pub fn loop_step(event: UserEvent, reschedule: bool) -> (s: LoopStep)
    ensures
        match event {
            UserEvent::Syscall => s is Dispatch,
            UserEvent::Interrupt => if reschedule { s matches LoopStep::Park(d) && d is Resume } else { s is Reenter },
            UserEvent::Fault { esr } => s matches LoopStep::Park(d) && d == Disposition::Fault(esr),
        },
{
    match event {
        UserEvent::Syscall => LoopStep::Dispatch,
        UserEvent::Interrupt => if reschedule { LoopStep::Park(Disposition::Resume) } else { LoopStep::Reenter },
        UserEvent::Fault { esr } => LoopStep::Park(Disposition::Fault(esr)),
    }
}

} // verus!
