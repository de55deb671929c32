use rstiny_core::task::bootinfo::{dtb_header, extra_map_len, root_boot_info, BOOTINFO_HEADER_FDT, FEATURE_DEBUG_CONSOLE};
use rstiny_core::task::abi::{
    INVALID_ARGUMENT, INVALID_STATE, NOT_FOUND, NO_MEMORY, SYS_CLOCK, SYS_DEBUG_PUTCHAR, SYS_TASK_ID,
    SYS_YIELD, TASK_CREATED, TASK_READY, TASK_RUNNING, TASK_SUSPENDED, UNSUPPORTED,
};
use rstiny_core::task::queue::RunQueue;
use rstiny_core::task::root::{root_segments, RootImageError, Segment};
use rstiny_core::task::scheduler::{Disposition, Invocation, Scheduler};
use rstiny_core::task::tick::{period_ticks, KernelStack, Tick};
use rstiny_core::task::user::{loop_step, LoopStep, UserEvent};

#[test]
fn queue_is_first_in_first_out() {
    let mut q = RunQueue::new();
    q.push(3);
    q.push(1);
    q.push(2);
    assert_eq!(q.len(), 3);
    assert_eq!(q.pop(), Some(3));
    assert_eq!(q.pop(), Some(1));
    assert_eq!(q.pop(), Some(2));
    assert_eq!(q.pop(), None);
}

#[test]
fn queue_remove_keeps_order_of_the_rest() {
    let mut q = RunQueue::new();
    for t in [5usize, 6, 7, 6] {
        q.push(t);
    }
    q.remove(6);
    assert_eq!(q.len(), 2);
    assert_eq!(q.pop(), Some(5));
    assert_eq!(q.pop(), Some(7));
}

#[test]
fn queue_pop_best_takes_first_of_highest_priority() {
    let mut q = RunQueue::new();
    for t in [4usize, 9, 2, 8] {
        q.push(t);
    }
    let priority = |t: usize| if t >= 8 { 2u8 } else { 1u8 };
    assert_eq!(q.pop_best(priority), Some(9));
    assert_eq!(q.pop_best(priority), Some(8));
    assert_eq!(q.pop_best(priority), Some(4));
    assert_eq!(q.pop(), Some(2));
    assert_eq!(q.pop_best(priority), None);
}

fn booted() -> Scheduler {
    let mut s = Scheduler::new();
    assert_eq!(s.install_root(7, 0x1000, 0x2000), Ok(0));
    assert_eq!(s.take_next(0), Some((0, 32)));
    s
}

#[test]
fn root_task_runs_first_with_the_first_identity() {
    let s = booted();
    assert_eq!(s.current_id(), Some(32));
    assert_eq!(s.current_slot(), Some(0));
    assert_eq!(s.status(32), Ok(TASK_RUNNING));
    assert_eq!(s.space(0), Ok(0x2000));
}

#[test]
fn created_task_gets_a_fresh_identity() {
    let mut s = booted();
    assert_eq!(s.create(32), Ok(1));
    assert_eq!(s.lookup(65), Ok(1));
    assert_eq!(s.status(65), Ok(TASK_CREATED));
    assert_eq!(s.lookup(33), Err(NOT_FOUND));
    assert_eq!(s.lookup(0), Err(NOT_FOUND));
}

#[test]
fn unstarted_task_cannot_be_suspended() {
    let mut s = booted();
    assert_eq!(s.create(32), Ok(1));
    assert_eq!(s.suspend(65), Err(INVALID_STATE));
    assert_eq!(s.resume(65, 0), Err(INVALID_STATE));
}

#[test]
fn resume_undoes_suspend() {
    let mut s = booted();
    assert_eq!(s.create(32), Ok(1));
    s.commit_start(1);
    assert_eq!(s.status(65), Ok(TASK_READY));
    assert_eq!(s.suspend(65), Ok(()));
    assert_eq!(s.status(65), Ok(TASK_SUSPENDED));
    assert_eq!(s.suspend(65), Err(INVALID_STATE));
    assert_eq!(s.resume(65, 0), Ok(()));
    assert_eq!(s.status(65), Ok(TASK_READY));
}

#[test]
fn destroyed_identity_is_gone() {
    let mut s = booted();
    assert_eq!(s.create(32), Ok(1));
    assert_eq!(s.destroy(65), Ok(()));
    assert_eq!(s.lookup(65), Err(NOT_FOUND));
    assert_eq!(s.status(65), Err(NOT_FOUND));
    assert_eq!(s.destroy(65), Err(NOT_FOUND));
}

#[test]
fn current_task_cannot_destroy_or_wait_for_itself() {
    let mut s = booted();
    assert_eq!(s.destroy(32), Err(INVALID_ARGUMENT));
    assert_eq!(s.wait_result(32), Err(INVALID_ARGUMENT));
    assert_eq!(s.wait_result(999), Err(NOT_FOUND));
}

#[test]
fn a_running_child_has_no_result_yet() {
    let mut s = booted();
    assert_eq!(s.create(32), Ok(1));
    assert_eq!(s.wait_result(65), Ok(None));
}

#[test]
fn yield_puts_the_task_back_in_the_ring() {
    let mut s = booted();
    s.complete_run(Disposition::Resume);
    assert_eq!(s.current_id(), None);
    assert_eq!(s.status(32), Ok(TASK_READY));
    assert_eq!(s.take_next(1), Some((0, 32)));
}

#[test]
fn user_loop_steps() {
    assert!(matches!(loop_step(UserEvent::Syscall, true), LoopStep::Dispatch));
    assert!(matches!(loop_step(UserEvent::Interrupt, false), LoopStep::Reenter));
    assert!(matches!(loop_step(UserEvent::Interrupt, true), LoopStep::Park(Disposition::Resume)));
    assert!(matches!(loop_step(UserEvent::Fault { esr: 0x96 }, false), LoopStep::Park(Disposition::Fault(0x96))));
}

#[test]
fn tick_period_rounds_up_and_is_at_least_one() {
    assert_eq!(period_ticks(62_500_000, 10_000_000), 625_000);
    assert_eq!(period_ticks(3, 1), 1);
    assert_eq!(period_ticks(0, 0), 1);
    assert_eq!(period_ticks(1_000_000_001, 1), 2);
    assert_eq!(period_ticks(u64::MAX, 1_000_000_000), u64::MAX);
}

#[test]
fn tick_arms_one_period_after_now() {
    let mut t = Tick::new();
    assert_eq!(t.period, None);
    t.init(62_500_000, 10_000_000);
    assert_eq!(t.period, Some(625_000));
    assert_eq!(t.deadline(5), 625_005);
    assert_eq!(t.deadline(u64::MAX - 625_000), u64::MAX);
}

#[test]
fn kernel_stack_top_is_past_guard_and_stack() {
    let stack = KernelStack::new(0x4000_0000).unwrap();
    assert!(KernelStack::new(0x4000_0010).is_none());
    assert!(KernelStack::new(u64::MAX - 4095).is_none());
    assert_eq!(stack.top(), 0x4000_0000 + 4096 + 64 * 1024);
    assert_eq!(KernelStack::layout(), (64 * 1024 + 4096, 4096));
}

fn phdr(kind: u32, flags: u32, va: u64, file: u64, mem: u64) -> Vec<u8> {
    let mut r = vec![0u8; 56];
    r[0..4].copy_from_slice(&kind.to_le_bytes());
    r[4..8].copy_from_slice(&flags.to_le_bytes());
    r[16..24].copy_from_slice(&va.to_le_bytes());
    r[32..40].copy_from_slice(&file.to_le_bytes());
    r[40..48].copy_from_slice(&mem.to_le_bytes());
    r
}

fn table(headers: &[Vec<u8>]) -> Vec<u8> {
    let mut t = Vec::new();
    t.extend_from_slice(&(headers.len() as u32).to_le_bytes());
    t.extend_from_slice(&56u32.to_le_bytes());
    for h in headers {
        t.extend_from_slice(h);
    }
    t.resize(4096, 0);
    t
}

#[test]
fn root_image_maps_code_data_and_skips_the_rest() {
    let t = table(&[
        phdr(1, 5, 0x40_0000, 0x1800, 0x1800),
        phdr(6, 4, 0, 0, 0),
        phdr(1, 6, 0x40_2000, 0x100, 0x2001),
        phdr(1, 4, 0x50_0000, 0, 0),
    ]);
    let segs = root_segments(&t, 0x40_0010, 0x4000_0000, 0x40_0000, 0x80_0000).unwrap();
    assert_eq!(
        segs,
        vec![
            Segment { va: 0x40_0000, physical: 0x4040_0000, size: 0x2000, rights: 5 },
            Segment { va: 0x40_2000, physical: 0x4040_2000, size: 0x3000, rights: 3 },
        ]
    );
}

#[test]
fn root_image_refusals() {
    let ok = phdr(1, 5, 0x40_0000, 0x1000, 0x1000);
    assert_eq!(root_segments(&[0u8; 4], 0x40_0000, 0, 0x40_0000, 0x80_0000), Err(RootImageError::BadTable));
    assert_eq!(root_segments(&table(&[]), 0x40_0000, 0, 0x40_0000, 0x80_0000), Err(RootImageError::BadTable));
    assert_eq!(
        root_segments(&table(&[ok.clone(), phdr(1, 7, 0x40_1000, 0, 0x1000)]), 0x40_0000, 0, 0x40_0000, 0x80_0000),
        Err(RootImageError::Permissions)
    );
    assert_eq!(
        root_segments(&table(&[phdr(1, 5, 0x40_0800, 0, 0x1000)]), 0x40_0800, 0, 0x40_0000, 0x80_0000),
        Err(RootImageError::Misaligned)
    );
    assert_eq!(
        root_segments(&table(&[phdr(1, 5, 0x90_0000, 0x10, 0x1000)]), 0x90_0000, 0, 0x40_0000, 0x80_0000),
        Err(RootImageError::OutOfRange)
    );
    assert_eq!(
        root_segments(&table(&[phdr(1, 5, 0x40_0000, 0x10, u64::MAX)]), 0x40_0000, 0, 0x40_0000, 0x80_0000),
        Err(RootImageError::Overflow)
    );
    assert_eq!(
        root_segments(&table(&[phdr(1, 6, 0x40_0000, 0x10, 0x1000)]), 0x40_0000, 0, 0x40_0000, 0x80_0000),
        Err(RootImageError::NoEntry)
    );
    assert_eq!(
        root_segments(&table(&[ok]), 0x40_1000, 0, 0x40_0000, 0x80_0000),
        Err(RootImageError::NoEntry)
    );
}

#[test]
fn full_table_refuses_a_new_task() {
    let mut s = booted();
    for slot in 1usize..32 {
        assert_eq!(s.create(32), Ok(slot));
    }
    assert_eq!(s.create(32), Err(NO_MEMORY));
}

#[test]
fn invoke_completes_scheduling_syscalls() {
    let mut s = booted();
    assert!(matches!(s.invoke(0, SYS_YIELD, [0; 5], 0, 1000, true), Invocation::Complete(Ok(None))));
    assert!(matches!(s.invoke(0, SYS_TASK_ID, [0; 5], 0, 1000, true), Invocation::Complete(Ok(Some(32)))));
    assert!(matches!(
        s.invoke(0, SYS_CLOCK, [0; 5], 5000, 1_000_000, true),
        Invocation::Complete(Ok(Some(5)))
    ));
}

#[test]
fn invoke_debug_putchar_checks_byte_and_console() {
    let mut s = booted();
    assert!(matches!(
        s.invoke(0, SYS_DEBUG_PUTCHAR, [256, 0, 0, 0, 0], 0, 1000, true),
        Invocation::Complete(Err(INVALID_ARGUMENT))
    ));
    assert!(matches!(
        s.invoke(0, SYS_DEBUG_PUTCHAR, [65, 0, 0, 0, 0], 0, 1000, false),
        Invocation::Complete(Err(UNSUPPORTED))
    ));
    assert!(matches!(
        s.invoke(0, SYS_DEBUG_PUTCHAR, [65, 0, 0, 0, 0], 0, 1000, true),
        Invocation::Putchar(65)
    ));
}

#[test]
fn queue_pop_best_removes_only_the_chosen_entry() {
    let mut q = RunQueue::new();
    q.push(5);
    q.push(7);
    q.push(5);
    let p = |t: usize| -> u8 { if t == 5 { 3 } else { 1 } };
    assert_eq!(q.pop_best(p), Some(5));
    assert_eq!(q.pop(), Some(7));
    assert_eq!(q.pop(), Some(5));
    assert_eq!(q.pop(), None);
}

#[test]
fn start_checks_alignment_then_room_below_the_stack_top() {
    let mut s = booted();
    assert_eq!(s.create(32), Ok(1));
    s.set_space(1, 0x3000);
    assert_eq!(s.check_start(65, 0x1000, 8), Err(INVALID_ARGUMENT));
    assert_eq!(s.check_start(65, 0x1002, 0x2000), Err(INVALID_ARGUMENT));
    assert_eq!(s.check_start(65, 0x1000, 0), Ok(1));
    assert_eq!(Scheduler::stack_bottom(0), Err(INVALID_ARGUMENT));
    assert_eq!(Scheduler::stack_bottom(16), Ok(0));
    assert_eq!(Scheduler::stack_bottom(0x2000), Ok(0x1ff0));
}

#[test]
fn root_boot_info_record() {
    let info = root_boot_info(true, 100, 0x40_0000, 0x7f_0000, 0x80_0000, 0x80_0000, 0x90_0000);
    assert_eq!(info.features, FEATURE_DEBUG_CONSOLE);
    assert_eq!(info.size, 96);
    assert_eq!(info.page_size, 4096);
    assert_eq!(info.image_end, 0x80_0000);
    assert_eq!(info.extra_size, 116);
    assert_eq!(info.words().len(), 12);
    assert_eq!(info.words()[11], 116);
    assert_eq!(root_boot_info(false, 0, 0, 0, 0, 0, 0).features, 0);
    let h = dtb_header(100);
    assert_eq!((h.id, h.len), (BOOTINFO_HEADER_FDT, 116));
    assert_eq!(extra_map_len(100), 4096);
    assert_eq!(extra_map_len(4080), 4096);
    assert_eq!(extra_map_len(4081), 8192);
}
