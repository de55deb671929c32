use rstiny_core::spawn_info::{
    init_extra, service_extra, BOOT_TEST, CONSOLE_EP, DEP_COUNT, DEP_EP_BASE, DEVICE_COUNT, DEVICE_SLOT, EXTRA_LEN,
    IRQ_SLOT, IRQ_SLOT2, RESTARTS, SELF_EP,
};
use rstiny_core::init::config::{Restart, ServiceCfg};
use rstiny_core::init::logger::{drill_failed, line_str, pack, pack_words, post_action, unpack, write_chunks, PostAction, FLAG_CONSOLE, FLAG_CRASH_DRILL, FLAG_CRASH_SELF, MAX_LINE};
use rstiny_core::init::policy::{
    all_failed, apply_policy, backoff, dependents_of, needs_stop, prune_restart_times, ready_to_start,
    record_forced_restart, PolicyOutcome,
};
use rstiny_core::init::spawn::{spawn_caps, ChildCap};
use rstiny_core::init::state::{
    badge_for, boot_test, device_master, post_log, service_for_badge, service_irq_masters, virtio_slot,
    ServiceState, Status,
};
use rstiny_core::init::supervisor::{devices_known, service_state, Message, Reaction, Supervisor};

fn cfg(name: &str, depends: &[&str], devices: &[&str], restart: Restart, max_restarts: u32) -> ServiceCfg {
    ServiceCfg {
        name: name.to_string(),
        elf: format!("{name}.elf"),
        depends: depends.iter().map(|d| d.to_string()).collect(),
        devices: devices.iter().map(|d| d.to_string()).collect(),
        restart,
        max_restarts,
        window_ms: 1000,
        backoff_ms: 10,
        budget_bits: 20,
        critical: false,
    }
}

fn table(cfgs: Vec<ServiceCfg>) -> Vec<ServiceState> {
    cfgs.into_iter().enumerate().map(|(i, c)| service_state(c, i, [0, 0])).collect()
}

#[test]
fn service_slots_follow_the_index() {
    let s = service_state(cfg("blk", &[], &["virtio-mmio-1"], Restart::Always, 3), 2, [0, 0]);
    assert_eq!(s.status, Status::Waiting);
    assert_eq!(s.svc_ep_obj, 5004 + 16);
    assert_eq!(s.budget_slot, 5000 + 16);
    assert_eq!(s.device_copies, [170 + 16, 0, 0, 0]);
    assert_eq!(s.irq_copies, [5002 + 16, 5002 + 17]);
    assert_eq!(s.restarts, 0);
    assert!(s.restart_times.is_empty());
}

#[test]
fn badges_name_services() {
    assert_eq!(badge_for(0), 1);
    assert_eq!(badge_for(3), 4);
    assert_eq!(service_for_badge(3, 1), Some(0));
    assert_eq!(service_for_badge(3, 3), Some(2));
    assert_eq!(service_for_badge(3, 4), None);
    assert_eq!(service_for_badge(3, 0), None);
}

#[test]
fn boot_test_flag_is_exactly_one() {
    assert!(boot_test(Some("1")));
    assert!(!boot_test(Some("0")));
    assert!(!boot_test(Some("11")));
    assert!(!boot_test(None));
}

#[test]
fn device_names() {
    assert_eq!(virtio_slot("virtio-mmio-0", 4), Some(3));
    assert_eq!(virtio_slot("virtio-mmio-3", 4), Some(0));
    assert_eq!(virtio_slot("virtio-mmio-4", 4), None);
    assert_eq!(virtio_slot("virtio-mmio-x", 4), None);
    assert_eq!(virtio_slot("uart0", 4), None);
    assert_eq!(device_master("uart0"), Some(0));
    assert_eq!(device_master("virtio-mmio-7"), Some(1));
    assert_eq!(device_master("uart"), None);
    assert_eq!(device_master("virtio-mmio-"), None);
}

#[test]
fn irq_masters_follow_the_virtio_devices() {
    let c = cfg("gpu", &[], &["uart0", "virtio-mmio-2", "virtio-mmio-1"], Restart::Always, 1);
    assert_eq!(service_irq_masters(&c, 170, 8), [175, 176]);
    assert_eq!(service_irq_masters(&c, 0, 8), [0, 0]);
}

#[test]
fn backoff_doubles_up_to_a_cap_and_saturates() {
    assert_eq!(backoff(10, 0), 10);
    assert_eq!(backoff(10, 1), 20);
    assert_eq!(backoff(10, 4), 160);
    assert_eq!(backoff(10, 5), 320);
    assert_eq!(backoff(10, 9), 320);
    assert_eq!(backoff(u32::MAX, 2), u32::MAX);
}

#[test]
fn prune_keeps_recent_stamps_in_order() {
    let mut times = vec![100, 900, 1500, 1999];
    prune_restart_times(&mut times, 2000, 1000);
    assert_eq!(times, vec![1500, 1999]);
}

#[test]
fn policy_restarts_within_budget_and_stops_beyond() {
    let mut s = service_state(cfg("fs", &[], &[], Restart::OnFailure, 2), 0, [0, 0]);
    assert_eq!(apply_policy(&mut s, 100, false, true), PolicyOutcome::Restart { backoff_ms: 10 });
    assert_eq!(s.status, Status::Waiting);
    assert_eq!(s.restarts, 1);
    assert_eq!(apply_policy(&mut s, 200, false, true), PolicyOutcome::Restart { backoff_ms: 20 });
    assert_eq!(apply_policy(&mut s, 300, false, true), PolicyOutcome::Stop { critical_failure: false });
    assert_eq!(s.status, Status::Failed);
    assert_eq!(s.restart_times, vec![100, 200]);
}

#[test]
fn clean_exit_of_an_on_failure_service_terminates_it() {
    let mut s = service_state(cfg("fs", &[], &[], Restart::OnFailure, 2), 0, [0, 0]);
    assert_eq!(apply_policy(&mut s, 100, true, false), PolicyOutcome::Stop { critical_failure: false });
    assert_eq!(s.status, Status::Terminated);
}

#[test]
fn critical_failure_is_reported() {
    let mut c = cfg("console", &[], &[], Restart::Never, 2);
    c.critical = true;
    let mut s = service_state(c, 0, [0, 0]);
    assert_eq!(apply_policy(&mut s, 1, false, false), PolicyOutcome::Stop { critical_failure: true });
}

#[test]
fn forced_restart_counts_and_fails_past_the_budget() {
    let mut s = service_state(cfg("app", &[], &[], Restart::Always, 1), 0, [0, 0]);
    record_forced_restart(&mut s, 10);
    assert_eq!(s.status, Status::Waiting);
    record_forced_restart(&mut s, 20);
    assert_eq!(s.status, Status::Failed);
    assert_eq!(s.restarts, 2);
}

#[test]
fn dependency_bookkeeping() {
    let mut services = table(vec![
        cfg("block", &[], &[], Restart::Always, 3),
        cfg("fs", &["block"], &[], Restart::Always, 3),
        cfg("appmgr", &["fs"], &[], Restart::Always, 3),
        cfg("mysh", &["fs", "block"], &[], Restart::Always, 3),
    ]);
    assert_eq!(dependents_of(&services, 0), vec![1, 3]);
    assert_eq!(dependents_of(&services, 1), vec![2, 3]);
    assert!(ready_to_start(&services, 0));
    assert!(!ready_to_start(&services, 1));
    services[0].status = Status::Running;
    assert!(ready_to_start(&services, 1));
    assert!(!ready_to_start(&services, 0));
    assert!(needs_stop(Status::Starting));
    assert!(needs_stop(Status::Running));
    assert!(!needs_stop(Status::Waiting));
    assert!(!all_failed(&services));
    for s in services.iter_mut() {
        s.status = Status::Failed;
    }
    assert!(all_failed(&services));
    assert!(!all_failed(&Vec::new()));
}

#[test]
fn spawn_caps_grant_devices_dependencies_and_irqs() {
    let mut services = table(vec![
        cfg("block", &[], &["virtio-mmio-0"], Restart::Always, 3),
        cfg("fs", &["block"], &[], Restart::Always, 3),
    ]);
    services[0].irq_masters = [171, 0];
    let caps = spawn_caps(&services, 0, 50, 9).unwrap();
    assert_eq!(caps[0], ChildCap { slot: 140, source: 142, badge: 1 });
    assert_eq!(caps[1], ChildCap { slot: 51, source: 50, badge: 0 });
    assert_eq!(caps[2], ChildCap { slot: 32, source: 5000, badge: 0 });
    assert_eq!(caps[3], ChildCap { slot: 6, source: 9, badge: 0 });
    assert_eq!(caps[4], ChildCap { slot: 52, source: 5004, badge: 0 });
    assert_eq!(caps[5], ChildCap { slot: 33, source: 170, badge: 0 });
    assert_eq!(caps[6], ChildCap { slot: 56, source: 5002, badge: 0 });
    assert_eq!(caps.len(), 7);
    let caps = spawn_caps(&services, 1, 50, 9).unwrap();
    assert_eq!(caps[5], ChildCap { slot: 53, source: 5004, badge: 0 });
    assert_eq!(caps.len(), 6);
}

#[test]
fn spawn_caps_refuse_a_missing_dependency() {
    let services = table(vec![cfg("fs", &["block"], &[], Restart::Always, 3)]);
    assert!(spawn_caps(&services, 0, 50, 9).is_none());
}

#[test]
fn log_line_round_trips_through_the_message() {
    let mut words = [0u64; 16];
    let used = pack(b"hello, logger", FLAG_CONSOLE, &mut words);
    assert_eq!(used, 4);
    assert_eq!(words[0], 13);
    assert_eq!(words[1], FLAG_CONSOLE);
    let line = unpack(&words, 13);
    assert_eq!(&line[..13], b"hello, logger");
    assert!(line[13..].iter().all(|b| *b == 0));
}

#[test]
fn long_log_lines_are_cut() {
    let long = [b'x'; 200];
    let mut words = [0u64; 16];
    let used = pack(&long, 0, &mut words);
    assert_eq!(words[0], MAX_LINE as u64);
    assert_eq!(used, 2 + MAX_LINE / 8);
}

#[test]
fn pack_words_puts_the_count_first() {
    let words = pack_words(b"abcdefghi");
    assert_eq!(words[0], 9);
    assert_eq!(words[1], u64::from_le_bytes(*b"abcdefgh"));
    assert_eq!(words[2], b'i' as u64);
    assert_eq!(words[3], 0);
}

#[test]
fn post_log_joins_prefix_and_name() {
    let post = post_log(true, FLAG_CRASH_DRILL, "[init] service started", "fs");
    assert_eq!(post.words[0], 26);
    assert_eq!(post.words[1], FLAG_CRASH_DRILL | FLAG_CONSOLE);
    let line = unpack(&post.words, 26);
    assert_eq!(&line[..26], b"[init] service started: fs");
    assert_eq!(post.length, 2 + 4);
    let quiet = post_log(false, 0, "a", "b");
    assert_eq!(quiet.words[1], 0);
}

fn chain() -> Supervisor {
    let services = table(vec![
        cfg("console", &[], &[], Restart::Always, 3),
        cfg("block", &[], &[], Restart::Always, 3),
        cfg("fs", &["block"], &[], Restart::Always, 3),
        cfg("appmgr", &["fs"], &[], Restart::Always, 3),
    ]);
    Supervisor::new(services, false, false)
}

#[test]
fn supervisor_starts_services_whose_dependencies_run() {
    let mut sup = chain();
    assert!(sup.startable(0));
    assert!(sup.startable(1));
    assert!(!sup.startable(2));
    sup.spawned(1, true);
    assert_eq!(sup.services[1].status, Status::Starting);
    assert!(!sup.startable(2));
    let r = sup.on_message(2, Message::Ready, 0);
    assert!(matches!(r, Reaction::Started { index: 1, early_reply: false, log_first: true, settle_ms: 0, flags: 0, via_console: false }));
    assert_eq!(sup.services[1].status, Status::Running);
    assert!(sup.startable(2));
    sup.spawned(3, false);
    assert_eq!(sup.services[3].status, Status::Failed);
}

#[test]
fn console_ready_switches_logging_to_the_console() {
    let mut sup = chain();
    sup.spawned(0, true);
    let r = sup.on_message(1, Message::Ready, 0);
    assert!(matches!(r, Reaction::Started { index: 0, via_console: true, .. }));
    assert!(sup.console_running);
    let r = sup.on_message(1, Message::Exit { code: 3 }, 50);
    assert!(matches!(r, Reaction::Terminated { via_console: false, .. }));
    assert!(!sup.console_running);
}

#[test]
fn supervisor_ignores_strangers_and_rebuilds_its_logger() {
    let mut sup = chain();
    assert!(matches!(sup.on_message(0x8000, Message::Ready, 0), Reaction::RebuildLogger));
    assert!(matches!(sup.on_message(9, Message::Ready, 0), Reaction::Ignore));
    assert!(matches!(sup.on_message(0, Message::Ready, 0), Reaction::Ignore));
    assert!(matches!(sup.on_message(1, Message::Report, 0), Reaction::Reply));
    assert_eq!(sup.services[0].status, Status::Waiting);
}

#[test]
fn lost_dependency_restarts_its_live_dependents() {
    let mut sup = chain();
    for i in 0..4 {
        sup.spawned(i, true);
        sup.on_message(i as u64 + 1, Message::Ready, 0);
    }
    let r = sup.on_message(2, Message::Other { label: 2 }, 500);
    match r {
        Reaction::Terminated { teardown, drill_result, .. } => {
            assert_eq!(teardown.index, 1);
            assert!(teardown.crashed);
            assert!(!teardown.graceful);
            assert_eq!(teardown.notified, vec![2]);
            assert_eq!(teardown.stopped, vec![2]);
            assert_eq!(teardown.outcome, PolicyOutcome::Restart { backoff_ms: 10 });
            assert!(!drill_result);
        }
        _ => panic!("expected a teardown"),
    }
    assert_eq!(sup.services[1].status, Status::Waiting);
    assert_eq!(sup.services[2].status, Status::Waiting);
    assert_eq!(sup.services[2].restarts, 1);
    assert_eq!(sup.services[3].status, Status::Running);
}

#[test]
fn drill_build_replies_before_logging_and_arms_the_console_drill() {
    let services = table(vec![cfg("console", &[], &[], Restart::Always, 3)]);
    let mut sup = Supervisor::new(services, true, false);
    sup.spawned(0, true);
    let r = sup.on_message(1, Message::Ready, 0);
    assert!(matches!(r, Reaction::Started { log_first: false, settle_ms: 100, flags: FLAG_CRASH_DRILL, .. }));
    assert!(sup.drill_armed);
    let r = sup.on_message(1, Message::Other { label: 1 }, 10);
    assert!(matches!(r, Reaction::Terminated { drill_result: true, .. }));
    assert!(!sup.drill_armed);
    let r = sup.on_message(1, Message::Ready, 20);
    assert!(matches!(r, Reaction::Started { flags: FLAG_CRASH_SELF, .. }));
    assert!(sup.logger_drill_armed);
}

#[test]
fn crash_drill_reaps_fs_once_appmgr_runs() {
    let services = table(vec![
        cfg("block", &[], &[], Restart::Always, 3),
        cfg("fs", &["block"], &[], Restart::Always, 3),
        cfg("appmgr", &["fs"], &[], Restart::Always, 3),
    ]);
    let mut sup = Supervisor::new(services, false, true);
    for i in 0..3 {
        sup.spawned(i, true);
    }
    sup.on_message(1, Message::Ready, 0);
    sup.on_message(2, Message::Ready, 0);
    let r = sup.on_message(3, Message::Ready, 0);
    match r {
        Reaction::CrashDrill { teardown, .. } => {
            assert_eq!(teardown.index, 1);
            assert_eq!(teardown.stopped, vec![2]);
        }
        _ => panic!("expected the crash drill"),
    }
    assert!(sup.drilled);
    assert_eq!(sup.services[2].status, Status::Waiting);
    let r = sup.on_message(3, Message::Ready, 0);
    assert!(matches!(r, Reaction::Started { early_reply: false, .. }));
}

#[test]
fn supervisor_counts_fit() {
    let mut sup = chain();
    assert!(sup.counts_fit());
    sup.services[2].restarts = u32::MAX;
    assert!(!sup.counts_fit());
}

#[test]
fn log_lines_show_as_text_or_as_binary() {
    assert_eq!(line_str(b"fs up\xff", 5), "fs up");
    assert_eq!(line_str(b"fs up\xff", 6), "<binary log>");
    assert_eq!(line_str(b"", 0), "");
}

#[test]
fn logger_thread_reads_posts() {
    assert_eq!(post_action(5, 1), PostAction { count: 5, to_console: true, crash_drill: false, crash_self: false });
    assert_eq!(post_action(500, 6), PostAction { count: 96, to_console: false, crash_drill: true, crash_self: true });
    assert_eq!(write_chunks(0), vec![]);
    assert_eq!(write_chunks(96), vec![(0, 96)]);
    assert_eq!(write_chunks(250), vec![(0, 120), (120, 240), (240, 250)]);
    assert_eq!(write_chunks(240), vec![(0, 120), (120, 240)]);
    assert!(drill_failed(None));
    assert!(drill_failed(Some(1)));
    assert!(!drill_failed(Some(0)));
}

#[test]
fn configured_devices_must_be_known() {
    assert!(devices_known(&vec!["uart0".to_string(), "virtio-mmio-2".to_string()]));
    assert!(devices_known(&Vec::new()));
    assert!(!devices_known(&vec!["uart0".to_string(), "disk".to_string()]));
}

#[test]
fn service_extra_names_the_child_slots() {
    let s = service_state(cfg("fs", &["blk", "gpu"], &["virtio-mmio-1"], Restart::Always, 3), 1, [9, 0]);
    let extra = service_extra(&s);
    assert_eq!(extra.len(), EXTRA_LEN);
    assert_eq!(extra[CONSOLE_EP], 51);
    assert_eq!(extra[DEVICE_SLOT], 33);
    assert_eq!(extra[SELF_EP], 52);
    assert_eq!(extra[DEVICE_COUNT], 1);
    assert_eq!(extra[DEP_COUNT], 2);
    assert_eq!(extra[DEP_EP_BASE], 53);
    assert_eq!(extra[DEP_EP_BASE + 1], 54);
    assert_eq!(extra[DEP_EP_BASE + 2], 0);
    assert_eq!(extra[IRQ_SLOT], 56);
    assert_eq!(extra[IRQ_SLOT2], 0);
}

#[test]
fn init_extra_carries_boot_facts() {
    let extra = init_extra(161, 2, true, 3, 800, 4);
    assert_eq!(extra[DEVICE_SLOT], 161);
    assert_eq!(extra[DEVICE_COUNT], 2);
    assert_eq!(extra[BOOT_TEST], 1);
    assert_eq!(extra[RESTARTS], 3);
    assert_eq!(extra[IRQ_SLOT], 800);
    assert_eq!(extra[IRQ_SLOT2], 4);
    assert_eq!(extra[0], 0);
}
