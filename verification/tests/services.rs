use rstiny_core::spawn_info::{app_extra, EXTRA_LEN};
use rstiny_core::apps::{
    app_badge, app_caps, app_for_badge, bump, fs_name_words, image_fits, new_app, AppOutcome, AppState,
};
use rstiny_core::block::{completion, BlockError, BlockServer, Completion};
use rstiny_core::boot::{
    budget_source, device_regions, init_caps, lines_of_kind, rom_tables, rom_window, InitWatch, Region,
};
use rstiny_core::console::{console_putchar, console_write, to_terminal, ConsoleWrite};
use rstiny_core::gpu::dma::{retype_chunks, HalImpl, Reservation};
use rstiny_core::gpu::lease::{batch_caps, batch_matches, rect_inside, LeaseError, LeaseTable, CAPS_PER_BATCH};
use rstiny_core::gpu::pixels::{color_word, pack_event, word_sum};
use rstiny_core::init::config::{Restart, ServiceCfg};
use rstiny_core::init::spawn::ChildCap;
use rstiny_core::logging::{log_line, colors, enabled, level_from_name, ColorCode, Level, LevelFilter, LogGuard};
use rstiny_core::sync::{run, SingleCore};

#[test]
fn lease_hands_out_batches_in_order_and_takes_them_back() {
    let mut t = LeaseTable::new();
    assert_eq!(t.can_lease(), Ok(()));
    t.leased(9, 8);
    assert_eq!(t.can_lease(), Err(LeaseError::Busy));
    assert_eq!(t.check_batch(3, 4), Err(LeaseError::NotHolder));
    assert_eq!(t.check_batch(9, 0), Err(LeaseError::OutOfOrder));
    assert_eq!(t.check_batch(9, 4), Ok(()));
    t.batch_sent(4);
    assert_eq!(t.lease.unwrap().next_page, 8);
    assert_eq!(t.check_flush(9, 0, 0, 800, 600, 800, 600), Ok(()));
    assert_eq!(t.check_flush(9, 0, 0, 801, 600, 800, 600), Err(LeaseError::Outside));
    assert_eq!(t.check_flush(3, 0, 0, 1, 1, 800, 600), Err(LeaseError::NotHolder));
    assert_eq!(t.release(9, 4, true), Err(LeaseError::OutOfOrder));
    assert_eq!(t.release(9, 0, false), Err(LeaseError::Foreign));
    assert_eq!(t.release(9, 0, true), Ok(4));
    assert!(t.lease.is_some());
    assert_eq!(t.release(9, 4, true), Ok(0));
    assert!(t.lease.is_none());
    assert_eq!(t.release(9, 8, true), Err(LeaseError::NotLeased));
    assert_eq!(t.check_flush(9, 0, 0, 1, 1, 800, 600), Err(LeaseError::NotLeased));
}

#[test]
fn flush_rectangles() {
    assert!(rect_inside(0, 0, 1, 1, 1, 1));
    assert!(!rect_inside(0, 0, 0, 1, 10, 10));
    assert!(!rect_inside(10, 0, 1, 1, 10, 10));
    assert!(!rect_inside(5, 5, 6, 1, 10, 10));
    assert!(!rect_inside(1, 1, u64::MAX, 1, 10, 10));
}

#[test]
fn batch_capabilities() {
    assert_eq!(batch_caps(300, 8), vec![308, 309, 310, 311]);
    assert_eq!(CAPS_PER_BATCH, 4);
    assert!(batch_matches(0x1000_0000, 4, &[0x1000_4000, 0x1000_5000, 0x1000_6000, 0x1000_7000]));
    assert!(!batch_matches(0x1000_0000, 4, &[0x1000_4000, 0x1000_5000, 0x1000_6000, 0x1000_8000]));
}

#[test]
fn pixels_and_checksums() {
    assert_eq!(color_word(0x12, 0x34, 0x56), 0xFF12_3456);
    assert_eq!(color_word(0, 0, 0), 0xFF00_0000);
    assert_eq!(word_sum(&[1, 0, 0, 0, 2, 0, 0, 0, 9]), 3);
    assert_eq!(word_sum(&[0xFF, 0xFF, 0xFF, 0xFF, 2, 0, 0, 0]), 1);
    assert_eq!(word_sum(&[]), 0);
    assert_eq!(pack_event(1, 30, 1), (1 << 63) | (1 << 40) | (30 << 24) | 1);
}

#[test]
fn dma_frames_come_in_order_and_are_logged() {
    let mut h = HalImpl::new();
    assert_eq!(h.reserve(0), None);
    let r = h.reserve(3).unwrap();
    assert_eq!(r, Reservation { slot: 200, vaddr: 0x0400_8000 });
    h.commit(r, 3);
    let r = h.reserve(300).unwrap();
    assert_eq!(r, Reservation { slot: 203, vaddr: 0x0400_8000 + 3 * 0x1000 });
    h.commit(r, 300);
    assert_eq!(h.find_allocation(300), Some((203, 0x0400_B000, 300 * 0x1000)));
    assert_eq!(h.find_allocation(3), Some((200, 0x0400_8000, 3 * 0x1000)));
    assert_eq!(h.find_allocation(7), None);
    assert_eq!(h.reserve(210), None);
    assert!(h.reserve(209).is_some());
}

#[test]
fn retype_calls_are_chunked() {
    assert_eq!(retype_chunks(200, 70), vec![(200, 32), (232, 32), (264, 6)]);
    assert_eq!(retype_chunks(200, 32), vec![(200, 32)]);
    assert!(retype_chunks(200, 0).is_empty());
}

fn cfg(restart: Restart, max_restarts: u32) -> ServiceCfg {
    ServiceCfg {
        name: "hello".to_string(),
        elf: "HELLO".to_string(),
        depends: Vec::new(),
        devices: Vec::new(),
        restart,
        max_restarts,
        window_ms: 1000,
        backoff_ms: 0,
        budget_bits: 20,
        critical: false,
    }
}

#[test]
fn bump_pool_aligns_and_runs_out() {
    assert_eq!(bump(64, 0, 10, 1), Some((0, 10)));
    assert_eq!(bump(64, 10, 4, 4), Some((16, 20)));
    assert_eq!(bump(64, 20, 8, 32), Some((32, 40)));
    assert_eq!(bump(64, 40, 25, 8), None);
    assert_eq!(bump(64, 40, 24, 8), Some((40, 64)));
    assert_eq!(bump(64, 1, 1, 1 << 40), None);
}

#[test]
fn app_names_and_badges() {
    let words = fs_name_words(b"APPS.CFG").unwrap();
    assert_eq!(words, vec![8, u64::from_le_bytes(*b"APPS.CFG"), 0]);
    assert!(fs_name_words(b"").is_none());
    assert!(fs_name_words(&[b'a'; 17]).is_none());
    assert_eq!(fs_name_words(&[b'b'; 16]).unwrap()[2], u64::from_le_bytes([b'b'; 8]));
    assert_eq!(app_badge(2), 3);
    assert_eq!(app_for_badge(4, 3), Some(2));
    assert_eq!(app_for_badge(4, 0), None);
    assert_eq!(app_for_badge(4, 5), None);
    assert!(image_fits(256 * 1024));
    assert!(!image_fits(256 * 1024 + 1));
}

#[test]
fn app_capabilities() {
    let caps = app_caps(1, 52, 51, 78, 6);
    assert_eq!(
        caps,
        vec![
            ChildCap { slot: 140, source: 52, badge: 2 },
            ChildCap { slot: 51, source: 51, badge: 0 },
            ChildCap { slot: 32, source: 78, badge: 0 },
            ChildCap { slot: 6, source: 6, badge: 0 },
        ]
    );
}

#[test]
fn app_restart_policy() {
    let mut app = new_app(cfg(Restart::OnFailure, 1), 1);
    assert_eq!(app.budget_slot, 78);
    app.ready();
    assert_eq!(app.state, AppState::Running);
    assert_eq!(app.terminated(100, true), AppOutcome::Stopped);
    assert_eq!(app.state, AppState::Terminated);
    let mut app = new_app(cfg(Restart::OnFailure, 1), 0);
    assert_eq!(app.terminated(100, false), AppOutcome::Reload { backoff_ms: 0 });
    app.respawned(true);
    assert_eq!(app.state, AppState::Starting);
    assert_eq!(app.restarts, 1);
    assert_eq!(app.terminated(200, false), AppOutcome::Stopped);
    assert_eq!(app.state, AppState::Failed);
    assert_eq!(app.terminated(5000, false), AppOutcome::Reload { backoff_ms: 0 });
    app.respawned(false);
    assert_eq!(app.state, AppState::Failed);
}

#[test]
fn block_binding_and_reads() {
    let mut b = BlockServer::new();
    assert_eq!(b.check_read(1, 1), Err(BlockError::NotBound));
    assert_eq!(b.check_bind(2, 100), Err(BlockError::Version));
    assert_eq!(b.check_bind(1, 100), Ok(vec![1, 100, 512]));
    b.bind(4);
    assert_eq!(b.check_read(4, 0), Err(BlockError::Count));
    assert_eq!(b.check_read(4, 9), Err(BlockError::Count));
    assert_eq!(b.check_read(4, 8), Ok(4096));
    assert_eq!(b.check_read(5, 1), Err(BlockError::NotBound));
    assert_eq!(completion(3, None), Completion::Pending);
    assert_eq!(completion(3, Some(3)), Completion::Done);
    assert_eq!(completion(3, Some(4)), Completion::WrongToken);
}

#[test]
fn root_task_boot_decisions() {
    let regions = [
        Region { is_device: false, size_bits: 12 },
        Region { is_device: true, size_bits: 14 },
        Region { is_device: false, size_bits: 26 },
        Region { is_device: true, size_bits: 12 },
    ];
    assert_eq!(device_regions(&regions, 10), Some(vec![11, 13]));
    assert_eq!(budget_source(&regions, 10, 12), None);
    assert_eq!(budget_source(&regions, 10, 3), Some(12));
    let many = [Region { is_device: true, size_bits: 12 }; 5];
    assert_eq!(device_regions(&many, 10), None);
    assert_eq!(lines_of_kind(&[1, 2, 1, 1], 1), 3);
    assert_eq!(lines_of_kind(&[], 1), 0);
}

#[test]
fn init_gets_devices_irqs_and_the_archive() {
    let caps = init_caps(2, 1, 3, 6, 1000);
    assert_eq!(caps.len(), 3 + 2 + 1 + 3);
    assert_eq!(caps[0], ChildCap { slot: 140, source: 130, badge: 1 });
    assert_eq!(caps[3], ChildCap { slot: 161, source: 161, badge: 0 });
    assert_eq!(caps[5], ChildCap { slot: 800, source: 170, badge: 0 });
    assert_eq!(caps[8], ChildCap { slot: 202, source: 1002, badge: 0 });
    assert_eq!(init_caps(0, 0, 600, 6, 1000).len(), 3 + 512);
}

#[test]
fn init_restarts_are_bounded() {
    let mut w = InitWatch::new();
    for _ in 0..5 {
        assert!(w.ended());
    }
    assert!(!w.ended());
    let mut w = InitWatch::new();
    w.ended();
    w.ready();
    assert_eq!(w.restarts, 0);
}

#[test]
fn boot_archive_window() {
    assert_eq!(rom_window(0x0012_3456), Some(0x0040_0000));
    assert_eq!(rom_window(0x0020_0000), Some(0x0040_0000));
    assert_eq!(rom_window(0), Some(0x0020_0000));
    assert_eq!(rom_window(u64::MAX - 10), None);
    assert_eq!(rom_tables(0x0040_0000, 600), Some(vec![2, 3]));
    assert_eq!(rom_tables(0x07E0_0000, 600), None);
    assert_eq!(rom_tables(0x0040_0000, 0), Some(vec![]));
}

#[test]
fn console_write_requests() {
    let words = [5, u64::from_le_bytes(*b"hello\0\0\0")];
    match console_write(&words, 2) {
        ConsoleWrite::Bytes(b) => assert_eq!(b, b"hello".to_vec()),
        _ => panic!("bytes"),
    }
    assert!(matches!(console_write(&[9, 0], 2), ConsoleWrite::Refused));
    assert!(matches!(console_write(&[121], 17), ConsoleWrite::Refused));
    assert!(matches!(console_write(&[0xCAFE_BABE], 1), ConsoleWrite::Crash));
    match console_write(&[0], 1) {
        ConsoleWrite::Bytes(b) => assert!(b.is_empty()),
        _ => panic!("empty write"),
    }
}

#[test]
fn terminal_line_endings() {
    assert_eq!(to_terminal(b"a\nb\n"), b"a\r\nb\r\n".to_vec());
    assert_eq!(to_terminal(b""), Vec::<u8>::new());
    assert_eq!(console_putchar(b'\n' as usize), b"\r\n".to_vec());
    assert_eq!(console_putchar(0x141), b"A".to_vec());
}

#[test]
fn log_levels_and_colours() {
    assert_eq!(level_from_name(None), LevelFilter::Info);
    assert_eq!(level_from_name(Some(b"off")), LevelFilter::Off);
    assert_eq!(level_from_name(Some(b"error")), LevelFilter::Error);
    assert_eq!(level_from_name(Some(b"warn")), LevelFilter::Warn);
    assert_eq!(level_from_name(Some(b"debug")), LevelFilter::Debug);
    assert_eq!(level_from_name(Some(b"trace")), LevelFilter::Trace);
    assert_eq!(level_from_name(Some(b"verbose")), LevelFilter::Off);
    assert!(enabled(Level::Error, LevelFilter::Error));
    assert!(!enabled(Level::Warn, LevelFilter::Error));
    assert!(!enabled(Level::Error, LevelFilter::Off));
    assert!(enabled(Level::Trace, LevelFilter::Trace));
    assert_eq!(colors(Level::Warn), (ColorCode::BrightYellow, ColorCode::Yellow));
    assert_eq!(colors(Level::Trace), (ColorCode::BrightBlack, ColorCode::BrightBlack));
    assert_eq!(ColorCode::BrightCyan.code(), 96);
    assert_eq!(ColorCode::Red.escape(), b"\x1b[31m".to_vec());
}

#[test]
fn log_guard_lets_one_line_out_at_a_time() {
    let mut g = LogGuard::new();
    assert!(!g.begin(true));
    g.set_ready(true);
    assert!(!g.begin(false));
    assert!(g.begin(true));
    assert!(!g.begin(true));
    g.end();
    assert!(g.begin(true));
    g.end();
    g.hold();
    assert!(!g.begin(true));
}

#[test]
fn single_core_borrows() {
    assert!(run());
    let mut s = SingleCore::new(1u8);
    assert!(s.try_borrow_mut(true));
    assert!(!s.try_borrow_mut(true));
    s.set(5);
    assert_eq!(*s.get(), 5);
    s.release();
    assert!(s.try_borrow_mut(true));
}

#[test]
fn app_extra_holds_only_the_console() {
    let extra = app_extra();
    assert_eq!(extra.len(), EXTRA_LEN);
    assert_eq!(extra[0], 51);
    assert!(extra[1..].iter().all(|w| *w == 0));
}

#[test]
fn log_line_layout() {
    let line = log_line(Level::Info, Some(b"kernel/src/main.rs"), Some(42), b"hello");
    assert_eq!(line, b"[\x1b[92mINFO\x1b[0m kernel/src/main.rs:42] \x1b[32mhello\x1b[0m\n".to_vec());
    let unknown = log_line(Level::Trace, None, None, b"");
    assert_eq!(unknown, b"[\x1b[90mTRACE\x1b[0m ?:0] \x1b[90m\x1b[0m\n".to_vec());
    let error = log_line(Level::Error, Some(b"a.rs"), Some(7), b"x");
    assert_eq!(error, b"[\x1b[91mERROR\x1b[0m a.rs:7] \x1b[31mx\x1b[0m\n".to_vec());
}
