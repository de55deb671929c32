use rstiny_core::gpu::pixels::pack_event;
use rstiny_core::gui::args::Args;
use rstiny_core::gui::buffer::Buffer;
use rstiny_core::gui::calc::Calc;
use rstiny_core::gui::keys::{digit_char, key_char, keypad, u32_to_str};
use rstiny_core::gui::panel::{button_rect, hits_shutdown};
use rstiny_core::gui::scene::{
    bar_band, bar_span, batch_starts, is_key_press, line_label, scene_of, unpack_event, Event, Scene,
};
use rstiny_core::gui::wm::{Effect, Wm, WmEvent};

fn key(code: u64, value: u64) -> u64 {
    (1 << 63) | (1 << 40) | (code << 24) | (value & 0xFF_FFFF)
}

fn rel(code: u64, value: i32) -> u64 {
    (1 << 63) | (2 << 40) | (code << 24) | ((value as u32 as u64) & 0xFF_FFFF)
}

#[test]
fn args_keep_the_first_values() {
    let mut a: Args<2> = Args::new();
    assert!(a.is_empty());
    assert_eq!(a.first(), Some(""));
    a.push("keys");
    a.push("5");
    a.push("dropped");
    assert!(!a.is_empty());
    assert_eq!(a.first(), Some("keys"));
    assert_eq!(a.get(1), Some("5"));
    assert_eq!(a.get(2), None);
}

#[test]
fn buffer_push_then_pop_undoes() {
    let mut b = Buffer::new();
    assert!(b.push(b'h'));
    assert!(b.push(b'i'));
    assert_eq!(b.len(), 2);
    assert_eq!(b.as_str(), "hi");
    assert!(b.pop());
    assert_eq!(b.as_str(), "h");
    assert!(b.pop());
    assert!(!b.pop());
    assert_eq!(b.len(), 0);
}

#[test]
fn buffer_text_is_checked_utf8() {
    let mut b = Buffer::new();
    b.push(0xC3);
    b.push(0xA9);
    assert_eq!(b.as_str(), "é");
    b.pop();
    assert_eq!(b.as_str(), "");
}

#[test]
fn buffer_fills_up() {
    let mut b = Buffer::new();
    let mut pushed = 0;
    while b.push(b'x') {
        pushed += 1;
    }
    assert_eq!(pushed, 192);
    assert_eq!(b.byte_at(191), b'x');
}

#[test]
fn calculator_arithmetic() {
    let mut c = Calc::new();
    for k in b"12+30=" {
        assert!(c.push(*k));
    }
    assert_eq!(c.display(), 42);
    let mut c = Calc::new();
    for k in b"12+3*2=" {
        c.push(*k);
    }
    assert_eq!(c.display(), 30);
    assert!(!c.push(b'x'));
    let mut d = Calc::new();
    for k in b"9+0/0=" {
        d.push(*k);
    }
    assert_eq!(d.display(), 9);
    let mut e = Calc::new();
    for k in b"5-9=" {
        e.push(*k);
    }
    assert_eq!(e.display(), 0);
    let mut f = Calc::new();
    for k in b"99999999999" {
        f.push(*k);
    }
    assert_eq!(f.display(), u32::MAX);
}

#[test]
fn calculator_evaluates_left_to_right() {
    let mut c = Calc::new();
    for k in b"6*7=" {
        c.push(*k);
    }
    assert_eq!(c.display(), 42);
    let mut d = Calc::new();
    for k in b"8-3" {
        d.push(*k);
    }
    assert!(d.push(b'='));
    assert_eq!(d.display(), 5);
}

#[test]
fn keys_map_to_characters() {
    assert_eq!(key_char(2), Some('1'));
    assert_eq!(key_char(11), Some('0'));
    assert_eq!(key_char(16), Some('q'));
    assert_eq!(key_char(30), Some('a'));
    assert_eq!(key_char(44), Some('z'));
    assert_eq!(key_char(50), Some('m'));
    assert_eq!(key_char(57), Some(' '));
    assert_eq!(key_char(100), None);
    assert_eq!(u32_to_str(0), b"0".to_vec());
    assert_eq!(u32_to_str(4294967295), b"4294967295".to_vec());
    assert!(keypad(200).is_none());
    assert!(digit_char(300).is_none());
}

#[test]
fn shutdown_button_sits_at_the_right_of_the_bar() {
    assert_eq!(button_rect(800), (736, 3, 56, 16));
    assert!(hits_shutdown(800, 736, 3));
    assert!(hits_shutdown(800, 791, 18));
    assert!(!hits_shutdown(800, 792, 10));
    assert!(!hits_shutdown(800, 735, 10));
    assert!(!hits_shutdown(800, 740, 19));
}

#[test]
fn desktop_starts_with_the_calculator_focused() {
    let wm = Wm::new(800, 600, 16);
    assert_eq!(wm.focused(), 0);
    assert_eq!(wm.cursor_position(), (400, 300));
    assert!(!wm.exit_requested());
    assert_eq!(wm.calc_value(), 0);
    assert_eq!(wm.window(0).x, 40);
    assert_eq!(wm.window(1).y, 120);
}

#[test]
fn desktop_keys_drive_the_calculator_and_editor() {
    let mut wm = Wm::new(800, 600, 16);
    assert_eq!(wm.handle(key(4, 1)), (Effect::Redraw, WmEvent::CalcShown(3)));
    assert_eq!(wm.handle(key(4, 0)), (Effect::Unchanged, WmEvent::Quiet));
    assert_eq!(wm.handle(key(15, 1)), (Effect::Redraw, WmEvent::Focused(1)));
    assert_eq!(wm.handle(key(35, 1)), (Effect::Redraw, WmEvent::EditShown));
    assert_eq!(wm.handle(key(23, 1)), (Effect::Redraw, WmEvent::EditShown));
    assert_eq!(wm.edit_buffer().as_str(), "hi");
    assert_eq!(wm.handle(key(14, 1)), (Effect::Redraw, WmEvent::EditShown));
    assert_eq!(wm.edit_buffer().as_str(), "h");
    assert_eq!(wm.handle(key(106, 1)), (Effect::Redraw, WmEvent::Moved { window: 1, x: 308, y: 120 }));
    assert_eq!(wm.handle(key(1, 1)), (Effect::Unchanged, WmEvent::Quiet));
    assert!(wm.exit_requested());
    assert_eq!(wm.handle(0), (Effect::Unchanged, WmEvent::Quiet));
}

#[test]
fn desktop_pointer_drags_and_shuts_down() {
    let mut wm = Wm::new(800, 600, 16);
    assert_eq!(wm.handle(rel(0, -340)), (Effect::Redraw, WmEvent::Quiet));
    assert_eq!(wm.handle(rel(1, -235)), (Effect::Redraw, WmEvent::Quiet));
    assert_eq!(wm.cursor_position(), (60, 65));
    assert_eq!(wm.handle(key(272, 1)), (Effect::Redraw, WmEvent::Focused(0)));
    assert_eq!(wm.handle(rel(0, 10)), (Effect::Redraw, WmEvent::Moved { window: 0, x: 50, y: 60 }));
    assert_eq!(wm.handle(key(272, 0)), (Effect::Redraw, WmEvent::Quiet));
    assert_eq!(wm.handle(rel(0, 10)), (Effect::Redraw, WmEvent::Quiet));
    assert_eq!(wm.handle(rel(0, 670)), (Effect::Redraw, WmEvent::Quiet));
    assert_eq!(wm.handle(rel(1, -55)), (Effect::Redraw, WmEvent::Quiet));
    assert_eq!(wm.cursor_position(), (750, 10));
    assert_eq!(wm.handle(key(272, 1)), (Effect::Unchanged, WmEvent::Shutdown));
}

#[test]
fn scenes_by_name() {
    assert_eq!(scene_of(b"bars", None), Scene::Bars);
    assert_eq!(scene_of(b"text", None), Scene::Text);
    assert_eq!(scene_of(b"scroll", None), Scene::Scroll);
    assert_eq!(scene_of(b"wm", None), Scene::Wm);
    assert_eq!(scene_of(b"keys", Some(b"5")), Scene::Keys { expected: 5 });
    assert_eq!(scene_of(b"keys", Some(b"five")), Scene::Keys { expected: 3 });
    assert_eq!(scene_of(b"keys", None), Scene::Keys { expected: 3 });
    assert_eq!(scene_of(b"Bars", None), Scene::Unknown);
}

#[test]
fn lease_batches_cover_the_framebuffer() {
    assert_eq!(batch_starts(10, 4), vec![0, 4, 8]);
    assert_eq!(batch_starts(8, 4), vec![0, 4]);
    assert!(batch_starts(0, 4).is_empty());
}

#[test]
fn colour_bars_tile_the_width() {
    let mut next = 0;
    for i in 0..8 {
        let (left, width) = bar_span(i, 1001);
        assert_eq!(left, next);
        next = left + width;
    }
    assert_eq!(next, 1001);
    assert_eq!(bar_band(600), (75, 450));
}

#[test]
fn input_events_round_trip() {
    let w = pack_event(1, 30, 1);
    assert_eq!(unpack_event(w), Event { kind: 1, code: 30, value: 1 });
    assert!(is_key_press(unpack_event(w)));
    assert!(!is_key_press(unpack_event(pack_event(1, 30, 0))));
    assert!(!is_key_press(unpack_event(pack_event(2, 0, 1))));
    assert_eq!(unpack_event(pack_event(3, 4, 0xABCD_EF12)), Event { kind: 3, code: 4, value: 0xCD_EF12 });
}

#[test]
fn scroll_labels() {
    assert_eq!(&line_label(7), b"LINE 07");
    assert_eq!(&line_label(19), b"LINE 19");
}

#[test]
fn esc_press_requests_exit_and_release_does_not() {
    let mut wm = Wm::new(640, 480, 16);
    wm.handle(0x8000_0100_0100_0000);
    assert!(!wm.exit_requested());
    wm.handle(0x8000_0100_0100_0001);
    assert!(wm.exit_requested());
}

#[test]
fn exit_request_stays_once_set() {
    let mut wm = Wm::new(640, 480, 16);
    for word in [key(4, 1), key(1, 0), key(15, 1)] {
        wm.handle(word);
        assert!(!wm.exit_requested());
    }
    wm.handle(key(1, 2));
    assert!(wm.exit_requested());
    for word in [key(4, 1), key(1, 0), 0] {
        wm.handle(word);
        assert!(wm.exit_requested());
    }
}
