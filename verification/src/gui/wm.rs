//! The `wm` scene: a two-window desktop (a keypad calculator and a text
//! editor) driven by packed input events. Decisions only: the client draws
//! the desktop, logs the reported events and powers off on request.
use vstd::prelude::*;
use crate::gui::buffer::{Buffer, BUFFER_BYTES};
use crate::gui::calc::{Calc, calc_accepts, calc_display, calc_pushed};
use crate::gui::keys::{key_char, key_char_spec, keypad, keypad_spec, digit_char};
use crate::gui::panel::{BAR_H, hits_shutdown, hits_shutdown_spec};

verus! {

/// Window indices.
pub const CALC: usize = 0;
pub const EDIT: usize = 1;

pub const CALC_W: usize = 208;
pub const CALC_H: usize = 240;
pub const EDIT_W: usize = 320;
pub const EDIT_H: usize = 208;

/// Input event types (evdev) and codes.
pub const EV_KEY: u64 = 1;
pub const EV_REL: u64 = 2;
pub const REL_X: u64 = 0;
pub const BTN_LEFT: u64 = 272;
pub const MOVE_STEP: i32 = 8;

/// One desktop window's geometry.
#[derive(Clone, Copy)]
pub struct Win {
    pub x: i32,
    pub y: i32,
    pub w: usize,
    pub h: usize,
}

impl Win {
    /// The point lies in the window.
    pub open spec fn contains_spec(self, cx: i32, cy: i32) -> bool {
        self.x <= cx < self.x + (self.w as i32) && self.y <= cy < self.y + (self.h as i32)
    }

    /// The point lies in the window's title bar, `title_h` pixels high.
    pub open spec fn title_contains_spec(self, cx: i32, cy: i32, title_h: i32) -> bool {
        self.x <= cx < self.x + (self.w as i32) && self.y <= cy < self.y + title_h
    }

    pub fn contains(&self, cx: i32, cy: i32) -> (b: bool)
        ensures
            b == self.contains_spec(cx, cy),
    {
        let w = self.w as i32 as i64;
        let h = self.h as i32 as i64;
        cx as i64 >= self.x as i64 && (cx as i64) < self.x as i64 + w && cy as i64 >= self.y as i64
            && (cy as i64) < self.y as i64 + h
    }

    pub fn title_contains(&self, cx: i32, cy: i32, title_h: i32) -> (b: bool)
        ensures
            b == self.title_contains_spec(cx, cy, title_h),
    {
        let w = self.w as i32 as i64;
        cx as i64 >= self.x as i64 && (cx as i64) < self.x as i64 + w && cy as i64 >= self.y as i64
            && (cy as i64) < self.y as i64 + title_h as i64
    }
}

/// What the caller should do to the framebuffer after an input event.
#[derive(PartialEq, Eq, Structural, Debug)]
pub enum Effect {
    /// Nothing to redraw.
    Unchanged,
    Redraw,
}

/// What happened, for the client's log and power control.
#[derive(PartialEq, Eq, Structural, Debug)]
pub enum WmEvent {
    Quiet,
    /// A window moved to (x, y).
    Moved { window: usize, x: i32, y: i32 },
    /// A window took the focus.
    Focused(usize),
    /// The calculator now shows this value.
    CalcShown(u32),
    /// The editor text changed.
    EditShown,
    /// The shutdown button was clicked.
    Shutdown,
}

/// The desktop as the contracts see it.
pub struct Desktop {
    pub width: i32,
    pub title_h: i32,
    pub wins: Seq<Win>,
    pub focus: usize,
    pub cursor: (i32, i32),
    pub drag: Option<(usize, i32, i32)>,
    pub calc: Calc,
    pub edit: Seq<u8>,
    pub exit: bool,
}

/// The whole desktop state.
pub struct Wm {
    width: i32,
    title_h: i32,
    wins: Vec<Win>,
    focus: usize,
    cursor: (i32, i32),
    drag: Option<(usize, i32, i32)>,
    calc: Calc,
    edit: Buffer,
    exit: bool,
}

/// Half of `v`, rounded toward zero.
pub open spec fn half(v: i32) -> i32 {
    if v >= 0 {
        (v / 2) as i32
    } else {
        (-((-v) / 2)) as i32
    }
}

/// The event's parts: present bit, type, code and sign-extended 24-bit value.
pub open spec fn event_present(word: u64) -> bool {
    word / 0x8000_0000_0000_0000 != 0
}

pub open spec fn event_kind(word: u64) -> u64 {
    (word / 0x100_0000_0000) % 0x1_0000
}

pub open spec fn event_code(word: u64) -> u64 {
    (word / 0x100_0000) % 0x1_0000
}

pub open spec fn event_value(word: u64) -> i32 {
    let raw = word % 0x100_0000;
    if raw >= 0x80_0000 {
        (raw - 0x100_0000) as i32
    } else {
        raw as i32
    }
}

/// Printable ASCII other than space.
pub open spec fn is_ascii_graphic(c: char) -> bool {
    '!' <= c <= '~'
}

/// A window moved by (dx, dy), wrapping.
pub open spec fn moved(w: Win, dx: i32, dy: i32) -> Win {
    Win { x: w.x.wrapping_add(dx), y: w.y.wrapping_add(dy), ..w }
}

/// The calculator key of a keycode, keypad first.
pub open spec fn calc_key(code: u64) -> Option<u8> {
    match keypad_spec(code) {
        Some(k) => Some(k),
        None => if 2 <= code <= 10 {
            Some(('1' as u8 + code - 2) as u8)
        } else if code == 11 {
            Some('0' as u8)
        } else {
            None
        },
    }
}

/// The focused window moved by (dx, dy).
pub open spec fn move_focused_step(d: Desktop, dx: i32, dy: i32) -> (Desktop, Effect, WmEvent) {
    let win = moved(d.wins[d.focus as int], dx, dy);
    (
        Desktop { wins: d.wins.update(d.focus as int, win), ..d },
        Effect::Redraw,
        WmEvent::Moved { window: d.focus, x: win.x, y: win.y },
    )
}

/// A left click focuses the other window when it lies under the cursor;
/// a title bar under the cursor (the calculator's first) takes the focus and
/// starts a drag that remembers the grab offset.
pub open spec fn press_step(d: Desktop) -> (Desktop, Effect, WmEvent) {
    let (cx, cy) = d.cursor;
    let other = (1 - d.focus) as usize;
    let focus = if d.wins[other as int].contains_spec(cx, cy) {
        other
    } else {
        d.focus
    };
    if d.wins[0].title_contains_spec(cx, cy, d.title_h) {
        (
            Desktop { focus: 0, drag: Some((0, cx.wrapping_sub(d.wins[0].x), cy.wrapping_sub(d.wins[0].y))), ..d },
            Effect::Redraw,
            WmEvent::Focused(0),
        )
    } else if d.wins[1].title_contains_spec(cx, cy, d.title_h) {
        (
            Desktop { focus: 1, drag: Some((1, cx.wrapping_sub(d.wins[1].x), cy.wrapping_sub(d.wins[1].y))), ..d },
            Effect::Redraw,
            WmEvent::Focused(1),
        )
    } else {
        (Desktop { focus, ..d }, Effect::Redraw, WmEvent::Quiet)
    }
}

/// A key press on the keyboard (value non-zero).
pub open spec fn key_step(d: Desktop, code: u64) -> (Desktop, Effect, WmEvent) {
    if code == 103 {
        move_focused_step(d, 0, -8i32)
    } else if code == 105 {
        move_focused_step(d, -8i32, 0)
    } else if code == 106 {
        move_focused_step(d, MOVE_STEP, 0)
    } else if code == 108 {
        move_focused_step(d, 0, MOVE_STEP)
    } else if code == 15 {
        let f = (1 - d.focus) as usize;
        (Desktop { focus: f, ..d }, Effect::Redraw, WmEvent::Focused(f))
    } else if code == 1 {
        (Desktop { exit: true, ..d }, Effect::Unchanged, WmEvent::Quiet)
    } else if code == 14 {
        if d.focus == EDIT && d.edit.len() > 0 {
            (Desktop { edit: d.edit.drop_last(), ..d }, Effect::Redraw, WmEvent::EditShown)
        } else {
            (d, Effect::Unchanged, WmEvent::Quiet)
        }
    } else if d.focus == CALC {
        match calc_key(code) {
            Some(k) => if calc_accepts(k) {
                let c = calc_pushed(d.calc, k);
                (Desktop { calc: c, ..d }, Effect::Redraw, WmEvent::CalcShown(calc_display(c)))
            } else {
                (d, Effect::Unchanged, WmEvent::Quiet)
            },
            None => (d, Effect::Unchanged, WmEvent::Quiet),
        }
    } else {
        match key_char_spec((code % 256) as u8) {
            Some(ch) => if ch != '\n' && (code == 57 || is_ascii_graphic(ch)) {
                let edit = if d.edit.len() < BUFFER_BYTES {
                    d.edit.push(ch as u8)
                } else {
                    d.edit
                };
                (Desktop { edit, ..d }, Effect::Redraw, WmEvent::EditShown)
            } else {
                (d, Effect::Unchanged, WmEvent::Quiet)
            },
            None => (d, Effect::Unchanged, WmEvent::Quiet),
        }
    }
}

/// The desktop after one packed input event, what to redraw and what to report.
pub open spec fn step(d: Desktop, word: u64) -> (Desktop, Effect, WmEvent) {
    let kind = event_kind(word);
    let code = event_code(word);
    let value = event_value(word);
    if !event_present(word) {
        (d, Effect::Unchanged, WmEvent::Quiet)
    } else if kind == EV_REL {
        let dx = if code == REL_X { value } else { 0i32 };
        let dy = if code == REL_X { 0i32 } else { value };
        let cursor = (d.cursor.0.wrapping_add(dx), d.cursor.1.wrapping_add(dy));
        match d.drag {
            Some((w, _, _)) => {
                let win = moved(d.wins[w as int], dx, dy);
                (
                    Desktop { cursor, wins: d.wins.update(w as int, win), ..d },
                    Effect::Redraw,
                    WmEvent::Moved { window: w, x: win.x, y: win.y },
                )
            },
            None => (Desktop { cursor, ..d }, Effect::Redraw, WmEvent::Quiet),
        }
    } else if kind != EV_KEY {
        (d, Effect::Unchanged, WmEvent::Quiet)
    } else if code == BTN_LEFT {
        if value == 1 {
            if hits_shutdown_spec(d.width, d.cursor.0, d.cursor.1) {
                (d, Effect::Unchanged, WmEvent::Shutdown)
            } else if d.cursor.1 < BAR_H {
                (d, Effect::Redraw, WmEvent::Quiet)
            } else {
                press_step(d)
            }
        } else {
            (Desktop { drag: None, ..d }, Effect::Redraw, WmEvent::Quiet)
        }
    } else if value == 0 {
        (d, Effect::Unchanged, WmEvent::Quiet)
    } else {
        key_step(d, code)
    }
}

impl Wm {
    pub open spec fn width(&self) -> i32 {
        self@.width
    }

    pub open spec fn title_h(&self) -> i32 {
        self@.title_h
    }

    pub open spec fn wins(&self) -> Seq<Win> {
        self@.wins
    }

    pub open spec fn focus(&self) -> usize {
        self@.focus
    }

    pub open spec fn cursor(&self) -> (i32, i32) {
        self@.cursor
    }

    pub open spec fn drag(&self) -> Option<(usize, i32, i32)> {
        self@.drag
    }

    pub open spec fn calc(&self) -> Calc {
        self@.calc
    }

    pub open spec fn edit(&self) -> Seq<u8> {
        self@.edit
    }

    pub open spec fn exit(&self) -> bool {
        self@.exit
    }

    pub closed spec fn view(&self) -> Desktop {
        Desktop {
            width: self.width,
            title_h: self.title_h,
            wins: self.wins@,
            focus: self.focus,
            cursor: self.cursor,
            drag: self.drag,
            calc: self.calc,
            edit: self.edit@,
            exit: self.exit,
        }
    }

    pub closed spec fn wf(&self) -> bool {
        &&& self.width >= i32::MIN + 64
        &&& self.wins@.len() == 2
        &&& self.focus < 2
        &&& self.drag matches Some((w, _, _)) ==> w < 2
        &&& self.edit.wf()
    }

    /// The desktop at start: calculator focused, cursor centred, no exit
    /// request.
    pub fn new(width: i32, height: i32, title_h: i32) -> (wm: Self)
        requires
            width >= i32::MIN + 64,
        ensures
            wm.wf(),
            wm.width() == width,
            wm.title_h() == title_h,
            wm.wins() == seq![
                Win { x: 40, y: 60, w: CALC_W, h: CALC_H },
                Win { x: 300, y: 120, w: EDIT_W, h: EDIT_H },
            ],
            wm.focus() == CALC,
            wm.cursor() == (half(width), half(height)),
            wm.drag() is None,
            wm.calc() == (Calc { acc: 0, entry: 0, op: None }),
            wm.edit() == Seq::<u8>::empty(),
            !wm.exit(),
    {
        let mut wins: Vec<Win> = Vec::new();
        wins.push(Win { x: 40, y: 60, w: CALC_W, h: CALC_H });
        wins.push(Win { x: 300, y: 120, w: EDIT_W, h: EDIT_H });
        let wm = Wm {
            width,
            title_h,
            wins,
            focus: CALC,
            cursor: (width / 2, height / 2),
            drag: None,
            calc: Calc::new(),
            edit: Buffer::new(),
            exit: false,
        };
        assert(wm.wins@ =~= seq![
            Win { x: 40, y: 60, w: CALC_W, h: CALC_H },
            Win { x: 300, y: 120, w: EDIT_W, h: EDIT_H },
        ]);
        wm
    }

    /// Esc was pressed.
    pub fn exit_requested(&self) -> (b: bool)
        ensures
            b == self.exit(),
    {
        self.exit
    }

    /// The editor text, for drawing and logging.
    pub fn edit_buffer(&self) -> (b: &Buffer)
        ensures
            b@ == self.edit(),
    {
        &self.edit
    }

    /// The calculator's displayed value.
    pub fn calc_value(&self) -> (v: u32)
        ensures
            v == calc_display(self.calc()),
    {
        self.calc.display()
    }

    /// The geometry of window `index`.
    pub fn window(&self, index: usize) -> (w: Win)
        requires
            self.wf(),
            index < 2,
        ensures
            w == self.wins()[index as int],
    {
        self.wins[index]
    }

    pub fn focused(&self) -> (f: usize)
        ensures
            f == self.focus(),
    {
        self.focus
    }

    pub fn cursor_position(&self) -> (c: (i32, i32))
        ensures
            c == self.cursor(),
    {
        self.cursor
    }

    fn move_focused(&mut self, dx: i32, dy: i32) -> (r: (Effect, WmEvent))
        requires
            old(self).wf(),
        ensures
            final(self).wf(),
            (final(self)@, r.0, r.1) == move_focused_step(old(self)@, dx, dy),
    {
        let mut win = self.wins[self.focus];
        win.x = win.x.wrapping_add(dx);
        win.y = win.y.wrapping_add(dy);
        self.wins.set(self.focus, win);
        (Effect::Redraw, WmEvent::Moved { window: self.focus, x: win.x, y: win.y })
    }

    /// Process one packed input event (bit 63 present, type << 40, code << 24,
    /// 24-bit value).
    pub fn handle(&mut self, word: u64) -> (r: (Effect, WmEvent))
        requires
            old(self).wf(),
        ensures
            final(self).wf(),
            (final(self)@, r.0, r.1) == step(old(self)@, word),
    {
        if word / 0x8000_0000_0000_0000 == 0 {
            return (Effect::Unchanged, WmEvent::Quiet);
        }
        let kind = (word / 0x100_0000_0000) % 0x1_0000;
        let code = (word / 0x100_0000) % 0x1_0000;
        let raw = (word % 0x100_0000) as i32;
        let value: i32 = if raw >= 0x80_0000 { raw - 0x100_0000 } else { raw };
        if kind == EV_REL {
            let (dx, dy): (i32, i32) = if code == REL_X { (value, 0) } else { (0, value) };
            self.cursor = (self.cursor.0.wrapping_add(dx), self.cursor.1.wrapping_add(dy));
            if let Some((win_index, _, _)) = self.drag {
                let mut win = self.wins[win_index];
                win.x = win.x.wrapping_add(dx);
                win.y = win.y.wrapping_add(dy);
                self.wins.set(win_index, win);
                return (Effect::Redraw, WmEvent::Moved { window: win_index, x: win.x, y: win.y });
            }
            return (Effect::Redraw, WmEvent::Quiet);
        }
        if kind != EV_KEY {
            return (Effect::Unchanged, WmEvent::Quiet);
        }
        if code == BTN_LEFT {
            if value == 1 {
                if hits_shutdown(self.width, self.cursor.0, self.cursor.1) {
                    return (Effect::Unchanged, WmEvent::Shutdown);
                }
                if self.cursor.1 < BAR_H {
                    return (Effect::Redraw, WmEvent::Quiet);
                }
                let other = 1 - self.focus;
                if self.wins[other].contains(self.cursor.0, self.cursor.1) {
                    self.focus = other;
                }
                let first = self.wins[0];
                if first.title_contains(self.cursor.0, self.cursor.1, self.title_h) {
                    self.focus = 0;
                    self.drag = Some((0, self.cursor.0.wrapping_sub(first.x), self.cursor.1.wrapping_sub(first.y)));
                    return (Effect::Redraw, WmEvent::Focused(0));
                }
                let second = self.wins[1];
                if second.title_contains(self.cursor.0, self.cursor.1, self.title_h) {
                    self.focus = 1;
                    self.drag = Some((1, self.cursor.0.wrapping_sub(second.x), self.cursor.1.wrapping_sub(second.y)));
                    return (Effect::Redraw, WmEvent::Focused(1));
                }
            } else {
                self.drag = None;
            }
            return (Effect::Redraw, WmEvent::Quiet);
        }
        if value == 0 {
            return (Effect::Unchanged, WmEvent::Quiet);
        }
        if code == 103 {
            return self.move_focused(0, -MOVE_STEP);
        } else if code == 105 {
            return self.move_focused(-MOVE_STEP, 0);
        } else if code == 106 {
            return self.move_focused(MOVE_STEP, 0);
        } else if code == 108 {
            return self.move_focused(0, MOVE_STEP);
        } else if code == 15 {
            self.focus = 1 - self.focus;
            return (Effect::Redraw, WmEvent::Focused(self.focus));
        } else if code == 1 {
            self.exit = true;
            return (Effect::Unchanged, WmEvent::Quiet);
        } else if code == 14 {
            if self.focus == EDIT && self.edit.pop() {
                return (Effect::Redraw, WmEvent::EditShown);
            }
            return (Effect::Unchanged, WmEvent::Quiet);
        }
        if self.focus == CALC {
            let key = match keypad(code) {
                Some(k) => Some(k),
                None => digit_char(code),
            };
            if let Some(key) = key {
                if self.calc.push(key) {
                    return (Effect::Redraw, WmEvent::CalcShown(self.calc.display()));
                }
            }
        } else if let Some(character) = key_char((code % 256) as u8) {
            if character != '\n' && (code == 57 || ('!' <= character && character <= '~')) {
                self.edit.push(character as u8);
                return (Effect::Redraw, WmEvent::EditShown);
            }
        }
        (Effect::Unchanged, WmEvent::Quiet)
    }
}

/// The word is an Esc press or repeat.
pub open spec fn is_exit_key(word: u64) -> bool {
    &&& event_present(word)
    &&& event_kind(word) == EV_KEY
    &&& event_code(word) == 1
    &&& event_value(word) != 0
}

/// The desktop after handling `words` in order.
pub open spec fn after_events(d: Desktop, words: Seq<u64>) -> Desktop
    decreases words.len(),
{
    if words.len() == 0 {
        d
    } else {
        after_events(step(d, words[0]).0, words.drop_first())
    }
}

/// One event sets the exit request exactly when it is an Esc press or
/// repeat, and no event clears it.
pub proof fn lemma_step_exit(d: Desktop, word: u64)
    ensures
        step(d, word).0.exit == (d.exit || is_exit_key(word)),
{
}

/// Exit is requested after a run of events exactly when it was requested
/// before or one of them is an Esc press or repeat: it is set by the first
/// such event and never reset.
pub proof fn lemma_exit_requested(d: Desktop, words: Seq<u64>)
    ensures
        after_events(d, words).exit == (d.exit || exists|k: int| 0 <= k < words.len() && is_exit_key(#[trigger] words[k])),
    decreases words.len(),
{
    if words.len() > 0 {
        lemma_step_exit(d, words[0]);
        let rest = words.drop_first();
        lemma_exit_requested(step(d, words[0]).0, rest);
        if exists|k: int| 0 <= k < words.len() && is_exit_key(#[trigger] words[k]) {
            let k = choose|k: int| 0 <= k < words.len() && is_exit_key(#[trigger] words[k]);
            if k > 0 {
                assert(rest[k - 1] == words[k]);
            }
        }
        if exists|k: int| 0 <= k < rest.len() && is_exit_key(#[trigger] rest[k]) {
            let k = choose|k: int| 0 <= k < rest.len() && is_exit_key(#[trigger] rest[k]);
            assert(words[k + 1] == rest[k]);
        }
    }
}

} // verus!
