//! The demonstration scenes: which one an argument asks for, the lease
//! batches that map the framebuffer, the colour-bar layout, and the key
//! events the keys scene counts.
use vstd::prelude::*;
use crate::gpu::pixels::event_word;
use crate::num::{parse_u64, parse_u64_spec};

verus! {

/// The scenes.
#[derive(Clone, Copy, PartialEq, Eq, Structural, Debug)]
pub enum Scene {
    Bars,
    Text,
    Scroll,
    Wm,
    /// Count `expected` key presses.
    Keys { expected: u64 },
    Unknown,
}

/// Key presses the keys scene waits for when its count is absent or not a
/// number.
pub const DEFAULT_KEYS: u64 = 3;

pub open spec fn bars_word() -> Seq<u8> { seq![98u8, 97u8, 114u8, 115u8] }
pub open spec fn text_word() -> Seq<u8> { seq![116u8, 101u8, 120u8, 116u8] }
pub open spec fn scroll_word() -> Seq<u8> { seq![115u8, 99u8, 114u8, 111u8, 108u8, 108u8] }
pub open spec fn wm_word() -> Seq<u8> { seq![119u8, 109u8] }
pub open spec fn keys_word() -> Seq<u8> { seq![107u8, 101u8, 121u8, 115u8] }

fn same(a: &[u8], b: &[u8]) -> (r: bool)
    ensures
        r == (a@ == b@),
{
    if a.len() != b.len() {
        return false;
    }
    let mut k: usize = 0;
    while k < a.len()
        invariant
            k <= a@.len(),
            a@.len() == b@.len(),
            forall|j: int| 0 <= j < k ==> a@[j] == b@[j],
        decreases a@.len() - k,
    {
        if a[k] != b[k] {
            return false;
        }
        k = k + 1;
    }
    assert(a@ =~= b@);
    true
}

/// The scene `name` asks for; `count` is the keys scene's second argument.
pub fn scene_of(name: &[u8], count: Option<&[u8]>) -> (s: Scene)
    ensures
        s == if name@ == bars_word() {
            Scene::Bars
        } else if name@ == text_word() {
            Scene::Text
        } else if name@ == scroll_word() {
            Scene::Scroll
        } else if name@ == wm_word() {
            Scene::Wm
        } else if name@ == keys_word() {
            Scene::Keys {
                expected: match count {
                    Some(c) => match parse_u64_spec(c@) {
                        Some(v) => v,
                        None => DEFAULT_KEYS,
                    },
                    None => DEFAULT_KEYS,
                },
            }
        } else {
            Scene::Unknown
        },
{
    let bars: [u8; 4] = [98, 97, 114, 115];
    let text: [u8; 4] = [116, 101, 120, 116];
    let scroll: [u8; 6] = [115, 99, 114, 111, 108, 108];
    let wm: [u8; 2] = [119, 109];
    let keys: [u8; 4] = [107, 101, 121, 115];
    assert(bars@ =~= bars_word());
    assert(text@ =~= text_word());
    assert(scroll@ =~= scroll_word());
    assert(wm@ =~= wm_word());
    assert(keys@ =~= keys_word());
    if same(name, bars.as_slice()) {
        Scene::Bars
    } else if same(name, text.as_slice()) {
        Scene::Text
    } else if same(name, scroll.as_slice()) {
        Scene::Scroll
    } else if same(name, wm.as_slice()) {
        Scene::Wm
    } else if same(name, keys.as_slice()) {
        let expected = match count {
            Some(c) => match parse_u64(c) {
                Some(v) => v,
                None => DEFAULT_KEYS,
            },
            None => DEFAULT_KEYS,
        };
        Scene::Keys { expected }
    } else {
        Scene::Unknown
    }
}

/// The first pages of the lease batches of a `pages`-page framebuffer:
/// 0, `batch`, `2 * batch`, ... below `pages`.
pub fn batch_starts(pages: usize, batch: usize) -> (starts: Vec<usize>)
    requires
        batch > 0,
        pages + batch <= usize::MAX,
    ensures
        starts@.len() == (pages + batch - 1) / batch as int,
        forall|k: int| 0 <= k < starts@.len() ==> #[trigger] starts@[k] == k * batch,
{
    let mut starts: Vec<usize> = Vec::new();
    let mut first: usize = 0;
    assert(starts@.len() * batch == 0) by (nonlinear_arith)
        requires
            starts@.len() == 0,
    ;
    while first < pages
        invariant
            batch > 0,
            pages + batch <= usize::MAX,
            first == starts@.len() * batch,
            first < pages + batch,
            starts@.len() * batch < pages + batch,
            forall|k: int| 0 <= k < starts@.len() ==> #[trigger] starts@[k] == k * batch,
        decreases pages + batch - first,
    {
        proof {
            let n = starts@.len() as int;
            assert((n + 1) * batch == n * batch + batch) by (nonlinear_arith);
        }
        starts.push(first);
        first = first + batch;
    }
    proof {
        let n = starts@.len() as int;
        let b = batch as int;
        let p = pages as int;
        assert(n == (p + b - 1) / b) by (nonlinear_arith)
            requires
                n * b >= p,
                n * b < p + b,
                b > 0,
                n >= 0,
                p >= 0,
        ;
    }
    starts
}

/// Colour bars across the screen.
pub const BAR_COUNT: usize = 8;

/// Bar `index`'s horizontal span on a screen `width` pixels wide: its left
/// edge and its width.
pub fn bar_span(index: usize, width: usize) -> (span: (usize, usize))
    requires
        index < BAR_COUNT,
        width * BAR_COUNT <= usize::MAX,
    ensures
        span.0 == index * width / BAR_COUNT as int,
        span.0 + span.1 == (index + 1) * width / BAR_COUNT as int,
{
    proof {
        assert(index * width <= 8 * width && (index + 1) * width <= 8 * width) by (nonlinear_arith)
            requires
                index < 8,
                width >= 0,
        ;
    }
    let left = index * width / BAR_COUNT;
    let right = (index + 1) * width / BAR_COUNT;
    proof {
        assert(index * width <= (index + 1) * width) by (nonlinear_arith)
            requires
                width >= 0,
        ;
        assert(index * width / 8 <= (index + 1) * width / 8) by (nonlinear_arith)
            requires
                index * width <= (index + 1) * width,
        ;
    }
    (left, right - left)
}

/// The band the bars fill on a screen `height` pixels high: its top and
/// its height (an eighth of the screen stays free above and below).
pub fn bar_band(height: usize) -> (band: (usize, usize))
    ensures
        band.0 == height / 8,
        band.1 == height - 2 * (height / 8),
{
    let top = height / 8;
    (top, height - top - top)
}

/// An input event word: present bit, type, code, value.
#[derive(Clone, Copy, PartialEq, Eq, Structural, Debug)]
pub struct Event {
    pub kind: u64,
    pub code: u64,
    pub value: u64,
}

/// The fields of an event word.
pub open spec fn event_of(word: u64) -> Event {
    Event { kind: (word / 0x100_0000_0000) % 0x1_0000, code: (word / 0x100_0000) % 0x1_0000, value: word % 0x100_0000 }
}

/// Split an INPUT_READ word into its fields.
pub fn unpack_event(word: u64) -> (e: Event)
    ensures
        e == event_of(word),
{
    let kind = (word >> 40) & 0xFFFF;
    let code = (word >> 24) & 0xFFFF;
    let value = word & 0xFF_FFFF;
    assert(kind == (word / 0x100_0000_0000) % 0x1_0000) by (bit_vector)
        requires
            kind == (word >> 40) & 0xFFFF,
    ;
    assert(code == (word / 0x100_0000) % 0x1_0000) by (bit_vector)
        requires
            code == (word >> 24) & 0xFFFF,
    ;
    assert(value == word % 0x100_0000) by (bit_vector)
        requires
            value == word & 0xFF_FFFF,
    ;
    Event { kind, code, value }
}

/// The display service's event word reads back as the event it packed,
/// with the value cut to 24 bits.
pub proof fn lemma_event_round_trip(kind: u16, code: u16, value: u32)
    ensures
        event_of(event_word(kind, code, value)) == (Event { kind: kind as u64, code: code as u64, value: (value % 0x100_0000) as u64 }),
{
    let w = event_word(kind, code, value);
    assert(w == (0x8000_0000_0000_0000 + kind * 0x100_0000_0000 + code * 0x100_0000 + value % 0x100_0000) as u64);
    let k = kind as u64;
    let c = code as u64;
    let v = value as u64;
    assert((w / 0x100_0000_0000) % 0x1_0000 == k && (w / 0x100_0000) % 0x1_0000 == c && w % 0x100_0000 == v % 0x100_0000) by (bit_vector)
        requires
            w == 0x8000_0000_0000_0000u64 + k * 0x100_0000_0000u64 + c * 0x100_0000u64 + v % 0x100_0000u64,
            k < 0x1_0000,
            c < 0x1_0000,
            v < 0x1_0000_0000,
    ;
}

/// A key going down: type 1 (key) with value 1 (press).
pub fn is_key_press(e: Event) -> (b: bool)
    ensures
        b == (e.kind == 1 && e.value == 1),
{
    e.kind == 1 && e.value == 1
}

/// The label of scroll-scene line `line`: `LINE` and its two digits.
pub fn line_label(line: u8) -> (label: [u8; 7])
    requires
        line < 100,
    ensures
        label@ == seq![76u8, 73u8, 78u8, 69u8, 32u8, (48 + line / 10) as u8, (48 + line % 10) as u8],
{
    let label: [u8; 7] = [76, 73, 78, 69, 32, 48 + line / 10, 48 + line % 10];
    assert(label@ =~= seq![76u8, 73u8, 78u8, 69u8, 32u8, (48 + line / 10) as u8, (48 + line % 10) as u8]);
    label
}

} // verus!
