//! The top status panel and its shutdown button.
use vstd::prelude::*;

verus! {

/// Panel height in pixels.
pub const BAR_H: i32 = 22;

/// Shutdown button rect as (x, y, w, h), at the right of the bar.
pub fn button_rect(width: i32) -> (r: (i32, i32, i32, i32))
    requires
        width >= i32::MIN + 64,
    ensures
        r == ((width - 64) as i32, 3i32, 56i32, (BAR_H - 6) as i32),
{
    (width - 64, 3, 56, BAR_H - 6)
}

/// A click at (x, y) hits the shutdown button.
pub open spec fn hits_shutdown_spec(width: i32, x: i32, y: i32) -> bool {
    width - 64 <= x < width - 8 && 3 <= y < BAR_H - 3
}

/// Whether a click at (x, y) hits the shutdown button.
pub fn hits_shutdown(width: i32, x: i32, y: i32) -> (b: bool)
    requires
        width >= i32::MIN + 64,
    ensures
        b == hits_shutdown_spec(width, x, y),
{
    let (bx, by, bw, bh) = button_rect(width);
    x >= bx && x < bx + bw && y >= by && y < by + bh
}

} // verus!
