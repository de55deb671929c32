//! The desktop client: argument holder, text buffer, calculator, panel and
//! window manager.
pub mod args;
pub mod buffer;
pub mod calc;
pub mod keys;
pub mod panel;
pub mod scene;
pub mod wm;
