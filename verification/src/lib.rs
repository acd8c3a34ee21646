//! Decision logic of a selection popup: which hotkey a click on the popup's
//! translate button presses, how the popup fades and hides as the mouse moves
//! away, when a mouse gesture counts as a text selection, and when the popup
//! is allowed for the foreground process.
//!
//! The platform side (the low-level mouse hook, the window, the settings
//! store, the clipboard) feeds plain values in and performs the actions that
//! come back.

pub mod text;
pub mod hotkey;
pub mod opacity;
pub mod monitor;
pub mod filter;
