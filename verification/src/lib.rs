//! Winri: a scrolling window tiler, as a library of decisions.
//!
//! Every function here maps plain values to plain values: what was observed on
//! the desktop, what the user asked for, and the state kept so far, to the next
//! state and the commands to carry out. Nothing in the crate touches the
//! operating system.
use vstd::prelude::*;

pub mod api;
pub mod app;
pub mod config;
pub mod geometry;
pub mod hook;
pub mod icon;
pub mod monitor;
pub mod pixels;
pub mod scroll_tiler;
pub mod saving;
pub mod search;
pub mod system;
pub mod text;
pub mod tray;
pub mod virtual_desktop;
pub mod window;

verus! {

} // verus!
