//! Keeping the overlay from holding the focus.
use vstd::prelude::*;

use crate::window::{Desktop, Window};

verus! {

/// Why the focus could not be looked after.
#[derive(Debug, Clone, Copy, PartialEq, Eq, Structural)]
pub enum UnfocusError {
    NoFocusedWindow,
    InvalidOverlay,
    NoDesktopWindow,
}

/// The window to focus in place of the overlay: that of the desktop, if the
/// overlay has the focus. `raw_id` is the handle of the overlay,
/// `desktop_window` the window of the desktop, if it was found.
pub fn unfocus_window(raw_id: u64, desktop_window: Option<Window>, desk: &Desktop) -> (r: Result<
    Option<Window>,
    UnfocusError,
>)
    ensures
        r == (match (desk.foreground, desktop_window) {
            (None, _) => Err(UnfocusError::NoFocusedWindow),
            (Some(_), _) if raw_id == 0 => Err(UnfocusError::InvalidOverlay),
            (Some(_), None) => Err(UnfocusError::NoDesktopWindow),
            (Some(focused), Some(desktop)) => if focused.hwnd == raw_id {
                Ok(Some(desktop))
            } else {
                Ok(None)
            },
        }),
{
    let focused: Window = match Window::focused(desk) {
        Some(w) => w,
        None => {
            return Err(UnfocusError::NoFocusedWindow);
        },
    };
    let overlay: Window = match Window::from_safe_hwnd(raw_id) {
        Ok(w) => w,
        Err(_) => {
            return Err(UnfocusError::InvalidOverlay);
        },
    };
    match desktop_window {
        None => Err(UnfocusError::NoDesktopWindow),
        Some(desktop) => if focused == overlay {
            Ok(Some(desktop))
        } else {
            Ok(None)
        },
    }
}

} // verus!
