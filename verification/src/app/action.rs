//! What a key, a menu entry or a request can ask for.
use vstd::prelude::*;

use crate::window::Window;

verus! {

#[derive(Debug, Clone, Copy, PartialEq, Eq, Structural)]
pub enum Action {
    Tiler(TilerAction),
    Overview(OverviewAction),
    OpenSettings,
    Exit,
}

#[derive(Debug, Clone, Copy, PartialEq, Eq, Structural)]
pub enum TilerAction {
    CloseCurrent,
    MoveFocusNext,
    MoveFocusPrevious,
    SwapWithNext,
    SwapWithPrevious,
    ResizeToFullscreen,
    ResizeToHalfScreen,
    IncrementWidth,
    DecrementWidth,
    OpenOverview,
    ForceRefresh,
    CenterFocused,
    /// Keep the focused window out of the strip from now on.
    IgnoreFocusedWindow,
}

#[derive(Debug, Clone, Copy, PartialEq, Eq, Structural)]
pub enum OverviewAction {
    CloseOverview,
    JumpTo(Window),
}

/// The keys that shortcuts are made of.
#[derive(Debug, Clone, Copy, PartialEq, Eq, Structural)]
pub enum Key {
    Left,
    Right,
    Up,
    Down,
    C,
    F,
    H,
    I,
    R,
    Comma,
    Escape,
}

/// The modifier keys that are down.
#[derive(Debug, Clone, Copy, PartialEq, Eq, Structural)]
pub struct Held {
    pub win: bool,
    pub control: bool,
    pub shift: bool,
    pub alt: bool,
}

/// What a key does together with the Windows key alone.
pub open spec fn plain_shortcut(key: Key) -> Action {
    match key {
        Key::Left => Action::Tiler(TilerAction::MoveFocusPrevious),
        Key::Right => Action::Tiler(TilerAction::MoveFocusNext),
        Key::Up => Action::Tiler(TilerAction::OpenOverview),
        Key::Down => Action::Overview(OverviewAction::CloseOverview),
        Key::C => Action::Tiler(TilerAction::ResizeToHalfScreen),
        Key::F => Action::Tiler(TilerAction::ResizeToFullscreen),
        Key::H => Action::Tiler(TilerAction::CenterFocused),
        Key::I => Action::Tiler(TilerAction::IgnoreFocusedWindow),
        Key::R => Action::Tiler(TilerAction::ForceRefresh),
        Key::Comma => Action::OpenSettings,
        Key::Escape => Action::Exit,
    }
}

pub open spec fn shortcut(held: Held, key: Key) -> Option<Action> {
    if !held.win || held.alt || (held.control && held.shift) {
        None
    } else if held.control {
        match key {
            Key::Left => Some(Action::Tiler(TilerAction::SwapWithPrevious)),
            Key::Right => Some(Action::Tiler(TilerAction::SwapWithNext)),
            _ => None,
        }
    } else if held.shift {
        match key {
            Key::Left => Some(Action::Tiler(TilerAction::DecrementWidth)),
            Key::Right => Some(Action::Tiler(TilerAction::IncrementWidth)),
            _ => None,
        }
    } else {
        Some(plain_shortcut(key))
    }
}

/// The action that a key stands for. Every shortcut is with the Windows key;
/// with Control the arrows swap windows, with Shift they change the width.
pub fn resolve_action(held: Held, key: Key) -> (r: Option<Action>)
    ensures
        r == shortcut(held, key),
{
    if !held.win || held.alt || (held.control && held.shift) {
        return None;
    }
    let tiler: TilerAction = match (key, held.control, held.shift) {
        (Key::Left, true, _) => TilerAction::SwapWithPrevious,
        (Key::Right, true, _) => TilerAction::SwapWithNext,
        (Key::Left, _, true) => TilerAction::DecrementWidth,
        (Key::Right, _, true) => TilerAction::IncrementWidth,
        (_, true, _) => {
            return None;
        },
        (_, _, true) => {
            return None;
        },
        (Key::Left, _, _) => TilerAction::MoveFocusPrevious,
        (Key::Right, _, _) => TilerAction::MoveFocusNext,
        (Key::Up, _, _) => TilerAction::OpenOverview,
        (Key::C, _, _) => TilerAction::ResizeToHalfScreen,
        (Key::F, _, _) => TilerAction::ResizeToFullscreen,
        (Key::H, _, _) => TilerAction::CenterFocused,
        (Key::I, _, _) => TilerAction::IgnoreFocusedWindow,
        (Key::R, _, _) => TilerAction::ForceRefresh,
        (Key::Down, _, _) => {
            return Some(Action::Overview(OverviewAction::CloseOverview));
        },
        (Key::Comma, _, _) => {
            return Some(Action::OpenSettings);
        },
        (Key::Escape, _, _) => {
            return Some(Action::Exit);
        },
    };
    Some(Action::Tiler(tiler))
}

} // verus!
