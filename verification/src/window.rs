//! Windows, and what is observed of them at one instant.
//!
//! A [`Desktop`] is one look at the window system: every fact the decisions
//! read, taken together. A query that failed is `None`. Commands are returned
//! as values for the caller to carry out.
use vstd::prelude::*;

use crate::geometry::{
    abs_diff, bounds_of, magnitude, to_pixels, whole_pixels, Bounds, Position, Rect, Size, PX,
};
use crate::monitor::Monitor;
use crate::search::{first_true, lemma_first_hit, lemma_first_miss};
use crate::text::starts_with;

pub mod filter;
pub mod info;

verus! {

pub const WS_POPUP: u32 = 0x8000_0000;

pub const WS_DLGFRAME: u32 = 0x0040_0000;

pub const WS_EX_TOOLWINDOW: u32 = 0x0000_0080;

/// A top-level window, by its handle.
#[derive(Debug, Clone, Copy, PartialEq, Eq, Structural)]
pub struct Window {
    pub hwnd: u64,
}

/// The handle was null.
#[derive(Debug, Clone, Copy, PartialEq, Eq, Structural)]
pub struct InvalidHandle;

/// What one look at a window gave.
#[derive(Debug)]
pub struct Observed {
    pub window: Window,
    /// The handle denotes an existing window.
    pub valid: Option<bool>,
    pub visible: Option<bool>,
    /// Hidden by the shell, as on another virtual desktop.
    pub cloaked: Option<bool>,
    /// The root of the window's parent chain.
    pub ancestor: Option<Window>,
    pub style: Option<u32>,
    pub ex_style: Option<u32>,
    pub has_owner: Option<bool>,
    /// Title; `Some(None)` where the window has none.
    pub title: Option<Option<String>>,
    pub class: Option<String>,
    /// File name of the owning executable.
    pub process: Option<String>,
    /// Full path of the owning executable, with forward slashes.
    pub exe_path: Option<String>,
    /// Minimized to the taskbar.
    pub iconic: bool,
    /// Handle of the nearest monitor.
    pub monitor: i64,
    /// Visible frame as the compositor draws it.
    pub frame: Option<Rect>,
    /// Frame including invisible resize borders.
    pub outer: Option<Rect>,
    /// Number of the virtual desktop the window is on.
    pub desktop_id: Option<u32>,
}

/// One look at the whole desktop.
#[derive(Debug)]
pub struct Desktop {
    pub observed: Vec<Observed>,
    /// The window with the keyboard focus.
    pub foreground: Option<Window>,
    /// The left mouse button is down.
    pub mouse_held: bool,
    /// Time of the look, in nanoseconds from some fixed start.
    pub now: u64,
}

pub open spec fn window_mask(observed: Seq<Observed>, w: Window) -> Seq<bool> {
    Seq::new(observed.len(), |i: int| observed[i].window == w)
}

impl Desktop {
    /// What was observed of `w`.
    #[verifier::opaque]
    pub open spec fn facts(self, w: Window) -> Option<Observed> {
        match first_true(window_mask(self.observed@, w)) {
            Some(i) => Some(self.observed@[i]),
            None => None,
        }
    }

    pub open spec fn valid(self, w: Window) -> bool {
        &&& w.hwnd != 0
        &&& self.facts(w) matches Some(o) && o.valid == Some(true)
    }

    pub open spec fn iconic(self, w: Window) -> bool {
        self.facts(w) matches Some(o) && o.iconic
    }

    pub open spec fn cloaked(self, w: Window) -> bool {
        self.valid(w) && (self.facts(w) matches Some(o) && o.cloaked == Some(true))
    }

    /// Minimized, or on another virtual desktop.
    pub open spec fn hidden(self, w: Window) -> bool {
        self.iconic(w) || self.cloaked(w)
    }

    pub open spec fn focused(self, w: Window) -> bool {
        self.valid(w) && self.foreground == Some(w)
    }

    pub open spec fn monitor_of(self, w: Window) -> int {
        match self.facts(w) {
            Some(o) => o.monitor as int,
            None => 0,
        }
    }

    pub open spec fn frame_of(self, w: Window) -> Option<Rect> {
        match self.facts(w) {
            Some(o) => if self.valid(w) {
                o.frame
            } else {
                None
            },
            None => None,
        }
    }

    pub open spec fn outer_of(self, w: Window) -> Option<Rect> {
        match self.facts(w) {
            Some(o) => if self.valid(w) {
                o.outer
            } else {
                None
            },
            None => None,
        }
    }

    pub open spec fn class_of(self, w: Window) -> Option<Seq<char>> {
        match self.facts(w) {
            Some(o) => match o.class {
                Some(c) if self.valid(w) => Some(c@),
                _ => None,
            },
            None => None,
        }
    }

    pub open spec fn process_of(self, w: Window) -> Option<Seq<char>> {
        match self.facts(w) {
            Some(o) => match o.process {
                Some(p) if self.valid(w) => Some(p@),
                _ => None,
            },
            None => None,
        }
    }

    pub open spec fn path_of(self, w: Window) -> Option<Seq<char>> {
        match self.facts(w) {
            Some(o) => match o.exe_path {
                Some(p) if self.valid(w) => Some(p@),
                _ => None,
            },
            None => None,
        }
    }

    /// The observation of `w`.
    pub fn look_up(&self, w: Window) -> (r: Option<&Observed>)
        ensures
            match r {
                Some(o) => self.facts(w) == Some(*o),
                None => self.facts(w) is None,
            },
    {
        let mut i: usize = 0;
        while i < self.observed.len()
            invariant
                i <= self.observed.len(),
                forall|j: int| 0 <= j < i ==> !window_mask(self.observed@, w)[j],
            decreases self.observed.len() - i,
        {
            if self.observed[i].window == w {
                proof {
                    reveal(Desktop::facts);
                    lemma_first_hit(window_mask(self.observed@, w), i as int);
                }
                return Some(&self.observed[i]);
            }
            i = i + 1;
        }
        proof {
            reveal(Desktop::facts);
            lemma_first_miss(window_mask(self.observed@, w));
        }
        None
    }
}

/// The observation of `w` is one of `w`.
pub proof fn lemma_facts_window(desk: Desktop, w: Window)
    ensures
        desk.facts(w) matches Some(o) ==> o.window == w,
{
    reveal(Desktop::facts);
    crate::search::lemma_first_true(window_mask(desk.observed@, w));
}

/// Where to put a window and how large, in whole pixels.
#[derive(Debug, Clone, Copy, PartialEq, Eq, Structural)]
pub struct PixelRect {
    pub x: i32,
    pub y: i32,
    pub width: i32,
    pub height: i32,
}

/// One move in a batch.
#[derive(Debug, Clone, Copy, PartialEq, Eq, Structural)]
pub struct BatchMove {
    pub window: Window,
    pub rect: PixelRect,
}

/// Width of the invisible borders around a window.
#[derive(Debug, Clone, Copy, PartialEq, Eq, Structural)]
pub struct FramePadding {
    pub left: i64,
    pub top: i64,
    pub right: i64,
    pub bottom: i64,
}

impl FramePadding {
    pub open spec fn ok(self) -> bool {
        &&& 0 <= self.left <= 4_294_967_295_000
        &&& 0 <= self.top <= 4_294_967_295_000
        &&& 0 <= self.right <= 4_294_967_295_000
        &&& 0 <= self.bottom <= 4_294_967_295_000
    }
}

/// How far the two frames are apart at each edge.
pub open spec fn frame_padding(outer: Rect, frame: Rect) -> FramePadding {
    FramePadding {
        left: (magnitude(outer.left - frame.left) * PX) as i64,
        top: (magnitude(outer.top - frame.top) * PX) as i64,
        right: (magnitude(outer.right - frame.right) * PX) as i64,
        bottom: (magnitude(outer.bottom - frame.bottom) * PX) as i64,
    }
}

/// The outer rectangle that puts the visible frame at the given place.
pub open spec fn padded(pos: Position, size: Size, p: FramePadding) -> PixelRect {
    PixelRect {
        x: whole_pixels(pos.x - p.left) as i32,
        y: whole_pixels(pos.y - p.top) as i32,
        width: whole_pixels(size.width + p.right + p.left) as i32,
        height: whole_pixels(size.height + p.bottom + p.top) as i32,
    }
}

pub open spec fn padded_on(desk: Desktop, w: Window, pos: Position, size: Size) -> Option<
    PixelRect,
> {
    match (desk.frame_of(w), desk.outer_of(w)) {
        (Some(frame), Some(outer)) => Some(padded(pos, size, frame_padding(outer, frame))),
        _ => None,
    }
}

/// A dialog is a popup with a dialog frame.
pub open spec fn dialog_style(style: u32) -> bool {
    style & WS_POPUP == WS_POPUP && style & WS_DLGFRAME == WS_DLGFRAME
}

/// What giving a window the focus takes.
#[derive(Debug, Clone, Copy, PartialEq, Eq, Structural)]
pub enum FocusSteps {
    /// It has the focus.
    Nothing,
    /// Bring it to the foreground.
    Activate,
    /// Restore it from the taskbar, wait, then bring it to the foreground.
    RestoreThenActivate,
}

/// Where a moved window goes on a monitor: centered in the work area, at four
/// fifths of its size, at most 1600 by 1200 pixels.
pub open spec fn centered_extent(from: int, to: int, max: int) -> int {
    let full = (to - from) * PX;
    if full * 4 / 5 < max * PX {
        full * 4 / 5
    } else {
        max * PX
    }
}

pub open spec fn centered_start(from: int, to: int, max: int) -> int {
    from * PX + ((to - from) * PX - centered_extent(from, to, max)) / 2
}

impl Window {
    pub fn from_safe_hwnd(hwnd: u64) -> (r: Result<Self, InvalidHandle>)
        ensures
            r == (if hwnd == 0 {
                Err(InvalidHandle)
            } else {
                Ok(Window { hwnd })
            }),
    {
        if hwnd == 0 {
            Err(InvalidHandle)
        } else {
            Ok(Window { hwnd })
        }
    }

    /// The window with the keyboard focus.
    pub fn focused(desk: &Desktop) -> (r: Option<Self>)
        ensures
            r == desk.foreground,
    {
        desk.foreground
    }

    pub fn is_valid(self, desk: &Desktop) -> (r: bool)
        ensures
            r == desk.valid(self),
    {
        if self.hwnd == 0 {
            return false;
        }
        match desk.look_up(self) {
            Some(o) => match o.valid {
                Some(v) => v,
                None => false,
            },
            None => false,
        }
    }

    /// Handle of the monitor the window is on or nearest to; 0 for a window
    /// that was not observed.
    pub fn monitor(self, desk: &Desktop) -> (r: i64)
        ensures
            r == desk.monitor_of(self),
    {
        match desk.look_up(self) {
            Some(o) => o.monitor,
            None => 0,
        }
    }

    pub fn is_iconic(self, desk: &Desktop) -> (r: bool)
        ensures
            r == desk.iconic(self),
    {
        match desk.look_up(self) {
            Some(o) => o.iconic,
            None => false,
        }
    }

    /// Whether the window is known to be cloaked.
    pub fn is_cloaked(self, desk: &Desktop) -> (r: bool)
        ensures
            r == desk.cloaked(self),
    {
        match desk.look_up(self) {
            Some(o) => match o.cloaked {
                Some(c) => c && self.is_valid(desk),
                None => false,
            },
            None => false,
        }
    }

    pub fn is_hidden(self, desk: &Desktop) -> (r: bool)
        ensures
            r == desk.hidden(self),
    {
        self.is_iconic(desk) || self.is_cloaked(desk)
    }

    /// Whether the window has the focus; `None` for an invalid window, and
    /// while no window has it.
    pub fn is_focused(self, desk: &Desktop) -> (r: Option<bool>)
        ensures
            r == (match desk.foreground {
                Some(f) if desk.valid(self) => Some(f == self),
                _ => None,
            }),
    {
        if !self.is_valid(desk) {
            return None;
        }
        match Window::focused(desk) {
            Some(f) => Some(f == self),
            None => None,
        }
    }

    /// Whether the window is known to have the focus.
    pub fn has_focus(self, desk: &Desktop) -> (r: bool)
        ensures
            r == desk.focused(self),
    {
        match self.is_focused(desk) {
            Some(b) => b,
            None => false,
        }
    }

    pub fn is_visible(self, desk: &Desktop) -> (r: Option<bool>)
        ensures
            r == (match desk.facts(self) {
                Some(o) if desk.valid(self) => o.visible,
                _ => None,
            }),
    {
        if !self.is_valid(desk) {
            return None;
        }
        match desk.look_up(self) {
            Some(o) => o.visible,
            None => None,
        }
    }

    /// Whether the window is a popup with a dialog frame.
    pub fn is_dialog(self, desk: &Desktop) -> (r: Option<bool>)
        ensures
            r == (match desk.facts(self) {
                Some(o) => match o.style {
                    Some(s) if desk.valid(self) => Some(dialog_style(s)),
                    _ => None,
                },
                None => None,
            }),
    {
        if !self.is_valid(desk) {
            return None;
        }
        match desk.look_up(self) {
            Some(o) => match o.style {
                Some(s) => Some(
                    s & WS_POPUP == WS_POPUP && s & WS_DLGFRAME == WS_DLGFRAME,
                ),
                None => None,
            },
            None => None,
        }
    }

    /// Whether the window is an auxiliary one, such as a palette.
    pub fn is_tool_window(self, desk: &Desktop) -> (r: Option<bool>)
        ensures
            r == (match desk.facts(self) {
                Some(o) => match o.ex_style {
                    Some(s) if desk.valid(self) => Some(s & WS_EX_TOOLWINDOW != 0),
                    _ => None,
                },
                None => None,
            }),
    {
        if !self.is_valid(desk) {
            return None;
        }
        match desk.look_up(self) {
            Some(o) => match o.ex_style {
                Some(s) => Some(s & WS_EX_TOOLWINDOW != 0),
                None => None,
            },
            None => None,
        }
    }

    /// Whether the window belongs to another one.
    pub fn has_owner(self, desk: &Desktop) -> (r: Option<bool>)
        ensures
            r == (match desk.facts(self) {
                Some(o) if desk.valid(self) => o.has_owner,
                _ => None,
            }),
    {
        if !self.is_valid(desk) {
            return None;
        }
        match desk.look_up(self) {
            Some(o) => o.has_owner,
            None => None,
        }
    }

    /// The title; `Some(None)` for a window without one.
    pub fn title(self, desk: &Desktop) -> (r: Option<Option<String>>)
        ensures
            match (r, desk.facts(self)) {
                (Some(None), Some(o)) => desk.valid(self) && o.title == Some(None::<String>),
                (Some(Some(t)), Some(o)) => desk.valid(self) && (o.title matches Some(Some(u))
                    && u@ == t@),
                (None, Some(o)) => !desk.valid(self) || o.title is None,
                (_, None) => r is None,
            },
    {
        if !self.is_valid(desk) {
            return None;
        }
        match desk.look_up(self) {
            Some(o) => match &o.title {
                Some(Some(t)) => Some(Some(t.clone())),
                Some(None) => Some(None),
                None => None,
            },
            None => None,
        }
    }

    /// File name of the owning executable.
    pub fn process_name(self, desk: &Desktop) -> (r: Option<String>)
        ensures
            match r {
                Some(p) => desk.process_of(self) == Some(p@),
                None => desk.process_of(self) is None,
            },
    {
        if !self.is_valid(desk) {
            return None;
        }
        match desk.look_up(self) {
            Some(o) => match &o.process {
                Some(p) => Some(p.clone()),
                None => None,
            },
            None => None,
        }
    }

    /// Full path of the owning executable, with forward slashes.
    pub fn exe_path(self, desk: &Desktop) -> (r: Option<String>)
        ensures
            match r {
                Some(p) => desk.path_of(self) == Some(p@),
                None => desk.path_of(self) is None,
            },
    {
        if !self.is_valid(desk) {
            return None;
        }
        match desk.look_up(self) {
            Some(o) => match &o.exe_path {
                Some(p) => Some(p.clone()),
                None => None,
            },
            None => None,
        }
    }

    pub fn class(self, desk: &Desktop) -> (r: Option<String>)
        ensures
            match r {
                Some(c) => desk.class_of(self) == Some(c@),
                None => desk.class_of(self) is None,
            },
    {
        if !self.is_valid(desk) {
            return None;
        }
        match desk.look_up(self) {
            Some(o) => match &o.class {
                Some(c) => Some(c.clone()),
                None => None,
            },
            None => None,
        }
    }

    /// The root of the window's parent chain.
    pub fn ancestor(self, desk: &Desktop) -> (r: Option<Window>)
        ensures
            r == (match desk.facts(self) {
                Some(o) if desk.valid(self) => o.ancestor,
                _ => None,
            }),
    {
        if !self.is_valid(desk) {
            return None;
        }
        match desk.look_up(self) {
            Some(o) => o.ancestor,
            None => None,
        }
    }

    /// Whether the window is its own root; `None` where that is not known.
    pub fn is_ancestor(self, desk: &Desktop) -> (r: Option<bool>)
        ensures
            r == (match desk.facts(self) {
                Some(o) => match o.ancestor {
                    Some(a) if desk.valid(self) => Some(a == self),
                    _ => None,
                },
                None => None,
            }),
    {
        match self.ancestor(desk) {
            Some(a) => Some(a == self),
            None => None,
        }
    }

    /// Visible frame, in whole pixels.
    pub fn frame(self, desk: &Desktop) -> (r: Option<Rect>)
        ensures
            r == desk.frame_of(self),
    {
        if !self.is_valid(desk) {
            return None;
        }
        match desk.look_up(self) {
            Some(o) => o.frame,
            None => None,
        }
    }

    /// Visible frame, in strip units.
    pub fn desktop_manager_bounds(self, desk: &Desktop) -> (r: Option<Bounds>)
        ensures
            r == (match desk.frame_of(self) {
                Some(f) => Some(bounds_of(f)),
                None => None,
            }),
            r matches Some(b) ==> b.ok(),
    {
        match self.frame(desk) {
            Some(f) => Some(Bounds::from_rect(f)),
            None => None,
        }
    }

    /// Frame with the invisible borders, in strip units.
    pub fn outer_bounds(self, desk: &Desktop) -> (r: Option<Bounds>)
        ensures
            r == (match desk.outer_of(self) {
                Some(f) => Some(bounds_of(f)),
                None => None,
            }),
            r matches Some(b) ==> b.ok(),
    {
        if !self.is_valid(desk) {
            return None;
        }
        match desk.look_up(self) {
            Some(o) => match o.outer {
                Some(f) => Some(Bounds::from_rect(f)),
                None => None,
            },
            None => None,
        }
    }

    /// Width of the invisible borders.
    pub fn padding(self, desk: &Desktop) -> (r: Option<FramePadding>)
        ensures
            r == (match (desk.frame_of(self), desk.outer_of(self)) {
                (Some(frame), Some(outer)) => Some(frame_padding(outer, frame)),
                _ => None,
            }),
            r matches Some(p) ==> p.ok(),
    {
        if !self.is_valid(desk) {
            return None;
        }
        match desk.look_up(self) {
            Some(o) => match (o.frame, o.outer) {
                (Some(frame), Some(outer)) => Some(
                    FramePadding {
                        left: abs_diff(outer.left as i64, frame.left as i64) as i64 * PX,
                        top: abs_diff(outer.top as i64, frame.top as i64) as i64 * PX,
                        right: abs_diff(outer.right as i64, frame.right as i64) as i64 * PX,
                        bottom: abs_diff(outer.bottom as i64, frame.bottom as i64) as i64 * PX,
                    },
                ),
                _ => None,
            },
            None => None,
        }
    }

    /// The outer rectangle that puts the window's visible frame at `pos` with
    /// `size`; `None` where the borders are not known.
    pub fn padded_rect(self, pos: Position, size: Size, desk: &Desktop) -> (r: Option<PixelRect>)
        ensures
            r == padded_on(*desk, self, pos, size),
    {
        match self.padding(desk) {
            Some(p) => Some(
                PixelRect {
                    x: to_pixels(pos.x as i128 - p.left as i128),
                    y: to_pixels(pos.y as i128 - p.top as i128),
                    width: to_pixels(size.width as i128 + p.right as i128 + p.left as i128),
                    height: to_pixels(size.height as i128 + p.bottom as i128 + p.top as i128),
                },
            ),
            None => None,
        }
    }

    /// The rectangle to give the window, once restored, so that its visible
    /// frame is at `pos` with `size`; `None` where its borders are not known.
    pub fn move_to(self, pos: Position, size: Size, desk: &Desktop) -> (r: Option<PixelRect>)
        ensures
            r == padded_on(*desk, self, pos, size),
    {
        self.padded_rect(pos, size, desk)
    }

    /// Whether a clipping region must not be set on this window: its class is
    /// one of those that lose their drawing surface over it. `None` where the
    /// class is not known.
    pub fn is_clip_unsafe(self, desk: &Desktop) -> (r: Option<bool>)
        ensures
            r == (match desk.class_of(self) {
                Some(c) => Some("Chrome_WidgetWin_"@.is_prefix_of(c)),
                None => None,
            }),
    {
        match self.class(desk) {
            Some(c) => Some(starts_with(c.as_str(), "Chrome_WidgetWin_")),
            None => None,
        }
    }

    /// The move that centers the window in the monitor's work area.
    pub fn move_to_monitor(self, monitor: &Monitor, desk: &Desktop) -> (r: Option<PixelRect>)
        ensures
            ({
                let wa = monitor.work_area;
                r == padded_on(
                    *desk,
                    self,
                    Position {
                        x: centered_start(wa.left as int, wa.right as int, 1600) as i64,
                        y: centered_start(wa.top as int, wa.bottom as int, 1200) as i64,
                    },
                    Size {
                        width: centered_extent(wa.left as int, wa.right as int, 1600) as i64,
                        height: centered_extent(wa.top as int, wa.bottom as int, 1200) as i64,
                    },
                )
            }),
    {
        let wa: Rect = monitor.work_area;
        let (x, width): (i64, i64) = center_extent(wa.left, wa.right, 1600);
        let (y, height): (i64, i64) = center_extent(wa.top, wa.bottom, 1200);
        self.move_to(Position { x, y }, Size { width, height }, desk)
    }

    /// The horizontal position that takes the window off the screen to the
    /// left; `None` where its width is not known.
    pub fn move_offscreen(self, desk: &Desktop) -> (r: Option<i32>)
        ensures
            r == (match desk.frame_of(self) {
                Some(f) => Some(whole_pixels(-((f.right - f.left) * PX + 100 * PX)) as i32),
                None => None,
            }),
    {
        match self.frame(desk) {
            Some(f) => {
                let width: i128 = (f.right as i128 - f.left as i128) * (PX as i128);
                Some(to_pixels(-(width + 100 * (PX as i128))))
            },
            None => None,
        }
    }

    /// What giving the window the focus takes; `None` for an invalid window.
    pub fn focus(self, desk: &Desktop) -> (r: Option<FocusSteps>)
        ensures
            r == (if !desk.valid(self) {
                None
            } else if desk.focused(self) {
                Some(FocusSteps::Nothing)
            } else if desk.iconic(self) {
                Some(FocusSteps::RestoreThenActivate)
            } else {
                Some(FocusSteps::Activate)
            }),
    {
        if !self.is_valid(desk) {
            return None;
        }
        if self.has_focus(desk) {
            return Some(FocusSteps::Nothing);
        }
        if self.is_iconic(desk) {
            Some(FocusSteps::RestoreThenActivate)
        } else {
            Some(FocusSteps::Activate)
        }
    }
}

fn center_extent(from: i32, to: i32, max: i64) -> (r: (i64, i64))
    requires
        max == 1600 || max == 1200,
    ensures
        r.0 == centered_start(from as int, to as int, max as int),
        r.1 == centered_extent(from as int, to as int, max as int),
{
    let full: i64 = (to as i64 - from as i64) * PX;
    // Four fifths of a whole number of pixels is a whole number of units.
    let four_fifths: i64 = (to as i64 - from as i64) * 800;
    let extent: i64 = if four_fifths < max * PX {
        four_fifths
    } else {
        max * PX
    };
    let half: i64 = crate::geometry::floor_div(full - extent, 2);
    (from as i64 * PX + half, extent)
}

/// A window that is moved to a monitor takes up four fifths of the work area
/// each way, but no more than the limit, and has as much room on one side as on
/// the other.
pub proof fn law_moved_window_is_in_the_middle(from: int, to: int, max: int)
    requires
        from <= to,
        0 <= max,
    ensures
        ({
            let extent = centered_extent(from, to, max);
            let start = centered_start(from, to, max);
            &&& 5 * extent <= 4000 * (to - from)
            &&& extent <= max * 1000
            &&& extent == max * 1000 || 5 * extent == 4000 * (to - from)
            &&& 0 <= (to * 1000 - (start + extent)) - (start - from * 1000) <= 1
        }),
{
    let full = (to - from) * PX;
    let extent = centered_extent(from, to, max);
    assert(full == 1000 * (to - from));
    assert(full * 4 / 5 == 800 * (to - from));
    assert(5 * extent <= 4000 * (to - from));
    assert(extent <= max * 1000);
    let half = (full - extent) / 2;
    assert(centered_start(from, to, max) == from * PX + half);
    assert(0 <= full - extent - 2 * half <= 1);
}

/// Of a window that was looked at, the first look counts. It is valid where it
/// is said to exist, hidden where it is in the taskbar or cloaked, and focused
/// where it is the one in the foreground; nothing is known of the frames of an
/// invalid one.
pub proof fn law_first_look_counts(desk: Desktop, i: int)
    requires
        0 <= i < desk.observed@.len(),
        forall|k: int|
            0 <= k < i ==> (#[trigger] desk.observed@[k]).window != desk.observed@[i].window,
    ensures
        ({
            let o = desk.observed@[i];
            let w = o.window;
            let known = w.hwnd != 0 && o.valid == Some(true);
            &&& desk.facts(w) == Some(o)
            &&& desk.valid(w) == known
            &&& desk.iconic(w) == o.iconic
            &&& desk.cloaked(w) == (known && o.cloaked == Some(true))
            &&& desk.hidden(w) == (o.iconic || known && o.cloaked == Some(true))
            &&& desk.focused(w) == (known && desk.foreground == Some(w))
            &&& desk.monitor_of(w) == o.monitor
            &&& desk.frame_of(w) == (if known {
                o.frame
            } else {
                None
            })
            &&& desk.outer_of(w) == (if known {
                o.outer
            } else {
                None
            })
            &&& known ==> (match o.class {
                Some(c) => desk.class_of(w) == Some(c@),
                None => desk.class_of(w) is None,
            }) && (match o.process {
                Some(p) => desk.process_of(w) == Some(p@),
                None => desk.process_of(w) is None,
            }) && (match o.exe_path {
                Some(p) => desk.path_of(w) == Some(p@),
                None => desk.path_of(w) is None,
            })
            &&& !known ==> desk.class_of(w) is None && desk.process_of(w) is None && desk.path_of(
                w,
            ) is None
        }),
{
    reveal(Desktop::facts);
    lemma_first_hit(window_mask(desk.observed@, desk.observed@[i].window), i);
}

/// A window that nobody looked at is not there.
pub proof fn law_unseen_window_is_unknown(desk: Desktop, w: Window)
    requires
        forall|k: int| 0 <= k < desk.observed@.len() ==> (#[trigger] desk.observed@[k]).window != w,
    ensures
        desk.facts(w) is None,
        !desk.valid(w),
        !desk.hidden(w),
        !desk.focused(w),
        desk.frame_of(w) is None,
        desk.outer_of(w) is None,
        desk.class_of(w) is None,
        desk.process_of(w) is None,
{
    reveal(Desktop::facts);
    lemma_first_miss(window_mask(desk.observed@, w));
}

} // verus!
