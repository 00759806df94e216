//! One tile, and what a look at the desktop changes about it.
use vstd::prelude::*;

use crate::geometry::{abs_diff, bounds_of, magnitude, width_ok, Bounds, Position, PX};
use crate::text::{eq_ignore_ascii_case, same_ignoring_ascii_case};
use crate::window::{Desktop, Window};

verus! {

/// How far a window must be from where it was placed to count as dragged.
pub const DRAG_DETECT: i64 = 50_000;

/// Distance from the placed position above which the placement is repeated.
pub const DIVERGENCE: i64 = 5_000;

/// Movement between two looks that is put down to noise.
pub const MOVEMENT_NOISE: i64 = 1_000;

/// Largest change of width that is believed while no mouse button is held.
pub const MAX_UNTRUSTED_DELTA: i64 = 250_000;

/// Smallest change of a rectangle that counts as motion.
pub const MOTION_EPS: i64 = 500;

/// A width change in progress, driven by the clock.
#[derive(Debug, Clone, Copy, PartialEq, Eq, Structural)]
pub struct WidthAnimation {
    pub start_width: i64,
    pub target_width: i64,
    /// Nanoseconds.
    pub start_time: u64,
    /// Nanoseconds.
    pub duration: u64,
}

/// Where a window was put: position and size of its visible frame.
#[derive(Debug, Clone, Copy, PartialEq, Eq, Structural)]
pub struct Placement {
    pub x: i64,
    pub y: i64,
    pub width: i64,
    pub height: i64,
}

/// A visible region in window-local whole pixels.
#[derive(Debug, Clone, Copy, PartialEq, Eq, Structural)]
pub struct Clip {
    pub left: i32,
    pub top: i32,
    pub right: i32,
    pub bottom: i32,
}

/// A window managed by the tiler.
#[derive(Debug, Clone, Copy)]
pub struct WindowItem {
    /// The managed window.
    pub inner: Window,
    /// The width asked for; taken by the next snapshot. Where it is `None`
    /// then, the current width of the window is used.
    pub requested_width: Option<i64>,
    /// The current width of the window.
    pub width: i64,
    /// The rectangle that the window was last asked to take.
    pub last_layout: Option<Placement>,
    /// The visible region last set; `None` while the whole window shows.
    pub last_clip: Option<Clip>,
    pub width_animation: Option<WidthAnimation>,
    /// Where the previous snapshot saw the window.
    pub last_observed_pos: Option<Position>,
    /// No visible region may be set on this window.
    pub skip_clipping: bool,
    pub was_iconic_last_tick: bool,
    /// The width the tile had when the window was minimized.
    pub pre_minimize_width: Option<i64>,
    /// The window is moved at every such frame of an animation.
    pub scroll_frame_throttle: u32,
    /// A move was left out because of that, and is still to be made.
    pub move_owed: bool,
}

/// Moves of one window per so many frames, for executables that repaint slowly.
pub open spec fn throttle_for(process: Seq<char>) -> u32 {
    if same_ignoring_ascii_case(process, "explorer.exe"@) {
        3
    } else {
        1
    }
}

pub fn frame_throttle_for(process_name: &str) -> (r: u32)
    ensures
        r == throttle_for(process_name@),
{
    if eq_ignore_ascii_case(process_name, "explorer.exe") {
        3
    } else {
        1
    }
}

/// The throttle of a window on which the desktop was looked at.
pub open spec fn observed_throttle(desk: Desktop, w: Window) -> u32 {
    match desk.process_of(w) {
        Some(p) => throttle_for(p),
        None => 1,
    }
}

pub fn look_up_throttle(desk: &Desktop, w: Window) -> (r: u32)
    ensures
        r == observed_throttle(*desk, w),
{
    match w.process_name(desk) {
        Some(p) => frame_throttle_for(p.as_str()),
        None => 1,
    }
}

pub open spec fn new_item(desk: Desktop, w: Window, width: i64) -> WindowItem {
    WindowItem {
        inner: w,
        requested_width: Some(width),
        width,
        last_layout: None,
        last_clip: None,
        width_animation: None,
        last_observed_pos: None,
        skip_clipping: desk.class_of(w) matches Some(c) && "Chrome_WidgetWin_"@.is_prefix_of(c),
        was_iconic_last_tick: false,
        pre_minimize_width: None,
        scroll_frame_throttle: observed_throttle(desk, w),
        move_owed: false,
    }
}

impl WindowItem {
    pub open spec fn ok(self) -> bool {
        &&& width_ok(self.width)
        &&& self.requested_width matches Some(w) ==> width_ok(w)
        &&& self.pre_minimize_width matches Some(w) ==> width_ok(w)
        &&& self.width_animation matches Some(a) ==> width_ok(a.start_width) && width_ok(
            a.target_width,
        )
        &&& self.last_layout matches Some(p) ==> width_ok(p.width)
        &&& self.scroll_frame_throttle >= 1
    }

    /// The same tile, but for where its window was put and seen and what of it
    /// shows.
    pub open spec fn same_tile(self, other: Self) -> bool {
        &&& self.inner == other.inner
        &&& self.width == other.width
        &&& self.requested_width == other.requested_width
        &&& self.width_animation == other.width_animation
        &&& self.was_iconic_last_tick == other.was_iconic_last_tick
        &&& self.pre_minimize_width == other.pre_minimize_width
    }

    pub fn new(inner: Window, width: i64, desk: &Desktop) -> (r: Self)
        requires
            width_ok(width),
        ensures
            r == new_item(*desk, inner, width),
            r.ok(),
    {
        let skip_clipping: bool = match inner.is_clip_unsafe(desk) {
            Some(b) => b,
            None => false,
        };
        WindowItem {
            inner,
            requested_width: Some(width),
            width,
            last_layout: None,
            last_clip: None,
            width_animation: None,
            last_observed_pos: None,
            skip_clipping,
            was_iconic_last_tick: false,
            pre_minimize_width: None,
            scroll_frame_throttle: look_up_throttle(desk, inner),
            move_owed: false,
        }
    }

    pub open spec fn spec_request_width(self, width: i64) -> Self {
        WindowItem { requested_width: Some(width), ..self }
    }

    /// On the way into the taskbar the width is remembered; on the way out it
    /// is asked for again, and the placement is forgotten so that it is made
    /// anew.
    pub open spec fn iconic_step(self, desk: Desktop) -> Self {
        let now_iconic = desk.iconic(self.inner);
        let base = WindowItem { was_iconic_last_tick: now_iconic, ..self };
        if !self.was_iconic_last_tick && now_iconic {
            WindowItem { pre_minimize_width: Some(self.width), ..base }
        } else if self.was_iconic_last_tick && !now_iconic && self.pre_minimize_width is Some {
            WindowItem {
                requested_width: self.pre_minimize_width,
                pre_minimize_width: None,
                last_layout: None,
                ..base
            }
        } else {
            base
        }
    }

    pub fn track_iconic(self, desk: &Desktop) -> (r: Self)
        requires
            self.ok(),
        ensures
            r == self.iconic_step(*desk),
            r.ok(),
    {
        let now_iconic: bool = self.inner.is_iconic(desk);
        let mut item: WindowItem = self;
        if !self.was_iconic_last_tick && now_iconic {
            item.pre_minimize_width = Some(self.width);
        } else if self.was_iconic_last_tick && !now_iconic {
            match self.pre_minimize_width {
                Some(w) => {
                    item.requested_width = Some(w);
                    item.pre_minimize_width = None;
                    item.last_layout = None;
                },
                None => {},
            }
        }
        item.was_iconic_last_tick = now_iconic;
        item
    }

    /// Whether the window left the tiling monitor and is far from where it
    /// was placed.
    pub open spec fn dragged_away(self, desk: Desktop, tiling_hmonitor: i64) -> bool {
        &&& desk.monitor_of(self.inner) != tiling_hmonitor
        &&& !desk.cloaked(self.inner)
        &&& self.last_layout matches Some(p) && (desk.frame_of(self.inner) matches Some(f) && (
        magnitude(f.left * PX - p.x) > DRAG_DETECT || magnitude(f.top * PX - p.y) > DRAG_DETECT))
    }

    pub fn was_dragged_away(&self, desk: &Desktop, tiling_hmonitor: i64) -> (r: bool)
        ensures
            r == self.dragged_away(*desk, tiling_hmonitor),
    {
        if self.inner.monitor(desk) == tiling_hmonitor {
            return false;
        }
        if self.inner.is_cloaked(desk) {
            return false;
        }
        match (self.last_layout, self.inner.desktop_manager_bounds(desk)) {
            (Some(p), Some(b)) => {
                let pos: Position = b.position();
                abs_diff(pos.x, p.x) > DRAG_DETECT as u64 || abs_diff(pos.y, p.y)
                    > DRAG_DETECT as u64
            },
            _ => false,
        }
    }

    /// The placement is forgotten where the window moved since the last look
    /// and is not where it was placed; a window that stays put is left alone.
    pub open spec fn divergence_step(self, desk: Desktop) -> Self {
        if desk.hidden(self.inner) {
            WindowItem { last_observed_pos: None, ..self }
        } else {
            match desk.frame_of(self.inner) {
                None => self,
                Some(f) => {
                    let pos = Position { x: bounds_of(f).left, y: bounds_of(f).top };
                    let moved = self.last_observed_pos matches Some(o) && (magnitude(pos.x - o.x)
                        > MOVEMENT_NOISE || magnitude(pos.y - o.y) > MOVEMENT_NOISE);
                    let diverged = self.last_layout matches Some(p) && (magnitude(pos.x - p.x)
                        > DIVERGENCE || magnitude(pos.y - p.y) > DIVERGENCE);
                    WindowItem {
                        last_observed_pos: Some(pos),
                        last_layout: if moved && diverged {
                            None
                        } else {
                            self.last_layout
                        },
                        ..self
                    }
                },
            }
        }
    }

    pub fn track_divergence(self, desk: &Desktop) -> (r: Self)
        requires
            self.ok(),
        ensures
            r == self.divergence_step(*desk),
            r.ok(),
    {
        let mut item: WindowItem = self;
        if self.inner.is_hidden(desk) {
            item.last_observed_pos = None;
            return item;
        }
        let bounds: Bounds = match self.inner.desktop_manager_bounds(desk) {
            Some(b) => b,
            None => {
                return item;
            },
        };
        let pos: Position = bounds.position();
        item.last_observed_pos = Some(pos);
        let moved: bool = match self.last_observed_pos {
            Some(o) => abs_diff(pos.x, o.x) > MOVEMENT_NOISE as u64 || abs_diff(pos.y, o.y)
                > MOVEMENT_NOISE as u64,
            None => false,
        };
        if moved {
            match self.last_layout {
                Some(p) => {
                    if abs_diff(pos.x, p.x) > DIVERGENCE as u64 || abs_diff(pos.y, p.y)
                        > DIVERGENCE as u64 {
                        item.last_layout = None;
                    }
                },
                None => {},
            }
        }
        item
    }

    /// The requested width is taken over; without one, the width of a visible
    /// window is believed unless it is far from the tile's and no button is
    /// held.
    pub open spec fn width_step(self, desk: Desktop, max_width: int) -> Self {
        match self.requested_width {
            Some(w) => WindowItem { requested_width: None, width: w, ..self },
            None => if desk.hidden(self.inner) {
                self
            } else {
                match desk.frame_of(self.inner) {
                    None => self,
                    Some(f) => {
                        let seen = (f.right - f.left) * PX;
                        let new_width = if seen < max_width {
                            seen
                        } else {
                            max_width
                        };
                        if !desk.mouse_held && magnitude(new_width - self.width)
                            > MAX_UNTRUSTED_DELTA {
                            self
                        } else {
                            WindowItem { width: new_width as i64, ..self }
                        }
                    },
                }
            },
        }
    }

    pub fn track_width(self, desk: &Desktop, max_width: i64) -> (r: Self)
        requires
            self.ok(),
            width_ok(max_width),
        ensures
            r == self.width_step(*desk, max_width as int),
            r.ok(),
    {
        let mut item: WindowItem = self;
        match self.requested_width {
            Some(w) => {
                item.requested_width = None;
                item.width = w;
                return item;
            },
            None => {},
        }
        if self.inner.is_cloaked(desk) {
            return item;
        }
        if self.inner.is_iconic(desk) {
            return item;
        }
        match self.inner.desktop_manager_bounds(desk) {
            Some(b) => {
                let seen: i64 = b.size().width;
                let new_width: i64 = if seen < max_width {
                    seen
                } else {
                    max_width
                };
                if !desk.mouse_held && abs_diff(new_width, self.width)
                    > MAX_UNTRUSTED_DELTA as u64 {
                    return item;
                }
                item.width = new_width;
            },
            None => {},
        }
        item
    }
}

/// Windows of the file manager are moved at every third frame, however its name
/// is capitalized; all others at every frame.
pub proof fn law_only_the_file_manager_is_slow(process: Seq<char>)
    ensures
        throttle_for(process) == (if process.len() == 12 && forall|i: int|
            0 <= i < 12 ==> {
                let c = "explorer.exe"@[i];
                #[trigger] process[i] == c || 'a' <= c <= 'z' && process[i] as int == c as int - 32
            } {
            3u32
        } else {
            1
        }),
{
    let e = "explorer.exe"@;
    reveal_strlit("explorer.exe");
    crate::text::law_ascii_capitals_do_not_matter(process, e);
    assert forall|i: int| 0 <= i < e.len() implies !('A' <= #[trigger] e[i] <= 'Z') by {}
    if process.len() == 12 {
        assert forall|i: int| 0 <= i < 12 implies ({
            ||| #[trigger] process[i] == e[i]
            ||| 'A' <= process[i] <= 'Z' && e[i] as int == process[i] as int + 32
            ||| 'A' <= e[i] <= 'Z' && process[i] as int == e[i] as int + 32
        } <==> (process[i] == e[i] || 'a' <= e[i] <= 'z' && process[i] as int == e[i] as int - 32))
            by {
            assert(!('A' <= e[i] <= 'Z'));
        }
    }
}

/// A new tile asks for the width it is given. Only windows of browsers and their
/// kind go without a visible region.
pub proof fn law_new_tile(desk: Desktop, w: Window, width: i64)
    ensures
        ({
            let x = new_item(desk, w, width);
            &&& x.inner == w
            &&& x.width == width
            &&& x.requested_width == Some(width)
            &&& x.last_layout is None && x.last_clip is None && x.width_animation is None
            &&& !x.move_owed && !x.was_iconic_last_tick && x.pre_minimize_width is None
            &&& x.skip_clipping <==> (desk.class_of(w) matches Some(c)
                && exists|rest: Seq<char>| c == #[trigger] ("Chrome_WidgetWin_"@ + rest))
            &&& x.scroll_frame_throttle == (match desk.process_of(w) {
                Some(p) => throttle_for(p),
                None => 1,
            })
        }),
{
    let prefix = "Chrome_WidgetWin_"@;
    match desk.class_of(w) {
        Some(c) => {
            if prefix.is_prefix_of(c) {
                assert(c =~= prefix + c.subrange(prefix.len() as int, c.len() as int));
            }
            assert forall|rest: Seq<char>| c == #[trigger] (prefix + rest) implies
                prefix.is_prefix_of(c) by {
                assert(prefix =~= c.subrange(0, prefix.len() as int));
            }
        },
        None => {},
    }
}

} // verus!
