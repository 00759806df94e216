//! The horizontal strip of tiles.
//!
//! A [`ScrollTiler`] keeps the tiled windows in order, with a width each, and a
//! scroll offset that says which part of the strip the screen shows. Its
//! methods take one look at the desktop and return what is to be done to the
//! windows. [`strip::Strip`] is the mathematical value of a tiler; the
//! contracts speak of it.
use vstd::prelude::*;

use crate::geometry::{clamp, clamped, floor_div, step_ok, width_ok, Size, PX};
use crate::scroll_tiler::item::WindowItem;
use crate::scroll_tiler::profile::{Counters, ScrollProfile};
use crate::scroll_tiler::strip::{
    cursor, focus_mask, hwnd_mask, is_tiled, lemma_cursor_bounds, lemma_position_bounds, position,
    positions, positions_ok, tile_mask, ScrollAnimation, Strip,
};
use crate::search::{first_true, lemma_first_hit, lemma_first_miss};
use crate::window::{Desktop, Window};

pub mod arrival_laws;
pub mod command_laws;
pub mod commands;
pub mod item;
pub mod laws;
pub mod layout;
pub mod layout_laws;
pub mod motion;
pub mod motion_laws;
pub mod plan_laws;
pub mod profile;
pub mod snapshot;
pub mod snapshot_laws;
pub mod strip;

verus! {

/// The focus border stays hidden for so long after the last motion, in
/// nanoseconds.
pub const BORDER_SETTLE_GRACE: u64 = 500_000_000;

/// The focus border then fades in for so long, in nanoseconds.
pub const BORDER_FADE_IN: u64 = 250_000_000;

#[derive(Debug)]
pub struct ScrollTiler {
    /// The windows managed by the tiler.
    pub windows: Vec<WindowItem>,
    /// The gap between windows and screen edges.
    pub padding: i64,
    /// How much a resize step changes a width.
    pub resize_increment: i64,
    pub scroll_offset: i64,
    /// Where exponential smoothing is heading. Never set together with
    /// `scroll_animation`.
    pub scroll_target: Option<i64>,
    /// A scroll over a fixed time. Never set together with `scroll_target`.
    pub scroll_animation: Option<ScrollAnimation>,
    pub smooth_scroll_enabled: bool,
    /// Thousandths of the remaining way that one frame covers.
    pub smooth_scroll_factor: u32,
    /// Whether slow applications sit out frames of an animation.
    pub throttle_slow_apps: bool,
    pub screen_size: Size,
    /// Stands in for the focused window while that one is not tiled.
    pub previously_focused_window_index: Option<usize>,
    /// When a window last moved, in nanoseconds.
    pub last_motion: Option<u64>,
    pub was_mouse_held_last_snapshot: bool,
    /// Frames since the animation started.
    pub scroll_frame_index: u32,
    pub was_animating_last_layout: bool,
    pub scroll_profile: ScrollProfile,
}

impl View for ScrollTiler {
    type V = Strip;

    open spec fn view(&self) -> Strip {
        Strip {
            windows: self.windows@,
            padding: self.padding,
            resize_increment: self.resize_increment,
            scroll_offset: self.scroll_offset,
            scroll_target: self.scroll_target,
            scroll_animation: self.scroll_animation,
            smooth_scroll_enabled: self.smooth_scroll_enabled,
            smooth_scroll_factor: self.smooth_scroll_factor,
            throttle_slow_apps: self.throttle_slow_apps,
            screen_size: self.screen_size,
            previously_focused_window_index: self.previously_focused_window_index,
            last_motion: self.last_motion,
            was_mouse_held_last_snapshot: self.was_mouse_held_last_snapshot,
            scroll_frame_index: self.scroll_frame_index,
            was_animating_last_layout: self.was_animating_last_layout,
            profile: self.scroll_profile@,
        }
    }
}

pub fn find_tile(windows: &Vec<WindowItem>, w: Window) -> (r: Option<usize>)
    ensures
        match r {
            Some(i) => first_true(tile_mask(windows@, w)) == Some(i as int) && i < windows@.len()
                && windows@[i as int].inner == w,
            None => first_true(tile_mask(windows@, w)) is None && !is_tiled(windows@, w),
        },
{
    let mut i: usize = 0;
    while i < windows.len()
        invariant
            i <= windows.len(),
            forall|j: int| 0 <= j < i ==> !tile_mask(windows@, w)[j],
        decreases windows.len() - i,
    {
        if windows[i].inner == w {
            proof {
                lemma_first_hit(tile_mask(windows@, w), i as int);
            }
            return Some(i);
        }
        i = i + 1;
    }
    proof {
        lemma_first_miss(tile_mask(windows@, w));
        assert forall|j: int| 0 <= j < windows@.len() implies (#[trigger] windows@[j]).inner
            != w by {
            assert(!tile_mask(windows@, w)[j]);
        }
    }
    None
}

pub fn find_hwnd(windows: &Vec<WindowItem>, hwnd: u64) -> (r: Option<usize>)
    ensures
        match r {
            Some(i) => first_true(hwnd_mask(windows@, hwnd)) == Some(i as int) && i
                < windows@.len() && windows@[i as int].inner.hwnd == hwnd,
            None => first_true(hwnd_mask(windows@, hwnd)) is None,
        },
{
    let mut i: usize = 0;
    while i < windows.len()
        invariant
            i <= windows.len(),
            forall|j: int| 0 <= j < i ==> !hwnd_mask(windows@, hwnd)[j],
        decreases windows.len() - i,
    {
        if windows[i].inner.hwnd == hwnd {
            proof {
                lemma_first_hit(hwnd_mask(windows@, hwnd), i as int);
            }
            return Some(i);
        }
        i = i + 1;
    }
    proof {
        lemma_first_miss(hwnd_mask(windows@, hwnd));
    }
    None
}

impl ScrollTiler {
    pub open spec fn wf(self) -> bool {
        self@.wf()
    }

    /// An empty strip. A button that is held when the tiler starts does not
    /// count as a drag when it is let go.
    pub fn new(padding: i64, resize_increment: i64, screen_size: Size, mouse_held: bool) -> (r:
        Self)
        requires
            step_ok(padding),
            step_ok(resize_increment),
            screen_size.ok(),
        ensures
            r@ == Strip::fresh(padding, resize_increment, screen_size, mouse_held),
            r.wf(),
    {
        ScrollTiler {
            windows: Vec::new(),
            padding,
            resize_increment,
            scroll_offset: 0,
            scroll_target: None,
            scroll_animation: None,
            smooth_scroll_enabled: false,
            smooth_scroll_factor: 250,
            throttle_slow_apps: true,
            screen_size,
            previously_focused_window_index: None,
            last_motion: None,
            was_mouse_held_last_snapshot: mouse_held,
            scroll_frame_index: 0,
            was_animating_last_layout: false,
            scroll_profile: ScrollProfile::new(),
        }
    }

    /// Sets whether scrolling is smoothed, and by how many thousandths per
    /// frame.
    pub fn set_smoothing(&mut self, enabled: bool, factor: i64)
        requires
            old(self).wf(),
        ensures
            final(self)@ == (Strip {
                smooth_scroll_enabled: enabled,
                smooth_scroll_factor: clamped(factor as int, 50, 1000) as u32,
                ..old(self)@
            }),
            final(self).wf(),
    {
        self.smooth_scroll_enabled = enabled;
        let factor: i64 = clamp(factor, 50, 1000);
        self.smooth_scroll_factor = factor as u32;
    }

    /// Sets whether slow applications are moved less often during animations;
    /// otherwise every window gets every frame.
    pub fn set_throttle_slow_apps(&mut self, enabled: bool)
        requires
            old(self).wf(),
        ensures
            final(self)@ == (Strip { throttle_slow_apps: enabled, ..old(self)@ }),
            final(self).wf(),
    {
        self.throttle_slow_apps = enabled;
    }

    /// Whether anything is on its way somewhere.
    pub fn is_animating(&self) -> (r: bool)
        ensures
            r == self@.animating(),
    {
        if self.scroll_target.is_some() || self.scroll_animation.is_some() {
            return true;
        }
        let mut i: usize = 0;
        while i < self.windows.len()
            invariant
                i <= self.windows.len(),
                forall|j: int|
                    0 <= j < i ==> (#[trigger] self.windows@[j]).width_animation is None,
            decreases self.windows.len() - i,
        {
            if self.windows[i].width_animation.is_some() {
                assert(self@.windows[i as int].width_animation is Some);
                return true;
            }
            i = i + 1;
        }
        false
    }

    /// How long ago anything in the strip moved, in nanoseconds; `None` until
    /// something has.
    pub fn time_since_motion(&self, now: u64) -> (r: Option<u64>)
        ensures
            r == (match self@.last_motion {
                Some(t) => Some(
                    if now > t {
                        (now - t) as u64
                    } else {
                        0
                    },
                ),
                None => None,
            }),
    {
        match self.last_motion {
            Some(t) => if now > t {
                Some(now - t)
            } else {
                Some(0)
            },
            None => None,
        }
    }

    /// Whether frames are needed: something moves, or the focus border is
    /// still waiting or fading in.
    pub fn wants_redraw(&self, now: u64) -> (r: bool)
        ensures
            r == (self@.animating() || (self@.last_motion matches Some(t) && now - t
                < BORDER_SETTLE_GRACE + BORDER_FADE_IN)),
    {
        if self.is_animating() {
            return true;
        }
        match self.time_since_motion(now) {
            Some(elapsed) => elapsed < BORDER_SETTLE_GRACE + BORDER_FADE_IN,
            None => false,
        }
    }

    pub fn focus_index(&self, desk: &Desktop) -> (r: Option<usize>)
        ensures
            match r {
                Some(i) => self@.focus_index(*desk) == Some(i as int) && i < self@.windows.len(),
                None => self@.focus_index(*desk) is None,
            },
    {
        let mut i: usize = 0;
        while i < self.windows.len()
            invariant
                i <= self.windows.len(),
                forall|j: int| 0 <= j < i ==> !focus_mask(self.windows@, *desk)[j],
            decreases self.windows.len() - i,
        {
            if self.windows[i].inner.has_focus(desk) {
                proof {
                    lemma_first_hit(focus_mask(self.windows@, *desk), i as int);
                }
                return Some(i);
            }
            i = i + 1;
        }
        proof {
            lemma_first_miss(focus_mask(self.windows@, *desk));
        }
        None
    }

    /// The focused window, if it is tiled.
    pub fn focused_window(&self, desk: &Desktop) -> (r: Option<Window>)
        ensures
            r == (match self@.focus_index(*desk) {
                Some(i) => Some(self@.windows[i].inner),
                None => None,
            }),
    {
        match self.focus_index(desk) {
            Some(i) => Some(self.windows[i].inner),
            None => None,
        }
    }

    /// The left edge of every tile in the strip. Subtract the scroll offset to
    /// get the place on the screen.
    pub fn windows_positions(&self, desk: &Desktop) -> (r: Vec<i64>)
        requires
            self.wf(),
        ensures
            r@ == self@.positions(*desk),
            positions_ok(r@),
    {
        let mut out: Vec<i64> = Vec::new();
        let mut at: i64 = 0;
        let mut i: usize = 0;
        while i < self.windows.len()
            invariant
                self.wf(),
                i <= self.windows.len(),
                out@.len() == i,
                at == cursor(self.windows@, *desk, self.padding as int, i as int),
                forall|j: int|
                    0 <= j < i ==> #[trigger] out@[j] == position(
                        self.windows@,
                        *desk,
                        self.padding as int,
                        j,
                    ),
                positions_ok(out@),
            decreases self.windows.len() - i,
        {
            proof {
                lemma_cursor_bounds(self.windows@, *desk, self.padding as int, i as int);
                lemma_cursor_bounds(self.windows@, *desk, self.padding as int, i + 1);
                lemma_position_bounds(self.windows@, *desk, self.padding as int, i as int);
                assert(self.windows@[i as int].ok());
            }
            let item: WindowItem = self.windows[i];
            if item.inner.is_cloaked(desk) || item.inner.is_iconic(desk) {
                out.push(at);
            } else {
                out.push(at + self.padding);
                at = at + self.padding + (item.width + self.padding);
            }
            i = i + 1;
        }
        proof {
            assert(out@ =~= self@.positions(*desk));
        }
        out
    }

    /// Extent of the strip with the gap before the first and behind the last
    /// visible window.
    pub fn total_strip_width(&self, desk: &Desktop) -> (r: i64)
        requires
            self.wf(),
        ensures
            r == self@.total_strip_width(*desk),
    {
        let mut total: i64 = 0;
        let mut i: usize = 0;
        while i < self.windows.len()
            invariant
                self.wf(),
                i <= self.windows.len(),
                total == cursor(self.windows@, *desk, self.padding as int, i as int),
            decreases self.windows.len() - i,
        {
            proof {
                lemma_cursor_bounds(self.windows@, *desk, self.padding as int, i as int);
                assert(self.windows@[i as int].ok());
            }
            let item: WindowItem = self.windows[i];
            if !item.inner.is_hidden(desk) {
                total = total + (2 * self.padding + item.width);
            }
            i = i + 1;
        }
        total
    }

    /// Widest a tile may get on request: a tile as wide as the screen could
    /// not be scrolled into view whole.
    pub fn max_screen_width(&self) -> (r: i64)
        requires
            self.wf(),
        ensures
            r == self@.max_screen_width(),
            width_ok(r),
    {
        self.screen_size.width - 2 * self.padding - PX
    }

    /// Width of a new tile.
    pub fn default_size(&self) -> (r: i64)
        requires
            self.wf(),
        ensures
            r == self@.default_size(),
            width_ok(r),
    {
        floor_div(self.screen_size.width, 4) - 2 * self.padding
    }

    pub fn windows(&self) -> (r: &Vec<WindowItem>)
        ensures
            r@ == self@.windows,
    {
        &self.windows
    }

    pub fn scroll_offset(&self) -> (r: i64)
        ensures
            r == self@.scroll_offset,
    {
        self.scroll_offset
    }

    pub fn padding(&self) -> (r: i64)
        ensures
            r == self@.padding,
    {
        self.padding
    }

    pub fn screen_size(&self) -> (r: Size)
        ensures
            r == self@.screen_size,
    {
        self.screen_size
    }
}

/// Whether the left mouse button is down, from its state as the window system
/// gives it: the top bit says so.
pub fn is_left_mouse_held(raw: i16) -> (r: bool)
    ensures
        r == (raw < 0),
{
    raw < 0
}

} // verus!
