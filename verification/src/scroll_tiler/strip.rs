//! The state of the strip as a mathematical value, and where its tiles lie.
use vstd::prelude::*;

use crate::geometry::{position_ok, step_ok, Size, PX};
use crate::scroll_tiler::item::{new_item, WindowItem};
use crate::scroll_tiler::profile::Counters;
use crate::search::first_true;
use crate::window::{Desktop, Window};

verus! {

/// More windows than a session can hold.
pub const MAX_WINDOWS: usize = 65_536;

/// A scroll in progress, driven by the clock.
#[derive(Debug, Clone, Copy, PartialEq, Eq, Structural)]
pub struct ScrollAnimation {
    pub start_offset: i64,
    pub target_offset: i64,
    /// Nanoseconds.
    pub start_time: u64,
    /// Nanoseconds.
    pub duration: u64,
}

/// What a tiler holds.
#[verifier::ext_equal]
pub struct Strip {
    pub windows: Seq<WindowItem>,
    pub padding: i64,
    pub resize_increment: i64,
    pub scroll_offset: i64,
    pub scroll_target: Option<i64>,
    pub scroll_animation: Option<ScrollAnimation>,
    pub smooth_scroll_enabled: bool,
    pub smooth_scroll_factor: u32,
    pub throttle_slow_apps: bool,
    pub screen_size: Size,
    pub previously_focused_window_index: Option<usize>,
    pub last_motion: Option<u64>,
    pub was_mouse_held_last_snapshot: bool,
    pub scroll_frame_index: u32,
    pub was_animating_last_layout: bool,
    pub profile: Counters,
}

/// No window has two tiles.
pub open spec fn distinct(windows: Seq<WindowItem>) -> bool {
    forall|i: int, j: int|
        0 <= i < j < windows.len() ==> (#[trigger] windows[i]).inner != (#[trigger]
        windows[j]).inner
}

pub open spec fn items_ok(windows: Seq<WindowItem>) -> bool {
    &&& windows.len() <= MAX_WINDOWS
    &&& forall|i: int| 0 <= i < windows.len() ==> (#[trigger] windows[i]).ok()
}

/// Which items belong to `w`.
pub open spec fn tile_mask(windows: Seq<WindowItem>, w: Window) -> Seq<bool> {
    Seq::new(windows.len(), |i: int| windows[i].inner == w)
}

pub open spec fn hwnd_mask(windows: Seq<WindowItem>, hwnd: u64) -> Seq<bool> {
    Seq::new(windows.len(), |i: int| windows[i].inner.hwnd == hwnd)
}

pub open spec fn focus_mask(windows: Seq<WindowItem>, desk: Desktop) -> Seq<bool> {
    Seq::new(windows.len(), |i: int| desk.focused(windows[i].inner))
}

pub open spec fn is_tiled(windows: Seq<WindowItem>, w: Window) -> bool {
    exists|i: int| 0 <= i < windows.len() && (#[trigger] windows[i]).inner == w
}

/// Room the first `upto` tiles take up. Hidden windows take none, so that the
/// visible ones stay packed.
pub open spec fn cursor(windows: Seq<WindowItem>, desk: Desktop, padding: int, upto: int) -> int
    decreases upto,
{
    if upto <= 0 {
        0
    } else {
        cursor(windows, desk, padding, upto - 1) + (if desk.hidden(windows[upto - 1].inner) {
            0
        } else {
            2 * padding + windows[upto - 1].width
        })
    }
}

/// Left edge of tile `i` in the strip.
pub open spec fn position(windows: Seq<WindowItem>, desk: Desktop, padding: int, i: int) -> int {
    cursor(windows, desk, padding, i) + (if desk.hidden(windows[i].inner) {
        0
    } else {
        padding
    })
}

/// One position per tile.
pub open spec fn positions(windows: Seq<WindowItem>, desk: Desktop, padding: int) -> Seq<i64> {
    Seq::new(windows.len(), |i: int| position(windows, desk, padding, i) as i64)
}

/// Positions that keep the arithmetic of the layout in range.
pub open spec fn positions_ok(p: Seq<i64>) -> bool {
    forall|i: int| 0 <= i < p.len() ==> position_ok(#[trigger] p[i])
}

pub proof fn lemma_cursor_bounds(windows: Seq<WindowItem>, desk: Desktop, padding: int, upto: int)
    requires
        items_ok(windows),
        -crate::geometry::STEP_MAX <= padding <= crate::geometry::STEP_MAX,
        0 <= upto <= windows.len(),
    ensures
        -9_345_848_836_096 * upto <= cursor(windows, desk, padding, upto) <= 9_345_848_836_096
            * upto,
    decreases upto,
{
    if upto > 0 {
        lemma_cursor_bounds(windows, desk, padding, upto - 1);
        assert(windows[upto - 1].ok());
    }
}

pub proof fn lemma_position_bounds(windows: Seq<WindowItem>, desk: Desktop, padding: int, i: int)
    requires
        items_ok(windows),
        -crate::geometry::STEP_MAX <= padding <= crate::geometry::STEP_MAX,
        0 <= i < windows.len(),
    ensures
        -700_000_000_000_000_000 <= position(windows, desk, padding, i)
            <= 700_000_000_000_000_000,
{
    lemma_cursor_bounds(windows, desk, padding, i);
}

/// The items whose entry in `mask` is set, in order.
pub open spec fn selected(windows: Seq<WindowItem>, mask: Seq<bool>) -> Seq<WindowItem>
    decreases windows.len(),
{
    if windows.len() == 0 || mask.len() == 0 {
        seq![]
    } else {
        let rest = selected(windows.drop_last(), mask.drop_last());
        if mask.last() {
            rest.push(windows.last())
        } else {
            rest
        }
    }
}

/// How many entries of `mask` are set.
pub open spec fn count_true(mask: Seq<bool>) -> nat
    decreases mask.len(),
{
    if mask.len() == 0 {
        0
    } else {
        count_true(mask.drop_last()) + (if mask.last() {
            1nat
        } else {
            0nat
        })
    }
}

/// Everything selected was there, and everything marked is selected.
pub proof fn lemma_selected(windows: Seq<WindowItem>, mask: Seq<bool>)
    requires
        windows.len() == mask.len(),
    ensures
        selected(windows, mask).len() <= windows.len(),
        forall|k: int|
            0 <= k < selected(windows, mask).len() ==> exists|i: int|
                0 <= i < windows.len() && mask[i] && #[trigger] windows[i] == (#[trigger] selected(
                    windows,
                    mask,
                )[k]),
        forall|i: int|
            0 <= i < windows.len() && mask[i] ==> exists|k: int|
                0 <= k < selected(windows, mask).len() && #[trigger] selected(windows, mask)[k] == (
                #[trigger] windows[i]),
        distinct(windows) ==> distinct(selected(windows, mask)),
    decreases windows.len(),
{
    if windows.len() > 0 {
        let init = windows.drop_last();
        let mi = mask.drop_last();
        lemma_selected(init, mi);
        let rest = selected(init, mi);
        let r = selected(windows, mask);
        assert forall|k: int| 0 <= k < r.len() implies exists|i: int|
            0 <= i < windows.len() && mask[i] && #[trigger] windows[i] == (#[trigger] r[k]) by {
            if k < rest.len() {
                assert(r[k] == rest[k]);
                let i = choose|i: int| 0 <= i < init.len() && mi[i] && #[trigger] init[i] == rest[k];
                assert(windows[i] == r[k] && mask[i]);
            } else {
                assert(windows[windows.len() - 1] == r[k]);
            }
        }
        assert forall|i: int| 0 <= i < windows.len() && mask[i] implies exists|k: int|
            0 <= k < r.len() && #[trigger] r[k] == (#[trigger] windows[i]) by {
            if i < init.len() {
                assert(init[i] == windows[i] && mi[i]);
                let k = choose|k: int| 0 <= k < rest.len() && #[trigger] rest[k] == init[i];
                assert(r[k] == windows[i]);
            } else {
                assert(r[r.len() - 1] == windows[i]);
            }
        }
        if distinct(windows) {
            assert(distinct(init)) by {
                assert forall|i: int, j: int| 0 <= i < j < init.len() implies (#[trigger]
                init[i]).inner != (#[trigger] init[j]).inner by {
                    assert(windows[i].inner != windows[j].inner);
                }
            }
            assert forall|a: int, b: int| 0 <= a < b < r.len() implies (#[trigger] r[a]).inner != (
            #[trigger] r[b]).inner by {
                if b < rest.len() {
                    assert(rest[a].inner != rest[b].inner);
                } else {
                    let i = choose|i: int|
                        0 <= i < init.len() && mi[i] && #[trigger] init[i] == rest[a];
                    assert(windows[i].inner != windows[windows.len() - 1].inner);
                }
            }
        }
    }
}

/// The items left when the marked ones go; an empty `snapshot` keeps none but
/// those on another virtual desktop.
pub open spec fn keep_mask(windows: Seq<WindowItem>, snapshot: Seq<Window>, desk: Desktop) -> Seq<
    bool,
> {
    Seq::new(
        windows.len(),
        |i: int|
            snapshot.contains(windows[i].inner) || (desk.valid(windows[i].inner) && desk.cloaked(
                windows[i].inner,
            )),
    )
}

/// The windows that a drag has taken off the tiling monitor.
pub open spec fn drag_mask(windows: Seq<WindowItem>, desk: Desktop, tiling_hmonitor: i64) -> Seq<
    bool,
> {
    Seq::new(windows.len(), |i: int| windows[i].dragged_away(desk, tiling_hmonitor))
}

pub open spec fn negated(mask: Seq<bool>) -> Seq<bool> {
    Seq::new(mask.len(), |i: int| !mask[i])
}

/// At most so many windows can be dragged at once; more are a sign that the
/// placements on record are wrong.
pub const DRAG_PRUNE_CAP: usize = 2;

pub open spec fn after_drag(windows: Seq<WindowItem>, desk: Desktop, tiling_hmonitor: i64) -> Seq<
    WindowItem,
> {
    let dragged = drag_mask(windows, desk, tiling_hmonitor);
    if count_true(dragged) > DRAG_PRUNE_CAP {
        windows
    } else {
        selected(windows, negated(dragged))
    }
}

pub open spec fn after_iconic(windows: Seq<WindowItem>, desk: Desktop) -> Seq<WindowItem> {
    Seq::new(windows.len(), |i: int| windows[i].iconic_step(desk))
}

pub open spec fn after_divergence(windows: Seq<WindowItem>, desk: Desktop) -> Seq<WindowItem> {
    Seq::new(windows.len(), |i: int| windows[i].divergence_step(desk))
}

pub open spec fn after_widths(windows: Seq<WindowItem>, desk: Desktop, max_width: int) -> Seq<
    WindowItem,
> {
    Seq::new(windows.len(), |i: int| windows[i].width_step(desk, max_width))
}

/// The tiles after the first `upto` windows of `snapshot` have been let in:
/// those on the tiling monitor that have no tile yet, each put at `at`, or at
/// the end where `at` is `None`.
pub open spec fn appended(
    windows: Seq<WindowItem>,
    snapshot: Seq<Window>,
    desk: Desktop,
    tiling_hmonitor: i64,
    at: Option<int>,
    width: i64,
    upto: int,
) -> Seq<WindowItem>
    decreases upto,
{
    if upto <= 0 {
        windows
    } else {
        let before = appended(windows, snapshot, desk, tiling_hmonitor, at, width, upto - 1);
        let w = snapshot[upto - 1];
        if is_tiled(before, w) || desk.monitor_of(w) != tiling_hmonitor {
            before
        } else {
            match at {
                Some(i) => before.insert(i, new_item(desk, w, width)),
                None => before.push(new_item(desk, w, width)),
            }
        }
    }
}

/// The tiles after the first `upto` windows of `snapshot` have been added at
/// the end, whatever monitor they are on.
pub open spec fn seeded(
    windows: Seq<WindowItem>,
    snapshot: Seq<Window>,
    desk: Desktop,
    width: i64,
    upto: int,
) -> Seq<WindowItem>
    decreases upto,
{
    if upto <= 0 {
        windows
    } else {
        let before = seeded(windows, snapshot, desk, width, upto - 1);
        let w = snapshot[upto - 1];
        if is_tiled(before, w) {
            before
        } else {
            before.push(new_item(desk, w, width))
        }
    }
}

impl Strip {
    /// A strip without tiles that has never moved.
    pub open spec fn fresh(
        padding: i64,
        resize_increment: i64,
        screen_size: Size,
        mouse_held: bool,
    ) -> Self {
        Strip {
            windows: seq![],
            padding,
            resize_increment,
            scroll_offset: 0,
            scroll_target: None,
            scroll_animation: None,
            smooth_scroll_enabled: false,
            smooth_scroll_factor: 250,
            throttle_slow_apps: true,
            screen_size,
            previously_focused_window_index: None,
            last_motion: None,
            was_mouse_held_last_snapshot: mouse_held,
            scroll_frame_index: 0,
            was_animating_last_layout: false,
            profile: Counters { start: None, frame_count: 0, counts: seq![] },
        }
    }

    /// What every operation keeps.
    pub open spec fn wf(self) -> bool {
        &&& items_ok(self.windows)
        &&& distinct(self.windows)
        &&& step_ok(self.padding)
        &&& step_ok(self.resize_increment)
        &&& self.screen_size.ok()
        // Starting one kind of scrolling ends the other.
        &&& !(self.scroll_target is Some && self.scroll_animation is Some)
        &&& 50 <= self.smooth_scroll_factor <= 1000
        &&& self.previously_focused_window_index matches Some(i) ==> i < MAX_WINDOWS
    }

    pub open spec fn some_width_moves(self) -> bool {
        exists|i: int|
            0 <= i < self.windows.len() && (#[trigger] self.windows[i]).width_animation is Some
    }

    /// Whether anything is on its way somewhere.
    pub open spec fn animating(self) -> bool {
        self.scroll_target is Some || self.scroll_animation is Some || self.some_width_moves()
    }

    pub open spec fn focus_index(self, desk: Desktop) -> Option<int> {
        first_true(focus_mask(self.windows, desk))
    }

    pub open spec fn positions(self, desk: Desktop) -> Seq<i64> {
        positions(self.windows, desk, self.padding as int)
    }

    /// Widest a tile may get on request.
    pub open spec fn max_screen_width(self) -> int {
        self.screen_size.width - 2 * self.padding - PX
    }

    /// Width of a new tile: a quarter of the screen.
    pub open spec fn default_size(self) -> int {
        self.screen_size.width as int / 4 - 2 * self.padding
    }

    /// The offset that puts the middle of a tile into the middle of the screen.
    pub open spec fn centering_offset(self, x: int, width: int) -> int {
        x + width / 2 - self.screen_size.width as int / 2
    }

    /// Extent of all visible tiles, each with the gap before it and the one
    /// behind it.
    pub open spec fn total_strip_width(self, desk: Desktop) -> int {
        cursor(self.windows, desk, self.padding as int, self.windows.len() as int)
    }

    pub open spec fn with_windows(self, windows: Seq<WindowItem>) -> Self {
        Strip { windows, ..self }
    }

    pub open spec fn moved_at(self, now: u64) -> Self {
        Strip { last_motion: Some(now), ..self }
    }
}

} // verus!
