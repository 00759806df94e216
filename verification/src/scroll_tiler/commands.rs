//! What the user asks of the focused window and of the order of the strip.
use vstd::prelude::*;

use crate::geometry::{abs_diff, clamp, clamped, floor_div, magnitude, width_ok, PX};
use crate::scroll_tiler::item::WindowItem;
use crate::scroll_tiler::profile::{EmitCount, ScrollProfileSnapshot};
use crate::scroll_tiler::strip::{distinct, tile_mask, Strip, MAX_WINDOWS};
use crate::scroll_tiler::{find_hwnd, find_tile, ScrollTiler};
use crate::search::{first_true, lemma_first_true};
use crate::window::{Desktop, Window};

verus! {

#[derive(Debug, Clone, Copy, PartialEq, Eq, Structural)]
pub enum Direction {
    Left,
    Right,
}

/// The first visible window at or right of `from`.
pub open spec fn visible_from(windows: Seq<WindowItem>, desk: Desktop, from: int) -> Option<int>
    decreases windows.len() - from,
{
    if from < 0 || from >= windows.len() {
        None
    } else if !desk.hidden(windows[from].inner) {
        Some(from)
    } else {
        visible_from(windows, desk, from + 1)
    }
}

/// The first visible window at or left of `from`.
pub open spec fn visible_until(windows: Seq<WindowItem>, desk: Desktop, from: int) -> Option<int>
    decreases from + 1,
{
    if from < 0 || from >= windows.len() {
        None
    } else if !desk.hidden(windows[from].inner) {
        Some(from)
    } else {
        visible_until(windows, desk, from - 1)
    }
}

/// `src` taken out and put into the slot of `dst`, which with all between
/// them closes the gap.
pub open spec fn reordered(windows: Seq<WindowItem>, src: Window, dst: Window) -> Seq<WindowItem> {
    match (first_true(tile_mask(windows, src)), first_true(tile_mask(windows, dst))) {
        (Some(s), Some(d)) => if s == d {
            windows
        } else {
            windows.remove(s).insert(d, windows[s])
        },
        _ => windows,
    }
}

pub open spec fn without_layouts(windows: Seq<WindowItem>) -> Seq<WindowItem> {
    Seq::new(windows.len(), |i: int| WindowItem { last_layout: None, ..windows[i] })
}

impl Strip {
    /// The focused tile; without one the tile that had the focus before, and
    /// without that the first.
    pub open spec fn focus_base(self, desk: Desktop) -> Option<int> {
        match self.focus_index(desk) {
            Some(i) => Some(i),
            None => match self.previously_focused_window_index {
                Some(i) => Some(i as int),
                None => if self.windows.len() > 0 {
                    Some(0)
                } else {
                    None
                },
            },
        }
    }

    /// The next visible tile in a direction.
    pub open spec fn next_visible(self, desk: Desktop, start: int, direction: Direction) -> Option<
        int,
    > {
        match direction {
            Direction::Right => visible_from(self.windows, desk, start + 1),
            Direction::Left => visible_until(self.windows, desk, start - 1),
        }
    }

    /// The window that stepping the focus goes to.
    pub open spec fn focus_target(self, desk: Desktop, direction: Direction) -> Option<Window> {
        match self.focus_base(desk) {
            None => None,
            Some(b) => match self.next_visible(desk, b, direction) {
                Some(i) => Some(self.windows[i].inner),
                None => None,
            },
        }
    }

    /// The neighbour of tile `i`, or `i` itself at the end of the strip.
    pub open spec fn neighbour(self, i: int, direction: Direction) -> int {
        match direction {
            Direction::Left => clamped(i - 1, 0, self.windows.len() - 1),
            Direction::Right => clamped(i + 1, 0, self.windows.len() - 1),
        }
    }

    pub open spec fn swapped(self, desk: Desktop, direction: Direction) -> Self {
        match self.focus_index(desk) {
            None => self,
            Some(i) => {
                let j = self.neighbour(i, direction);
                self.with_windows(
                    self.windows.update(i, self.windows[j]).update(j, self.windows[i]),
                )
            },
        }
    }

    /// The strip with a width asked for the focused tile.
    pub open spec fn width_requested(self, desk: Desktop, width: int) -> Self {
        match self.focus_index(desk) {
            None => self,
            Some(i) => self.with_windows(
                self.windows.update(i, self.windows[i].spec_request_width(width as i64)),
            ),
        }
    }

    pub open spec fn half_screen_width(self) -> int {
        self.screen_size.width as int / 2 - 2 * self.padding
    }

    /// The width one step away from that of the focused tile.
    pub open spec fn stepped_width(self, desk: Desktop, grow: bool) -> int {
        let w = self.windows[self.focus_index(desk)->0].width;
        clamped(
            if grow {
                w + self.resize_increment
            } else {
                w - self.resize_increment
            },
            0,
            self.max_screen_width(),
        )
    }
}

/// One line of the report on a finished animation.
#[derive(Debug)]
pub struct ProfileLine {
    /// Executable of the window; empty where it is not known.
    pub process: String,
    /// How often the window was moved.
    pub count: u32,
    /// Frames of the animation.
    pub frame_count: u32,
    /// How far the window is from where it belongs.
    pub lag: u64,
}

/// Lines the report has at most.
pub const PROFILE_LINES: usize = 15;

impl Strip {
    /// Distance of the tile of `hwnd` from its place; nothing where either is
    /// not known.
    pub open spec fn lag_of(self, desk: Desktop, hwnd: u64) -> int {
        match self.tile_of(hwnd) {
            None => 0,
            Some(i) => match (self.windows[i].last_layout, desk.frame_of(self.windows[i].inner)) {
                (Some(p), Some(f)) => magnitude(f.left * PX - p.x),
                _ => 0,
            },
        }
    }

    pub open spec fn process_name_of(self, desk: Desktop, hwnd: u64) -> Seq<char> {
        match self.tile_of(hwnd) {
            None => seq![],
            Some(i) => match desk.process_of(self.windows[i].inner) {
                Some(p) => p,
                None => seq![],
            },
        }
    }

    pub open spec fn profile_line(
        self,
        desk: Desktop,
        s: ScrollProfileSnapshot,
        k: int,
        line: ProfileLine,
    ) -> bool {
        let e = s.counts@[k];
        &&& line.process@ == self.process_name_of(desk, e.hwnd)
        &&& line.count == e.count
        &&& line.frame_count == s.frame_count
        &&& line.lag == self.lag_of(desk, e.hwnd)
    }
}

impl ScrollTiler {
    /// Moves `src` to the slot that `dst` holds. Nothing happens where either
    /// has no tile or both are the same.
    pub fn reorder(&mut self, src: Window, dst: Window)
        requires
            old(self).wf(),
        ensures
            final(self)@ == old(self)@.with_windows(reordered(old(self)@.windows, src, dst)),
            final(self).wf(),
    {
        let s: usize = match find_tile(&self.windows, src) {
            Some(i) => i,
            None => {
                return ;
            },
        };
        let d: usize = match find_tile(&self.windows, dst) {
            Some(i) => i,
            None => {
                return ;
            },
        };
        if s == d {
            return ;
        }
        proof {
            lemma_reordered(self.windows@, src, dst, s as int, d as int);
        }
        let item: WindowItem = self.windows.remove(s);
        self.windows.insert(d, item);
        assert(self@ =~= old(self)@.with_windows(reordered(old(self)@.windows, src, dst)));
    }

    /// Forgets where every window was put, after something else has moved
    /// them, so that the next layout puts them all in place.
    pub fn invalidate_last_layouts(&mut self)
        requires
            old(self).wf(),
        ensures
            final(self)@ == old(self)@.with_windows(without_layouts(old(self)@.windows)),
            final(self).wf(),
    {
        let ghost before = self.windows@;
        let mut i: usize = 0;
        while i < self.windows.len()
            invariant
                i <= self.windows.len(),
                old(self).wf(),
                before == old(self)@.windows,
                self.windows@.len() == before.len(),
                self@ == old(self)@.with_windows(self.windows@),
                forall|j: int|
                    0 <= j < i ==> #[trigger] self.windows@[j] == without_layouts(before)[j],
                forall|j: int| i <= j < before.len() ==> #[trigger] self.windows@[j] == before[j],
            decreases self.windows.len() - i,
        {
            let mut item: WindowItem = self.windows[i];
            item.last_layout = None;
            self.windows[i] = item;
            i = i + 1;
        }
        proof {
            assert(self.windows@ =~= without_layouts(before));
            assert forall|j: int| 0 <= j < before.len() implies (#[trigger]
            self.windows@[j]).ok() by {
                assert(before[j].ok());
            }
        }
    }

    pub fn swap_current_left(&mut self, desk: &Desktop)
        requires
            old(self).wf(),
        ensures
            final(self)@ == old(self)@.swapped(*desk, Direction::Left),
            final(self).wf(),
    {
        self.swap_current(desk, Direction::Left)
    }

    pub fn swap_current_right(&mut self, desk: &Desktop)
        requires
            old(self).wf(),
        ensures
            final(self)@ == old(self)@.swapped(*desk, Direction::Right),
            final(self).wf(),
    {
        self.swap_current(desk, Direction::Right)
    }

    fn compute_index_for_direction(&self, focus_index: usize, direction: Direction) -> (r: usize)
        requires
            focus_index < self@.windows.len(),
        ensures
            r == self@.neighbour(focus_index as int, direction),
            r < self@.windows.len(),
    {
        match direction {
            Direction::Left => if focus_index > 0 {
                focus_index - 1
            } else {
                0
            },
            Direction::Right => if focus_index < self.windows.len() - 1 {
                focus_index + 1
            } else {
                focus_index
            },
        }
    }

    fn swap_current(&mut self, desk: &Desktop, direction: Direction)
        requires
            old(self).wf(),
        ensures
            final(self)@ == old(self)@.swapped(*desk, direction),
            final(self).wf(),
    {
        match self.focus_index(desk) {
            Some(i) => {
                let j: usize = self.compute_index_for_direction(i, direction);
                let a: WindowItem = self.windows[i];
                let b: WindowItem = self.windows[j];
                self.windows[i] = b;
                self.windows[j] = a;
                proof {
                    lemma_swapped(old(self)@.windows, i as int, j as int);
                }
                assert(self@ =~= old(self)@.swapped(*desk, direction));
            },
            None => {},
        }
    }

    /// Walks from `start` past hidden windows: focusing one on another
    /// virtual desktop would switch to that desktop.
    pub fn next_visible_index(&self, start: usize, direction: Direction, desk: &Desktop) -> (r:
        Option<usize>)
        requires
            self.wf(),
            start < MAX_WINDOWS,
        ensures
            match r {
                Some(i) => self@.next_visible(*desk, start as int, direction) == Some(i as int) && i
                    < self@.windows.len(),
                None => self@.next_visible(*desk, start as int, direction) is None,
            },
    {
        match direction {
            Direction::Right => {
                let mut i: usize = start + 1;
                while i < self.windows.len()
                    invariant
                        direction == Direction::Right,
                        start < i,
                        visible_from(self@.windows, *desk, start + 1) == visible_from(
                            self@.windows,
                            *desk,
                            i as int,
                        ),
                    decreases self.windows.len() - i,
                {
                    if !self.windows[i].inner.is_hidden(desk) {
                        return Some(i);
                    }
                    i = i + 1;
                }
                None
            },
            Direction::Left => {
                let mut i: usize = start;
                while i > 0 && i <= self.windows.len()
                    invariant
                        direction == Direction::Left,
                        i <= start,
                        visible_until(self@.windows, *desk, start - 1) == visible_until(
                            self@.windows,
                            *desk,
                            i - 1,
                        ),
                    decreases i,
                {
                    if !self.windows[i - 1].inner.is_hidden(desk) {
                        return Some(i - 1);
                    }
                    i = i - 1;
                }
                None
            },
        }
    }

    /// The window to focus next on the left.
    pub fn focus_left(&self, desk: &Desktop) -> (r: Option<Window>)
        requires
            self.wf(),
        ensures
            r == self@.focus_target(*desk, Direction::Left),
    {
        self.focus(desk, Direction::Left)
    }

    /// The window to focus next on the right.
    pub fn focus_right(&self, desk: &Desktop) -> (r: Option<Window>)
        requires
            self.wf(),
        ensures
            r == self@.focus_target(*desk, Direction::Right),
    {
        self.focus(desk, Direction::Right)
    }

    fn focus(&self, desk: &Desktop, direction: Direction) -> (r: Option<Window>)
        requires
            self.wf(),
        ensures
            r == self@.focus_target(*desk, direction),
    {
        let base: usize = match self.focus_index(desk) {
            Some(i) => i,
            None => match self.previously_focused_window_index {
                Some(i) => i,
                None => {
                    if self.windows.len() == 0 {
                        return None;
                    }
                    0
                },
            },
        };
        match self.next_visible_index(base, direction, desk) {
            Some(i) => Some(self.windows[i].inner),
            None => None,
        }
    }

    fn request_focused_width(&mut self, desk: &Desktop, width: i64)
        requires
            old(self).wf(),
            width_ok(width),
        ensures
            final(self)@ == old(self)@.width_requested(*desk, width as int),
            final(self).wf(),
    {
        match self.focus_index(desk) {
            Some(i) => {
                let mut item: WindowItem = self.windows[i];
                assert(self@.windows[i as int].ok());
                item.requested_width = Some(width);
                self.windows[i] = item;
                assert(self@ =~= old(self)@.width_requested(*desk, width as int));
            },
            None => {},
        }
    }

    /// Asks for the widest tile.
    pub fn set_current_window_fullscreen(&mut self, desk: &Desktop)
        requires
            old(self).wf(),
        ensures
            final(self)@ == old(self)@.width_requested(*desk, old(self)@.max_screen_width()),
            final(self).wf(),
    {
        let width: i64 = self.max_screen_width();
        self.request_focused_width(desk, width);
    }

    /// Asks for a tile half as wide as the screen.
    pub fn set_current_window_halfscreen(&mut self, desk: &Desktop)
        requires
            old(self).wf(),
        ensures
            final(self)@ == old(self)@.width_requested(*desk, old(self)@.half_screen_width()),
            final(self).wf(),
    {
        let width: i64 = floor_div(self.screen_size.width, 2) - 2 * self.padding;
        self.request_focused_width(desk, width);
    }

    pub fn increment_current_window_width(&mut self, desk: &Desktop)
        requires
            old(self).wf(),
            old(self)@.focus_index(*desk) is Some ==> 0 <= old(self)@.max_screen_width(),
        ensures
            final(self)@ == old(self)@.width_requested(
                *desk,
                old(self)@.stepped_width(*desk, true),
            ),
            final(self).wf(),
    {
        self.resize_current_window_width_by_resize_increment(desk, true)
    }

    pub fn decrement_current_window_width(&mut self, desk: &Desktop)
        requires
            old(self).wf(),
            old(self)@.focus_index(*desk) is Some ==> 0 <= old(self)@.max_screen_width(),
        ensures
            final(self)@ == old(self)@.width_requested(
                *desk,
                old(self)@.stepped_width(*desk, false),
            ),
            final(self).wf(),
    {
        self.resize_current_window_width_by_resize_increment(desk, false)
    }

    fn resize_current_window_width_by_resize_increment(&mut self, desk: &Desktop, grow: bool)
        requires
            old(self).wf(),
            old(self)@.focus_index(*desk) is Some ==> 0 <= old(self)@.max_screen_width(),
        ensures
            final(self)@ == old(self)@.width_requested(
                *desk,
                old(self)@.stepped_width(*desk, grow),
            ),
            final(self).wf(),
    {
        match self.focus_index(desk) {
            Some(i) => {
                assert(self@.windows[i as int].ok());
                let width: i64 = self.windows[i].width;
                let wanted: i64 = if grow {
                    width + self.resize_increment
                } else {
                    width - self.resize_increment
                };
                let max_width: i64 = self.max_screen_width();
                self.request_focused_width(desk, clamp(wanted, 0, max_width));
            },
            None => {},
        }
    }

    /// The windows moved most often in an animation, and how far each is from
    /// where it belongs.
    pub fn profile_report(&self, s: &ScrollProfileSnapshot, desk: &Desktop) -> (r: Vec<ProfileLine>)
        ensures
            r@.len() == (if s.counts@.len() < PROFILE_LINES {
                s.counts@.len()
            } else {
                PROFILE_LINES as nat
            }),
            forall|k: int| 0 <= k < r@.len() ==> self@.profile_line(*desk, *s, k, #[trigger] r@[k]),
    {
        let mut out: Vec<ProfileLine> = Vec::new();
        let mut k: usize = 0;
        while k < s.counts.len() && k < PROFILE_LINES
            invariant
                k <= s.counts@.len(),
                k <= PROFILE_LINES,
                out@.len() == k,
                forall|j: int|
                    0 <= j < k ==> self@.profile_line(*desk, *s, j, #[trigger] out@[j]),
            decreases s.counts.len() - k,
        {
            let e: EmitCount = s.counts[k];
            let mut process: String = String::new();
            let mut lag: u64 = 0;
            match find_hwnd(&self.windows, e.hwnd) {
                Some(i) => {
                    let item: WindowItem = self.windows[i];
                    match item.inner.process_name(desk) {
                        Some(p) => {
                            process = p;
                        },
                        None => {},
                    }
                    match (item.last_layout, item.inner.desktop_manager_bounds(desk)) {
                        (Some(p), Some(b)) => {
                            lag = abs_diff(b.left, p.x);
                        },
                        _ => {},
                    }
                },
                None => {},
            }
            proof {
                assert(process@ =~= self@.process_name_of(*desk, e.hwnd));
            }
            out.push(
                ProfileLine { process, count: e.count, frame_count: s.frame_count, lag },
            );
            k = k + 1;
        }
        out
    }
}

pub proof fn lemma_swapped(windows: Seq<WindowItem>, i: int, j: int)
    requires
        crate::scroll_tiler::strip::items_ok(windows),
        distinct(windows),
        0 <= i < windows.len(),
        0 <= j < windows.len(),
    ensures
        ({
            let r = windows.update(i, windows[j]).update(j, windows[i]);
            crate::scroll_tiler::strip::items_ok(r) && distinct(r)
        }),
{
    let r = windows.update(i, windows[j]).update(j, windows[i]);
    assert forall|k: int| 0 <= k < r.len() implies (#[trigger] r[k]).ok() by {
        assert(windows[k].ok());
        assert(windows[i].ok());
        assert(windows[j].ok());
    }
    assert forall|a: int, b: int| 0 <= a < b < r.len() implies (#[trigger] r[a]).inner != (
    #[trigger] r[b]).inner by {
        let pa = if a == j {
            i
        } else if a == i {
            j
        } else {
            a
        };
        let pb = if b == j {
            i
        } else if b == i {
            j
        } else {
            b
        };
        assert(r[a] == windows[pa] && r[b] == windows[pb] && pa != pb);
        if pa < pb {
            assert(windows[pa].inner != windows[pb].inner);
        } else {
            assert(windows[pb].inner != windows[pa].inner);
        }
    }
}

pub proof fn lemma_reordered(windows: Seq<WindowItem>, src: Window, dst: Window, s: int, d: int)
    requires
        crate::scroll_tiler::strip::items_ok(windows),
        distinct(windows),
        first_true(tile_mask(windows, src)) == Some(s),
        first_true(tile_mask(windows, dst)) == Some(d),
        s != d,
    ensures
        crate::scroll_tiler::strip::items_ok(reordered(windows, src, dst)),
        distinct(reordered(windows, src, dst)),
{
    lemma_first_true(tile_mask(windows, src));
    lemma_first_true(tile_mask(windows, dst));
    let rest = windows.remove(s);
    let r = reordered(windows, src, dst);
    assert forall|k: int| 0 <= k < r.len() implies r[k] == #[trigger] windows[origin(
        s,
        d,
        k,
    )] && 0 <= origin(s, d, k) < windows.len() by {
        if k < d {
            assert(r[k] == rest[k]);
        } else if k > d {
            assert(r[k] == rest[k - 1]);
        }
    }
    assert forall|k: int| 0 <= k < r.len() implies (#[trigger] r[k]).ok() by {
        assert(windows[origin(s, d, k)].ok());
    }
    assert forall|a: int, b: int| 0 <= a < b < r.len() implies (#[trigger] r[a]).inner != (
    #[trigger] r[b]).inner by {
        let pa = origin(s, d, a);
        let pb = origin(s, d, b);
        assert(r[a] == windows[pa] && r[b] == windows[pb] && pa != pb);
        if pa < pb {
            assert(windows[pa].inner != windows[pb].inner);
        } else {
            assert(windows[pb].inner != windows[pa].inner);
        }
    }
}

/// Where the item at `k` was before the item at `s` moved to `at`.
pub open spec fn origin(s: int, at: int, k: int) -> int {
    if k == at {
        s
    } else {
        let j = if k < at {
            k
        } else {
            k - 1
        };
        if j < s {
            j
        } else {
            j + 1
        }
    }
}

} // verus!
