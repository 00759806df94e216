//! Taking in a new look at the desktop.
use vstd::prelude::*;

use crate::geometry::{
    clamp, clamped, floor_div, magnitude, scroll_clamp, scroll_clamped, width_ok, Bounds, PX,
};
use crate::scroll_tiler::item::{new_item, Placement, WindowItem};
use crate::scroll_tiler::layout::{nothing_planned, LayoutPlan};
use crate::scroll_tiler::strip::{
    after_divergence, after_drag, after_iconic, after_widths, appended, count_true, distinct,
    drag_mask, is_tiled, items_ok, keep_mask, lemma_selected, negated, seeded, selected, Strip,
    DRAG_PRUNE_CAP, MAX_WINDOWS,
};
use crate::scroll_tiler::{find_tile, ScrollTiler};
use crate::window::filter::in_list;
use crate::window::{Desktop, Window};

verus! {

/// Change of a width or an edge that is put down to noise.
pub const RESIZE_NOISE: i64 = 5_000;

/// Narrowest a tile can be made by dragging its left edge.
pub const MIN_TILE_WIDTH: i64 = 200_000;

/// What a snapshot asks for, in order.
#[derive(Debug)]
pub struct SnapshotPlan {
    /// The layout made when the strip jumps to a newly focused window.
    pub recenter: LayoutPlan,
    pub layout: LayoutPlan,
}

impl Strip {
    /// The tiles that survive: those in the snapshot, and those on another
    /// virtual desktop.
    pub open spec fn retained(self, snapshot: Seq<Window>, desk: Desktop) -> Self {
        self.with_windows(
            after_iconic(selected(self.windows, keep_mask(self.windows, snapshot, desk)), desk),
        )
    }

    pub open spec fn drag_ended(self, desk: Desktop) -> bool {
        self.was_mouse_held_last_snapshot && !desk.mouse_held
    }

    /// The focused tile, where the user has just dragged its left edge: its
    /// width changed and its right edge stayed.
    pub open spec fn left_resize(self, desk: Desktop) -> Option<int> {
        match self.focus_index(desk) {
            None => None,
            Some(i) => match (self.windows[i].last_layout, desk.frame_of(self.windows[i].inner)) {
                (Some(p), Some(f)) => {
                    let dw = (f.right - f.left) * PX - p.width;
                    let dx = f.left * PX - p.x;
                    if magnitude(dw) > RESIZE_NOISE && magnitude(dx + dw) < RESIZE_NOISE {
                        Some(i)
                    } else {
                        None
                    }
                },
                _ => None,
            },
        }
    }

    /// A left edge that was dragged keeps its new width, within limits, and
    /// the strip is scrolled so that the right edge stays where it is.
    pub open spec fn left_resized(self, desk: Desktop) -> Self {
        match self.left_resize(desk) {
            None => self,
            Some(i) => {
                let item = self.windows[i];
                let f = desk.frame_of(item.inner)->0;
                let width = clamped(
                    (f.right - f.left) * PX,
                    MIN_TILE_WIDTH as int,
                    self.max_screen_width(),
                );
                Strip {
                    windows: self.windows.update(i, item.spec_request_width(width as i64)),
                    scroll_offset: scroll_clamped(
                        self.scroll_offset + (width - item.last_layout->0.width),
                    ) as i64,
                    scroll_target: None,
                    ..self
                }
            },
        }
    }

    /// The strip once windows dragged off the monitor are let go.
    pub open spec fn undragged(self, desk: Desktop, tiling_hmonitor: i64) -> Self {
        let s = Strip { was_mouse_held_last_snapshot: desk.mouse_held, ..self };
        if self.drag_ended(desk) {
            s.with_windows(after_drag(self.windows, desk, tiling_hmonitor))
        } else {
            s
        }
    }

    /// The strip at the end of a mouse drag.
    pub open spec fn drag_settled(self, desk: Desktop, tiling_hmonitor: i64) -> Self {
        if self.drag_ended(desk) {
            self.undragged(desk, tiling_hmonitor).left_resized(desk)
        } else {
            self.undragged(desk, tiling_hmonitor)
        }
    }

    /// At rest, placements that no longer hold are forgotten.
    pub open spec fn diverged(self, desk: Desktop) -> Self {
        if !desk.mouse_held && !self.animating() {
            self.with_windows(after_divergence(self.windows, desk))
        } else {
            self
        }
    }

    pub open spec fn widths_updated(self, desk: Desktop) -> Self {
        self.with_windows(after_widths(self.windows, desk, self.max_screen_width()))
    }

    pub open spec fn previous_index(self) -> Option<int> {
        match self.previously_focused_window_index {
            Some(i) => Some(i as int),
            None => None,
        }
    }

    /// Where new windows go: behind the focused tile, or the one that had the
    /// focus before; `None` for the end.
    pub open spec fn append_at(self, desk: Desktop) -> Option<int> {
        let near = match self.focus_index(desk) {
            Some(i) => Some(i),
            None => self.previous_index(),
        };
        match near {
            Some(i) => if i < self.windows.len() {
                Some(i + 1)
            } else {
                None
            },
            None => None,
        }
    }

    pub open spec fn grown(self, snapshot: Seq<Window>, desk: Desktop, tiling_hmonitor: i64) -> Self {
        self.with_windows(
            appended(
                self.windows,
                snapshot,
                desk,
                tiling_hmonitor,
                self.append_at(desk),
                self.default_size() as i64,
                snapshot.len() as int,
            ),
        )
    }

    /// Whether tile `i` is more than half a screen away from the screen.
    pub open spec fn far_off(self, desk: Desktop, i: int) -> bool {
        let x = self.positions(desk)[i];
        let half = self.screen_size.width as int / 2;
        ||| x > self.scroll_offset + self.screen_size.width + half
        ||| x + self.windows[i].width < self.scroll_offset - half
    }

    /// The offset at which tile `i` just fits the screen, seen from where the
    /// strip is or is heading; `None` where it fits already.
    pub open spec fn fitting_offset(self, desk: Desktop, i: int) -> Option<int> {
        let reference = match self.scroll_target {
            Some(t) => t as int,
            None => self.scroll_offset as int,
        };
        let left = self.positions(desk)[i] - self.padding - reference;
        let right = left + self.windows[i].width + 2 * self.padding;
        let to_left = magnitude(left);
        let to_right = magnitude(right - self.screen_size.width);
        if left >= 0 && right <= self.screen_size.width {
            None
        } else if to_left < to_right {
            Some(scroll_clamped(reference - to_left))
        } else {
            Some(scroll_clamped(reference + to_right))
        }
    }

    /// The strip scrolled just enough to show the focused window. A timed
    /// scroll gives way to smoothing.
    pub open spec fn scroll_adjusted(self, desk: Desktop) -> Self {
        match self.focus_index(desk) {
            None => self,
            Some(i) => match self.fitting_offset(desk, i) {
                None => self,
                Some(o) => if self.smooth_scroll_enabled {
                    Strip { scroll_target: Some(o as i64), scroll_animation: None, ..self }
                } else {
                    Strip { scroll_offset: o as i64, ..self }
                },
            },
        }
    }

    /// Whether a newly focused window is so far off that the strip jumps to it.
    pub open spec fn jumps(self, desk: Desktop) -> bool {
        &&& self.focus_index(desk) != self.previous_index()
        &&& self.focus_index(desk) matches Some(i) && self.far_off(desk, i)
    }

    pub open spec fn focus_offset(self, desk: Desktop) -> i64 {
        let i = self.focus_index(desk)->0;
        self.centering_offset(self.positions(desk)[i] as int, self.windows[i].width as int) as i64
    }

    /// The strip scrolled to the focused window, if the focus has changed.
    pub open spec fn focus_followed(self, desk: Desktop) -> Self {
        if self.focus_index(desk) == self.previous_index() {
            self
        } else if self.jumps(desk) {
            self.sent_to(self.focus_offset(desk), desk)
        } else {
            self.scroll_adjusted(desk)
        }
    }

    /// The focused tile is remembered.
    pub open spec fn focus_noted(self, desk: Desktop) -> Self {
        match self.focus_index(desk) {
            Some(i) => Strip { previously_focused_window_index: Some(i as usize), ..self },
            None => self,
        }
    }

    /// The strip as a snapshot finds it, before anything is scrolled.
    pub open spec fn taken_in(
        self,
        snapshot: Seq<Window>,
        desk: Desktop,
        tiling_hmonitor: i64,
    ) -> Self {
        self.retained(snapshot, desk).drag_settled(desk, tiling_hmonitor).diverged(
            desk,
        ).widths_updated(desk).grown(snapshot, desk, tiling_hmonitor)
    }

    /// The strip after a snapshot.
    pub open spec fn snapped(
        self,
        snapshot: Seq<Window>,
        desk: Desktop,
        tiling_hmonitor: i64,
    ) -> Self {
        let s = self.taken_in(snapshot, desk, tiling_hmonitor);
        s.focus_followed(desk).laid(s.positions(desk), desk).focus_noted(desk)
    }

    pub open spec fn snapshot_plan(
        self,
        snapshot: Seq<Window>,
        desk: Desktop,
        tiling_hmonitor: i64,
        plan: SnapshotPlan,
    ) -> bool {
        let s = self.taken_in(snapshot, desk, tiling_hmonitor);
        &&& if s.jumps(desk) {
            s.sent_plan(s.focus_offset(desk), desk, plan.recenter)
        } else {
            nothing_planned(plan.recenter)
        }
        &&& s.focus_followed(desk).layout_plan(s.positions(desk), desk, plan.layout)
    }

    /// Whether a left edge dragged by now can be kept within limits: there is
    /// room for the narrowest tile.
    pub open spec fn room_for_resize(
        self,
        snapshot: Seq<Window>,
        desk: Desktop,
        tiling_hmonitor: i64,
    ) -> bool {
        let s = self.retained(snapshot, desk);
        s.drag_ended(desk) && s.undragged(desk, tiling_hmonitor).left_resize(desk) is Some
            ==> MIN_TILE_WIDTH <= self.max_screen_width()
    }

    pub open spec fn bulk_seeded(self, snapshot: Seq<Window>, desk: Desktop) -> Self {
        self.with_windows(
            seeded(
                self.windows,
                snapshot,
                desk,
                self.default_size() as i64,
                snapshot.len() as int,
            ),
        )
    }
}

/// The items that the snapshot holds or that are on another virtual desktop.
fn retain(windows: &Vec<WindowItem>, snapshot: &Vec<Window>, desk: &Desktop) -> (r: Vec<WindowItem>)
    requires
        items_ok(windows@),
        distinct(windows@),
    ensures
        r@ == selected(windows@, keep_mask(windows@, snapshot@, *desk)),
        items_ok(r@),
        distinct(r@),
{
    let mut kept: Vec<WindowItem> = Vec::new();
    let ghost mask = keep_mask(windows@, snapshot@, *desk);
    let mut i: usize = 0;
    while i < windows.len()
        invariant
            i <= windows.len(),
            mask == keep_mask(windows@, snapshot@, *desk),
            kept@ == selected(windows@.subrange(0, i as int), mask.subrange(0, i as int)),
        decreases windows.len() - i,
    {
        let item: WindowItem = windows[i];
        proof {
            lemma_selected_step(windows@, mask, i as int);
        }
        if in_list(snapshot, item.inner) || (item.inner.is_valid(desk) && item.inner.is_cloaked(
            desk,
        )) {
            kept.push(item);
        }
        i = i + 1;
    }
    proof {
        lemma_whole(windows@, mask);
        lemma_selected_ok(windows@, mask);
    }
    kept
}

proof fn lemma_whole(windows: Seq<WindowItem>, mask: Seq<bool>)
    requires
        windows.len() == mask.len(),
    ensures
        windows.subrange(0, windows.len() as int) == windows,
        mask.subrange(0, windows.len() as int) == mask,
{
    assert(windows.subrange(0, windows.len() as int) =~= windows);
    assert(mask.subrange(0, windows.len() as int) =~= mask);
}

proof fn lemma_selected_step(windows: Seq<WindowItem>, mask: Seq<bool>, i: int)
    requires
        windows.len() == mask.len(),
        0 <= i < windows.len(),
    ensures
        selected(windows.subrange(0, i + 1), mask.subrange(0, i + 1)) == (if mask[i] {
            selected(windows.subrange(0, i), mask.subrange(0, i)).push(windows[i])
        } else {
            selected(windows.subrange(0, i), mask.subrange(0, i))
        }),
{
    assert(windows.subrange(0, i + 1).drop_last() =~= windows.subrange(0, i));
    assert(mask.subrange(0, i + 1).drop_last() =~= mask.subrange(0, i));
    assert(windows.subrange(0, i + 1).last() == windows[i]);
    assert(mask.subrange(0, i + 1).last() == mask[i]);
}

pub proof fn lemma_selected_ok(windows: Seq<WindowItem>, mask: Seq<bool>)
    requires
        windows.len() == mask.len(),
        items_ok(windows),
        distinct(windows),
    ensures
        items_ok(selected(windows, mask)),
        distinct(selected(windows, mask)),
{
    lemma_selected(windows, mask);
    let r = selected(windows, mask);
    assert forall|k: int| 0 <= k < r.len() implies (#[trigger] r[k]).ok() by {
        let i = choose|i: int| 0 <= i < windows.len() && mask[i] && #[trigger] windows[i] == r[k];
        assert(windows[i].ok());
    }
}

fn track_iconic(windows: &mut Vec<WindowItem>, desk: &Desktop)
    requires
        items_ok(old(windows)@),
        distinct(old(windows)@),
    ensures
        final(windows)@ == after_iconic(old(windows)@, *desk),
        items_ok(final(windows)@),
        distinct(final(windows)@),
{
    let ghost before = windows@;
    let mut i: usize = 0;
    while i < windows.len()
        invariant
            i <= windows.len(),
            windows@.len() == before.len(),
            items_ok(before),
            items_ok(windows@),
            forall|j: int| 0 <= j < i ==> #[trigger] windows@[j] == before[j].iconic_step(*desk),
            forall|j: int| i <= j < before.len() ==> #[trigger] windows@[j] == before[j],
        decreases windows.len() - i,
    {
        assert(before[i as int].ok());
        let item: WindowItem = windows[i].track_iconic(desk);
        windows[i] = item;
        i = i + 1;
    }
    proof {
        assert(windows@ =~= after_iconic(before, *desk));
        lemma_same_windows(before, windows@);
    }
}

fn track_divergence(windows: &mut Vec<WindowItem>, desk: &Desktop)
    requires
        items_ok(old(windows)@),
        distinct(old(windows)@),
    ensures
        final(windows)@ == after_divergence(old(windows)@, *desk),
        items_ok(final(windows)@),
        distinct(final(windows)@),
{
    let ghost before = windows@;
    let mut i: usize = 0;
    while i < windows.len()
        invariant
            i <= windows.len(),
            windows@.len() == before.len(),
            items_ok(before),
            items_ok(windows@),
            forall|j: int| 0 <= j < i ==> #[trigger] windows@[j] == before[j].divergence_step(*desk),
            forall|j: int| i <= j < before.len() ==> #[trigger] windows@[j] == before[j],
        decreases windows.len() - i,
    {
        assert(before[i as int].ok());
        let item: WindowItem = windows[i].track_divergence(desk);
        windows[i] = item;
        i = i + 1;
    }
    proof {
        assert(windows@ =~= after_divergence(before, *desk));
        lemma_same_windows(before, windows@);
    }
}

pub proof fn lemma_same_windows(a: Seq<WindowItem>, b: Seq<WindowItem>)
    requires
        a.len() == b.len(),
        distinct(a),
        forall|i: int| 0 <= i < a.len() ==> (#[trigger] b[i]).inner == a[i].inner,
    ensures
        distinct(b),
{
    assert forall|i: int, j: int| 0 <= i < j < b.len() implies (#[trigger] b[i]).inner != (
    #[trigger] b[j]).inner by {
        assert(a[i].inner != a[j].inner);
    }
}

/// The items without those that were dragged off the tiling monitor.
fn prune_dragged(windows: &Vec<WindowItem>, desk: &Desktop, tiling_hmonitor: i64) -> (r: Vec<
    WindowItem,
>)
    requires
        items_ok(windows@),
        distinct(windows@),
    ensures
        r@ == after_drag(windows@, *desk, tiling_hmonitor),
        items_ok(r@),
        distinct(r@),
{
    let ghost mask = drag_mask(windows@, *desk, tiling_hmonitor);
    let mut dragged: usize = 0;
    let mut rest: Vec<WindowItem> = Vec::new();
    let mut all: Vec<WindowItem> = Vec::new();
    let mut i: usize = 0;
    while i < windows.len()
        invariant
            i <= windows.len(),
            dragged <= i,
            mask == drag_mask(windows@, *desk, tiling_hmonitor),
            dragged == count_true(mask.subrange(0, i as int)),
            all@ == windows@.subrange(0, i as int),
            rest@ == selected(
                windows@.subrange(0, i as int),
                negated(mask).subrange(0, i as int),
            ),
        decreases windows.len() - i,
    {
        let item: WindowItem = windows[i];
        proof {
            lemma_selected_step(windows@, negated(mask), i as int);
            assert(mask.subrange(0, i + 1).drop_last() =~= mask.subrange(0, i as int));
            assert(mask.subrange(0, i + 1).last() == mask[i as int]);
            assert(windows@.subrange(0, i + 1) =~= windows@.subrange(0, i as int).push(item));
        }
        if item.was_dragged_away(desk, tiling_hmonitor) {
            dragged = dragged + 1;
        } else {
            rest.push(item);
        }
        all.push(item);
        i = i + 1;
    }
    proof {
        lemma_whole(windows@, mask);
        lemma_whole(windows@, negated(mask));
        lemma_selected_ok(windows@, negated(mask));
    }
    if dragged > DRAG_PRUNE_CAP {
        all
    } else {
        rest
    }
}

/// New tiles keep the list valid.
pub proof fn lemma_appended(
    windows: Seq<WindowItem>,
    snapshot: Seq<Window>,
    desk: Desktop,
    tiling_hmonitor: i64,
    at: Option<int>,
    width: i64,
    upto: int,
)
    requires
        items_ok(windows),
        distinct(windows),
        width_ok(width),
        0 <= upto <= snapshot.len(),
        windows.len() + upto <= MAX_WINDOWS,
        at matches Some(i) ==> 0 <= i <= windows.len(),
    ensures
        ({
            let r = appended(windows, snapshot, desk, tiling_hmonitor, at, width, upto);
            items_ok(r) && distinct(r) && windows.len() <= r.len() <= windows.len() + upto
        }),
    decreases upto,
{
    if upto > 0 {
        lemma_appended(windows, snapshot, desk, tiling_hmonitor, at, width, upto - 1);
        let before = appended(windows, snapshot, desk, tiling_hmonitor, at, width, upto - 1);
        let w = snapshot[upto - 1];
        let item = new_item(desk, w, width);
        if !is_tiled(before, w) {
            lemma_new_tile(before, item, before.len() as int);
            match at {
                Some(i) => lemma_new_tile(before, item, i),
                None => {},
            }
            assert(before.insert(before.len() as int, item) =~= before.push(item));
        }
    }
}

proof fn lemma_new_tile(windows: Seq<WindowItem>, item: WindowItem, at: int)
    requires
        items_ok(windows),
        distinct(windows),
        windows.len() < MAX_WINDOWS,
        item.ok(),
        !is_tiled(windows, item.inner),
        0 <= at <= windows.len(),
    ensures
        items_ok(windows.insert(at, item)),
        distinct(windows.insert(at, item)),
{
    let r = windows.insert(at, item);
    assert forall|i: int| 0 <= i < r.len() implies (#[trigger] r[i]).ok() by {
        if i < at {
            assert(r[i] == windows[i]);
        } else if i > at {
            assert(r[i] == windows[i - 1]);
        }
    }
    assert forall|i: int, j: int| 0 <= i < j < r.len() implies (#[trigger] r[i]).inner != (
    #[trigger] r[j]).inner by {
        let oi = if i < at {
            i
        } else {
            i - 1
        };
        let oj = if j < at {
            j
        } else {
            j - 1
        };
        if i == at {
            assert(r[j] == windows[oj]);
        } else if j == at {
            assert(r[i] == windows[oi]);
        } else {
            assert(r[i] == windows[oi] && r[j] == windows[oj]);
        }
    }
}

proof fn lemma_seeded(
    windows: Seq<WindowItem>,
    snapshot: Seq<Window>,
    desk: Desktop,
    width: i64,
    upto: int,
)
    requires
        items_ok(windows),
        distinct(windows),
        width_ok(width),
        0 <= upto <= snapshot.len(),
        windows.len() + upto <= MAX_WINDOWS,
    ensures
        ({
            let r = seeded(windows, snapshot, desk, width, upto);
            items_ok(r) && distinct(r) && windows.len() <= r.len() <= windows.len() + upto
        }),
    decreases upto,
{
    if upto > 0 {
        lemma_seeded(windows, snapshot, desk, width, upto - 1);
        let before = seeded(windows, snapshot, desk, width, upto - 1);
        let w = snapshot[upto - 1];
        let item = new_item(desk, w, width);
        if !is_tiled(before, w) {
            lemma_new_tile(before, item, before.len() as int);
            assert(before.insert(before.len() as int, item) =~= before.push(item));
        }
    }
}

pub proof fn lemma_bulk_seeded(s: Strip, snapshot: Seq<Window>, desk: Desktop)
    requires
        s.wf(),
        s.windows.len() + snapshot.len() <= MAX_WINDOWS,
    ensures
        s.bulk_seeded(snapshot, desk).wf(),
        s.bulk_seeded(snapshot, desk).windows.len() <= s.windows.len() + snapshot.len(),
{
    lemma_seeded(s.windows, snapshot, desk, s.default_size() as i64, snapshot.len() as int);
}

impl ScrollTiler {
    /// Tiles every window of `snapshot`, whatever monitor it is on.
    pub fn bulk_seed(&mut self, snapshot: &Vec<Window>, desk: &Desktop) -> (r: LayoutPlan)
        requires
            old(self).wf(),
            old(self)@.windows.len() + snapshot@.len() <= MAX_WINDOWS,
        ensures
            final(self)@ == old(self)@.bulk_seeded(snapshot@, *desk).relaid(*desk),
            old(self)@.bulk_seeded(snapshot@, *desk).relayout_plan(*desk, r),
            final(self).wf(),
    {
        let width: i64 = self.default_size();
        let mut i: usize = 0;
        while i < snapshot.len()
            invariant
                i <= snapshot.len(),
                old(self).wf(),
                old(self)@.windows.len() + snapshot@.len() <= MAX_WINDOWS,
                width == old(self)@.default_size(),
                width_ok(width),
                self@ == old(self)@.with_windows(
                    seeded(old(self)@.windows, snapshot@, *desk, width, i as int),
                ),
            decreases snapshot.len() - i,
        {
            let w: Window = snapshot[i];
            proof {
                lemma_seeded(old(self)@.windows, snapshot@, *desk, width, i as int);
            }
            match find_tile(&self.windows, w) {
                None => {
                    self.windows.push(WindowItem::new(w, width, desk));
                },
                Some(k) => {
                    assert(is_tiled(self.windows@, w)) by {
                        assert(self.windows@[k as int].inner == w);
                    }
                },
            }
            assert(self@ =~= old(self)@.with_windows(
                seeded(old(self)@.windows, snapshot@, *desk, width, i + 1),
            ));
            i = i + 1;
        }
        proof {
            lemma_seeded(old(self)@.windows, snapshot@, *desk, width, snapshot@.len() as int);
        }
        self.relayout(desk)
    }

    /// Where new windows go.
    fn append_index(&self, desk: &Desktop) -> (r: Option<usize>)
        requires
            self.wf(),
        ensures
            match r {
                Some(i) => self@.append_at(*desk) == Some(i as int) && i <= self@.windows.len(),
                None => self@.append_at(*desk) is None,
            },
    {
        let near: Option<usize> = match self.focus_index(desk) {
            Some(i) => Some(i),
            None => self.previously_focused_window_index,
        };
        match near {
            Some(i) => if i < self.windows.len() {
                Some(i + 1)
            } else {
                None
            },
            None => None,
        }
    }

    /// Tiles the windows of `snapshot` that are on the tiling monitor and have
    /// no tile yet. Others stay floating.
    pub fn append_new_windows(
        &mut self,
        snapshot: &Vec<Window>,
        desk: &Desktop,
        tiling_hmonitor: i64,
    )
        requires
            old(self).wf(),
            old(self)@.windows.len() + snapshot@.len() <= MAX_WINDOWS,
        ensures
            final(self)@ == old(self)@.grown(snapshot@, *desk, tiling_hmonitor),
            final(self).wf(),
    {
        let width: i64 = self.default_size();
        let at: Option<usize> = self.append_index(desk);
        let ghost at_int = self@.append_at(*desk);
        let ghost old_windows = self@.windows;
        let mut i: usize = 0;
        while i < snapshot.len()
            invariant
                i <= snapshot.len(),
                old(self).wf(),
                old_windows == old(self)@.windows,
                old_windows.len() + snapshot@.len() <= MAX_WINDOWS,
                width == old(self)@.default_size(),
                width_ok(width),
                at_int == old(self)@.append_at(*desk),
                match at {
                    Some(k) => at_int == Some(k as int) && k <= old_windows.len(),
                    None => at_int is None,
                },
                self@ == old(self)@.with_windows(
                    appended(
                        old_windows,
                        snapshot@,
                        *desk,
                        tiling_hmonitor,
                        at_int,
                        width,
                        i as int,
                    ),
                ),
            decreases snapshot.len() - i,
        {
            let w: Window = snapshot[i];
            proof {
                lemma_appended(
                    old_windows,
                    snapshot@,
                    *desk,
                    tiling_hmonitor,
                    at_int,
                    width,
                    i as int,
                );
            }
            match find_tile(&self.windows, w) {
                None => {
                    if w.monitor(desk) == tiling_hmonitor {
                        let item: WindowItem = WindowItem::new(w, width, desk);
                        match at {
                            Some(k) => {
                                self.windows.insert(k, item);
                            },
                            None => {
                                self.windows.push(item);
                            },
                        }
                    }
                },
                Some(k) => {
                    assert(is_tiled(self.windows@, w)) by {
                        assert(self.windows@[k as int].inner == w);
                    }
                },
            }
            assert(self@ =~= old(self)@.with_windows(
                appended(old_windows, snapshot@, *desk, tiling_hmonitor, at_int, width, i + 1),
            ));
            i = i + 1;
        }
        proof {
            lemma_appended(
                old_windows,
                snapshot@,
                *desk,
                tiling_hmonitor,
                at_int,
                width,
                snapshot@.len() as int,
            );
        }
    }

    /// Takes over the requested and the observed widths.
    pub fn update_widths(&mut self, desk: &Desktop)
        requires
            old(self).wf(),
        ensures
            final(self)@ == old(self)@.widths_updated(*desk),
            final(self).wf(),
    {
        let max_width: i64 = self.max_screen_width();
        let ghost before = self.windows@;
        let mut i: usize = 0;
        while i < self.windows.len()
            invariant
                i <= self.windows.len(),
                old(self).wf(),
                before == old(self)@.windows,
                width_ok(max_width),
                self.windows@.len() == before.len(),
                self@ == old(self)@.with_windows(self.windows@),
                items_ok(before),
                items_ok(self.windows@),
                forall|j: int|
                    0 <= j < i ==> #[trigger] self.windows@[j] == before[j].width_step(
                        *desk,
                        max_width as int,
                    ),
                forall|j: int| i <= j < before.len() ==> #[trigger] self.windows@[j] == before[j],
            decreases self.windows.len() - i,
        {
            assert(before[i as int].ok());
            let item: WindowItem = self.windows[i].track_width(desk, max_width);
            self.windows[i] = item;
            i = i + 1;
        }
        proof {
            assert(self.windows@ =~= after_widths(before, *desk, max_width as int));
            lemma_same_windows(before, self.windows@);
        }
    }

    /// Keeps the width a left edge was dragged to, and the right edge where it
    /// is.
    fn settle_left_resize(&mut self, desk: &Desktop)
        requires
            old(self).wf(),
            old(self)@.left_resize(*desk) is Some ==> MIN_TILE_WIDTH
                <= old(self)@.max_screen_width(),
        ensures
            final(self)@ == old(self)@.left_resized(*desk),
            final(self).wf(),
    {
        let i: usize = match self.focus_index(desk) {
            Some(i) => i,
            None => {
                return ;
            },
        };
        let mut item: WindowItem = self.windows[i];
        assert(self@.windows[i as int].ok());
        let (p, bounds): (Placement, Bounds) = match (
            item.last_layout,
            item.inner.desktop_manager_bounds(desk),
        ) {
            (Some(p), Some(b)) => (p, b),
            _ => {
                return ;
            },
        };
        let width: i64 = bounds.size().width;
        let dw: i128 = width as i128 - p.width as i128;
        let dx: i128 = bounds.position().x as i128 - p.x as i128;
        let noise: i128 = RESIZE_NOISE as i128;
        let resized: bool = dw > noise || dw < -noise;
        let anchored: bool = dx + dw < noise && dx + dw > -noise;
        if resized && anchored {
            let max_width: i64 = self.max_screen_width();
            let kept: i64 = clamp(width, MIN_TILE_WIDTH, max_width);
            self.scroll_offset = scroll_clamp(
                self.scroll_offset as i128 + (kept as i128 - p.width as i128),
            );
            self.scroll_target = None;
            item.requested_width = Some(kept);
            self.windows[i] = item;
            proof {
                assert(self@ =~= old(self)@.left_resized(*desk));
                assert forall|k: int| 0 <= k < self.windows@.len() implies (#[trigger]
                self.windows@[k]).ok() && self.windows@[k].inner == old(
                    self,
                )@.windows[k].inner by {
                    assert(old(self)@.windows[k].ok());
                }
                lemma_same_windows(old(self)@.windows, self.windows@);
            }
        }
    }

    /// Scrolls just enough to show the focused window.
    pub fn ajust_scroll(&mut self, desk: &Desktop)
        requires
            old(self).wf(),
        ensures
            final(self)@ == old(self)@.scroll_adjusted(*desk),
            final(self).wf(),
    {
        let i: usize = match self.focus_index(desk) {
            Some(i) => i,
            None => {
                return ;
            },
        };
        let pos: Vec<i64> = self.windows_positions(desk);
        assert(self@.windows[i as int].ok());
        let reference: i64 = match self.scroll_target {
            Some(t) => t,
            None => self.scroll_offset,
        };
        let left: i128 = (pos[i] - self.padding) as i128 - reference as i128;
        let right: i128 = left + (self.windows[i].width + 2 * self.padding) as i128;
        let over: i128 = right - self.screen_size.width as i128;
        if left >= 0 && over <= 0 {
            return ;
        }
        let to_left: i128 = if left < 0 {
            -left
        } else {
            left
        };
        let to_right: i128 = if over < 0 {
            -over
        } else {
            over
        };
        let offset: i64 = if to_left < to_right {
            scroll_clamp(reference as i128 - to_left)
        } else {
            scroll_clamp(reference as i128 + to_right)
        };
        if self.smooth_scroll_enabled {
            self.scroll_target = Some(offset);
            self.scroll_animation = None;
        } else {
            self.scroll_offset = offset;
        }
    }

    /// Scrolls to the focused window, if the focus has changed.
    fn follow_focus(&mut self, desk: &Desktop) -> (r: LayoutPlan)
        requires
            old(self).wf(),
        ensures
            final(self)@ == old(self)@.focus_followed(*desk),
            if old(self)@.jumps(*desk) {
                old(self)@.sent_plan(old(self)@.focus_offset(*desk), *desk, r)
            } else {
                nothing_planned(r)
            },
            final(self).wf(),
    {
        let focus: Option<usize> = self.focus_index(desk);
        let changed: bool = match (focus, self.previously_focused_window_index) {
            (Some(a), Some(b)) => a != b,
            (None, None) => false,
            _ => true,
        };
        if !changed {
            return LayoutPlan::empty();
        }
        match focus {
            Some(i) => {
                let pos: Vec<i64> = self.windows_positions(desk);
                let x: i64 = pos[i];
                assert(self@.windows[i as int].ok());
                let width: i64 = self.windows[i].width;
                let half: i64 = floor_div(self.screen_size.width, 2);
                let from: i128 = self.scroll_offset as i128;
                if x as i128 > from + (self.screen_size.width + half) as i128 || ((x + width)
                    as i128) < from - half as i128 {
                    let offset: i64 = self.centered(x, width);
                    return self.set_scroll_offset(offset, desk);
                }
            },
            None => {},
        }
        self.ajust_scroll(desk);
        LayoutPlan::empty()
    }

    /// Lets go of the tiles whose windows are gone, and follows the others into
    /// and out of the taskbar.
    fn drop_missing(&mut self, snapshot: &Vec<Window>, desk: &Desktop)
        requires
            old(self).wf(),
        ensures
            final(self)@ == old(self)@.retained(snapshot@, *desk),
            final(self)@.windows.len() <= old(self)@.windows.len(),
            final(self).wf(),
    {
        let mut kept: Vec<WindowItem> = retain(&self.windows, snapshot, desk);
        proof {
            lemma_selected(self.windows@, keep_mask(self.windows@, snapshot@, *desk));
        }
        track_iconic(&mut kept, desk);
        self.windows = kept;
        assert(self@ =~= old(self)@.retained(snapshot@, *desk));
    }

    /// Draws the conclusions from the end of a mouse drag.
    fn settle_drag(&mut self, desk: &Desktop, tiling_hmonitor: i64)
        requires
            old(self).wf(),
            old(self)@.drag_ended(*desk) && old(self)@.undragged(
                *desk,
                tiling_hmonitor,
            ).left_resize(*desk) is Some ==> MIN_TILE_WIDTH <= old(self)@.max_screen_width(),
        ensures
            final(self)@ == old(self)@.drag_settled(*desk, tiling_hmonitor),
            final(self)@.windows.len() <= old(self)@.windows.len(),
            final(self).wf(),
    {
        let drag_ended: bool = self.was_mouse_held_last_snapshot && !desk.mouse_held;
        self.was_mouse_held_last_snapshot = desk.mouse_held;
        if drag_ended {
            let rest: Vec<WindowItem> = prune_dragged(&self.windows, desk, tiling_hmonitor);
            proof {
                lemma_selected(
                    self.windows@,
                    negated(drag_mask(self.windows@, *desk, tiling_hmonitor)),
                );
            }
            self.windows = rest;
            assert(self@ =~= old(self)@.undragged(*desk, tiling_hmonitor));
            self.settle_left_resize(desk);
        }
    }

    /// At rest, forgets the placements that no longer hold.
    fn settle_divergence(&mut self, desk: &Desktop)
        requires
            old(self).wf(),
        ensures
            final(self)@ == old(self)@.diverged(*desk),
            final(self)@.windows.len() == old(self)@.windows.len(),
            final(self).wf(),
    {
        if !desk.mouse_held && !self.is_animating() {
            track_divergence(&mut self.windows, desk);
            assert(self@ =~= old(self)@.diverged(*desk));
        }
    }

    fn take_in(&mut self, snapshot: &Vec<Window>, desk: &Desktop, tiling_hmonitor: i64)
        requires
            old(self).wf(),
            old(self)@.windows.len() + snapshot@.len() <= MAX_WINDOWS,
            old(self)@.room_for_resize(snapshot@, *desk, tiling_hmonitor),
        ensures
            final(self)@ == old(self)@.taken_in(snapshot@, *desk, tiling_hmonitor),
            final(self).wf(),
    {
        self.drop_missing(snapshot, desk);
        self.settle_drag(desk, tiling_hmonitor);
        self.settle_divergence(desk);
        self.update_widths(desk);
        self.append_new_windows(snapshot, desk, tiling_hmonitor);
    }

    /// Takes in a new look at the desktop: windows that are gone lose their
    /// tiles, new ones on the tiling monitor get one, widths follow the
    /// windows, and everything is put in its place.
    pub fn handle_window_snapshot(
        &mut self,
        snapshot: &Vec<Window>,
        desk: &Desktop,
        tiling_hmonitor: i64,
    ) -> (r: SnapshotPlan)
        requires
            old(self).wf(),
            old(self)@.windows.len() + snapshot@.len() <= MAX_WINDOWS,
            old(self)@.room_for_resize(snapshot@, *desk, tiling_hmonitor),
        ensures
            final(self)@ == old(self)@.snapped(snapshot@, *desk, tiling_hmonitor),
            old(self)@.snapshot_plan(snapshot@, *desk, tiling_hmonitor, r),
            final(self).wf(),
    {
        self.take_in(snapshot, desk, tiling_hmonitor);
        let ghost s4 = self@;
        let pos: Vec<i64> = self.windows_positions(desk);
        let recenter: LayoutPlan = self.follow_focus(desk);
        proof {
            lemma_followed_len(s4, *desk);
        }
        let layout: LayoutPlan = self.layout_windows(&pos, desk);
        match self.focus_index(desk) {
            Some(i) => {
                self.previously_focused_window_index = Some(i);
            },
            None => {},
        }
        SnapshotPlan { recenter, layout }
    }
}

proof fn lemma_followed_len(s: Strip, desk: Desktop)
    requires
        s.wf(),
    ensures
        s.focus_followed(desk).windows.len() == s.windows.len(),
{
    if s.jumps(desk) && !s.smooth_scroll_enabled {
        let t = s.at_offset(s.focus_offset(desk));
        assert(t.wf());
        crate::scroll_tiler::layout::lemma_laid_wf(t, t.positions(desk), desk);
    }
}

} // verus!
