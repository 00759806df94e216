//! Scrolling and animations.
use vstd::prelude::*;

use crate::geometry::{
    abs_diff, clamp, clamped, floor_div, magnitude, position_ok, scaled, scroll_clamp,
    scroll_clamped, trunc_div, width_ok,
};
use crate::scroll_tiler::item::{WidthAnimation, WindowItem};
use crate::scroll_tiler::layout::{nothing_planned, LayoutPlan};
use crate::scroll_tiler::strip::{hwnd_mask, items_ok, ScrollAnimation, Strip};
use crate::scroll_tiler::{find_hwnd, ScrollTiler};
use crate::search::first_true;
use crate::window::Desktop;

verus! {

/// Nanoseconds in a millisecond; no animation counts as shorter.
pub const MILLISECOND: u64 = 1_000_000;

/// Steps that the time of an animation is divided into.
pub const EASE_STEPS: i128 = 1_000_000;

/// Distance at which smoothing snaps to its target.
pub const SNAP_DISTANCE: i64 = 500;

/// Narrowest width that can be asked for by name of a window.
pub const MIN_REQUEST_WIDTH: i64 = 50_000;

/// Time from `then` to `now`; nothing where `now` is earlier.
pub open spec fn since(now: u64, then: u64) -> int {
    if now > then {
        now - then
    } else {
        0
    }
}

/// Steps of an animation that have passed.
pub open spec fn progress(elapsed: int, duration: int) -> int {
    let span = if duration > MILLISECOND {
        duration
    } else {
        MILLISECOND as int
    };
    clamped(elapsed * EASE_STEPS / span, 0, EASE_STEPS as int)
}

/// Share of the way covered after `t` steps, as a numerator over
/// `EASE_STEPS` cubed: one minus the cube of what remains.
pub open spec fn eased_share(t: int) -> int {
    EASE_STEPS * EASE_STEPS * EASE_STEPS - (EASE_STEPS - t) * (EASE_STEPS - t) * (EASE_STEPS - t)
}

/// A value on its way from `start` to `target`: quick at first, slow at the
/// end.
pub open spec fn eased(start: int, target: int, elapsed: int, duration: int) -> int {
    start + scaled(
        target - start,
        eased_share(progress(elapsed, duration)),
        EASE_STEPS * EASE_STEPS * EASE_STEPS,
    )
}

pub proof fn lemma_eased_share(t: int)
    requires
        0 <= t <= EASE_STEPS,
    ensures
        0 <= eased_share(t) <= EASE_STEPS * EASE_STEPS * EASE_STEPS,
        EASE_STEPS * EASE_STEPS * EASE_STEPS == 1_000_000_000_000_000_000,
{
    let r = EASE_STEPS - t;
    assert(0 <= r * r * r <= 1_000_000_000_000_000_000) by (nonlinear_arith)
        requires
            0 <= r <= 1_000_000,
    ;
}

/// A scaled value keeps its sign and does not grow.
pub proof fn lemma_scaled(v: int, num: int, den: int)
    requires
        0 <= num <= den,
        den > 0,
    ensures
        v >= 0 ==> 0 <= scaled(v, num, den) <= v,
        v <= 0 ==> v <= scaled(v, num, den) <= 0,
        num == den ==> scaled(v, num, den) == v,
{
    if v >= 0 {
        assert(0 <= v * num <= v * den) by (nonlinear_arith)
            requires
                v >= 0,
                0 <= num <= den,
        ;
        assert((v * den) / den == v) by (nonlinear_arith)
            requires
                den > 0,
        ;
        vstd::arithmetic::div_mod::lemma_div_is_ordered(v * num, v * den, den);
        vstd::arithmetic::div_mod::lemma_div_pos_is_pos(v * num, den);
    } else {
        let w = -v;
        assert(-(v * num) == w * num) by (nonlinear_arith)
            requires
                w == -v,
        ;
        assert(0 <= w * num <= w * den) by (nonlinear_arith)
            requires
                w >= 0,
                0 <= num <= den,
        ;
        assert((w * den) / den == w) by (nonlinear_arith)
            requires
                den > 0,
        ;
        vstd::arithmetic::div_mod::lemma_div_is_ordered(w * num, w * den, den);
        vstd::arithmetic::div_mod::lemma_div_pos_is_pos(w * num, den);
    }
}

/// An animated value never leaves the stretch between its start and its
/// target.
pub proof fn law_eased_stays_between(start: int, target: int, elapsed: int, duration: int)
    ensures
        start <= target ==> start <= eased(start, target, elapsed, duration) <= target,
        target <= start ==> target <= eased(start, target, elapsed, duration) <= start,
{
    let t = progress(elapsed, duration);
    lemma_eased_share(t);
    lemma_scaled(target - start, eased_share(t), EASE_STEPS * EASE_STEPS * EASE_STEPS);
}

fn elapsed_since(now: u64, then: u64) -> (r: u64)
    ensures
        r == since(now, then),
{
    if now > then {
        now - then
    } else {
        0
    }
}

fn ease(start: i64, target: i64, elapsed: u64, duration: u64) -> (r: i64)
    ensures
        r == eased(start as int, target as int, elapsed as int, duration as int),
        start <= target ==> start <= r <= target,
        target <= start ==> target <= r <= start,
{
    let span: u64 = if duration > MILLISECOND {
        duration
    } else {
        MILLISECOND
    };
    let scaled_time: u128 = elapsed as u128 * (EASE_STEPS as u128);
    let steps: u128 = scaled_time / (span as u128);
    let t: i128 = if steps > EASE_STEPS as u128 {
        EASE_STEPS
    } else {
        steps as i128
    };
    assert(t == progress(elapsed as int, duration as int));
    let rest: i128 = EASE_STEPS - t;
    proof {
        lemma_eased_share(t as int);
        law_eased_stays_between(start as int, target as int, elapsed as int, duration as int);
        assert(0 <= rest * rest <= 1_000_000_000_000 && 0 <= rest * rest * rest
            <= 1_000_000_000_000_000_000) by (nonlinear_arith)
            requires
                0 <= rest <= 1_000_000,
        ;
    }
    let cube: i128 = EASE_STEPS * EASE_STEPS * EASE_STEPS;
    let share: i128 = cube - rest * rest * rest;
    let way: i128 = target as i128 - start as i128;
    proof {
        assert(-18_446_744_073_709_551_615_000_000_000_000_000_000 <= way * share
            <= 18_446_744_073_709_551_615_000_000_000_000_000_000) by (nonlinear_arith)
            requires
                -18_446_744_073_709_551_615 <= way <= 18_446_744_073_709_551_615,
                0 <= share <= 1_000_000_000_000_000_000,
        ;
    }
    let covered: i128 = trunc_div(way * share, cube);
    (start as i128 + covered) as i64
}

/// Tile `item` one animation frame later.
pub open spec fn width_ticked_item(item: WindowItem, now: u64) -> WindowItem {
    match item.width_animation {
        None => item,
        Some(a) => {
            let elapsed = since(now, a.start_time);
            if elapsed >= a.duration {
                WindowItem {
                    width: a.target_width,
                    requested_width: Some(a.target_width),
                    width_animation: None,
                    ..item
                }
            } else {
                let w = eased(
                    a.start_width as int,
                    a.target_width as int,
                    elapsed,
                    a.duration as int,
                ) as i64;
                WindowItem { width: w, requested_width: Some(w), ..item }
            }
        },
    }
}

pub open spec fn width_ticked(windows: Seq<WindowItem>, now: u64) -> Seq<WindowItem> {
    Seq::new(windows.len(), |i: int| width_ticked_item(windows[i], now))
}

/// One frame of smoothing from `offset` toward `target`.
pub open spec fn smoothed(offset: int, target: int, factor: int) -> int {
    if magnitude(target - offset) < SNAP_DISTANCE {
        target
    } else {
        offset + scaled(target - offset, factor, 1000)
    }
}

impl Strip {
    /// The scroll one frame later.
    pub open spec fn scroll_ticked(self, now: u64) -> Self {
        match self.scroll_animation {
            Some(a) => {
                let elapsed = since(now, a.start_time);
                if elapsed >= a.duration {
                    Strip { scroll_offset: a.target_offset, scroll_animation: None, ..self }
                } else {
                    Strip {
                        scroll_offset: eased(
                            a.start_offset as int,
                            a.target_offset as int,
                            elapsed,
                            a.duration as int,
                        ) as i64,
                        ..self
                    }
                }
            },
            None => match self.scroll_target {
                Some(t) => Strip {
                    scroll_offset: smoothed(
                        self.scroll_offset as int,
                        t as int,
                        self.smooth_scroll_factor as int,
                    ) as i64,
                    scroll_target: if magnitude(t - self.scroll_offset) < SNAP_DISTANCE {
                        None
                    } else {
                        Some(t)
                    },
                    ..self
                },
                None => self,
            },
        }
    }

    /// Everything in motion one frame later, not yet laid out.
    pub open spec fn advanced(self, now: u64) -> Self {
        self.scroll_ticked(now).with_windows(width_ticked(self.windows, now))
    }

    /// The strip one animation frame later.
    pub open spec fn ticked(self, desk: Desktop) -> Self {
        if self.animating() {
            self.advanced(desk.now).relaid(desk).moved_at(desk.now)
        } else {
            self
        }
    }

    pub open spec fn tick_plan(self, desk: Desktop, plan: LayoutPlan) -> bool {
        if self.animating() {
            self.advanced(desk.now).relayout_plan(desk, plan)
        } else {
            nothing_planned(plan)
        }
    }

    /// The strip with the offset set outright, not yet laid out.
    pub open spec fn at_offset(self, offset: i64) -> Self {
        Strip { scroll_offset: offset, scroll_animation: None, ..self }
    }

    /// The strip sent to an offset: on its way there where scrolling is
    /// smoothed, there at once where not. A timed scroll is given up.
    pub open spec fn sent_to(self, offset: i64, desk: Desktop) -> Self {
        if self.smooth_scroll_enabled {
            Strip { scroll_target: Some(offset), scroll_animation: None, ..self }.moved_at(desk.now)
        } else {
            self.at_offset(offset).relaid(desk).moved_at(desk.now)
        }
    }

    pub open spec fn sent_plan(self, offset: i64, desk: Desktop, plan: LayoutPlan) -> bool {
        if self.smooth_scroll_enabled {
            nothing_planned(plan)
        } else {
            self.at_offset(offset).relayout_plan(desk, plan)
        }
    }

    /// Where scrolling by `delta` leads: from the target where the strip is
    /// on its way to one, else from where it is.
    pub open spec fn offset_by(self, delta: int) -> int {
        let base = if self.smooth_scroll_enabled && self.scroll_target is Some {
            self.scroll_target->0
        } else {
            self.scroll_offset
        };
        scroll_clamped(base + delta)
    }

    /// The strip sent to an offset over a fixed time; a time of nothing jumps.
    pub open spec fn timed_to(self, offset: i64, duration_ms: u32, desk: Desktop) -> Self {
        if duration_ms == 0 {
            Strip { scroll_target: None, ..self }.at_offset(offset).relaid(desk).moved_at(desk.now)
        } else {
            Strip {
                scroll_target: None,
                scroll_animation: Some(
                    ScrollAnimation {
                        start_offset: self.scroll_offset,
                        target_offset: offset,
                        start_time: desk.now,
                        duration: (duration_ms * MILLISECOND) as u64,
                    },
                ),
                ..self
            }.moved_at(desk.now)
        }
    }

    pub open spec fn timed_plan(
        self,
        offset: i64,
        duration_ms: u32,
        desk: Desktop,
        plan: LayoutPlan,
    ) -> bool {
        if duration_ms == 0 {
            Strip { scroll_target: None, ..self }.at_offset(offset).relayout_plan(desk, plan)
        } else {
            nothing_planned(plan)
        }
    }

    pub open spec fn tile_of(self, hwnd: u64) -> Option<int> {
        first_true(hwnd_mask(self.windows, hwnd))
    }

    /// The strip with a new width for one tile, at once or over a fixed time.
    pub open spec fn width_sent(self, hwnd: u64, width: i64, duration_ms: u32, now: u64) -> Self {
        match self.tile_of(hwnd) {
            None => self,
            Some(i) => {
                let item = self.windows[i];
                let new_item = if duration_ms == 0 {
                    WindowItem {
                        width,
                        requested_width: Some(width),
                        width_animation: None,
                        ..item
                    }
                } else {
                    WindowItem {
                        width_animation: Some(
                            WidthAnimation {
                                start_width: item.width,
                                target_width: width,
                                start_time: now,
                                duration: (duration_ms * MILLISECOND) as u64,
                            },
                        ),
                        ..item
                    }
                };
                self.with_windows(self.windows.update(i, new_item))
            },
        }
    }
}

pub proof fn lemma_smoothed(offset: int, target: int, factor: int)
    requires
        50 <= factor <= 1000,
    ensures
        offset <= target ==> offset <= smoothed(offset, target, factor) <= target,
        target <= offset ==> target <= smoothed(offset, target, factor) <= offset,
        offset != target ==> magnitude(target - smoothed(offset, target, factor)) < magnitude(
            target - offset,
        ),
{
    let d = target - offset;
    lemma_scaled(d, factor, 1000);
    if magnitude(d) >= SNAP_DISTANCE {
        let m = magnitude(d);
        assert(m * factor >= 25_000) by (nonlinear_arith)
            requires
                m >= 500,
                factor >= 50,
        ;
        vstd::arithmetic::div_mod::lemma_div_is_ordered(25_000, m * factor, 1000);
        assert(25_000int / 1000 == 25);
        if d < 0 {
            assert(-(d * factor) == m * factor) by (nonlinear_arith)
                requires
                    m == -d,
            ;
        }
    }
}

impl ScrollTiler {
    /// Scrolls by `delta`: positive values show what lies to the right.
    pub fn scroll_by(&mut self, delta: i64, desk: &Desktop) -> (r: LayoutPlan)
        requires
            old(self).wf(),
        ensures
            final(self)@ == old(self)@.sent_to(old(self)@.offset_by(delta as int) as i64, *desk),
            old(self)@.sent_plan(old(self)@.offset_by(delta as int) as i64, *desk, r),
            final(self).wf(),
    {
        let base: i64 = if self.smooth_scroll_enabled {
            match self.scroll_target {
                Some(t) => t,
                None => self.scroll_offset,
            }
        } else {
            self.scroll_offset
        };
        let offset: i64 = scroll_clamp(base as i128 + delta as i128);
        self.set_scroll_offset(offset, desk)
    }

    /// Sends the strip to an offset.
    pub fn set_scroll_offset(&mut self, offset: i64, desk: &Desktop) -> (r: LayoutPlan)
        requires
            old(self).wf(),
        ensures
            final(self)@ == old(self)@.sent_to(offset, *desk),
            old(self)@.sent_plan(offset, *desk, r),
            final(self).wf(),
    {
        self.scroll_animation = None;
        if self.smooth_scroll_enabled {
            self.scroll_target = Some(offset);
            self.last_motion = Some(desk.now);
            LayoutPlan::empty()
        } else {
            self.scroll_offset = offset;
            assert(self@ == old(self)@.at_offset(offset));
            let plan: LayoutPlan = self.relayout(desk);
            self.last_motion = Some(desk.now);
            plan
        }
    }

    /// Scrolls so that the focused window is in the middle of the screen.
    pub fn center_focused_window(&mut self, desk: &Desktop) -> (r: LayoutPlan)
        requires
            old(self).wf(),
        ensures
            match old(self)@.focus_index(*desk) {
                None => *final(self) == *old(self) && nothing_planned(r),
                Some(i) => {
                    let offset = old(self)@.centering_offset(
                        old(self)@.positions(*desk)[i] as int,
                        old(self)@.windows[i].width as int,
                    ) as i64;
                    final(self)@ == old(self)@.sent_to(offset, *desk) && old(self)@.sent_plan(
                        offset,
                        *desk,
                        r,
                    )
                },
            },
            final(self).wf(),
    {
        match self.focus_index(desk) {
            None => LayoutPlan::empty(),
            Some(i) => {
                let pos: Vec<i64> = self.windows_positions(desk);
                assert(self@.windows[i as int].ok());
                let offset: i64 = self.centered(pos[i], self.windows[i].width);
                self.set_scroll_offset(offset, desk)
            },
        }
    }

    /// The offset that puts the middle of a tile into the middle of the screen.
    pub fn centered(&self, x: i64, width: i64) -> (r: i64)
        requires
            self.wf(),
            position_ok(x),
            width_ok(width),
        ensures
            r == self@.centering_offset(x as int, width as int),
    {
        let half_width: i64 = floor_div(width, 2);
        let half_screen: i64 = floor_div(self.screen_size.width, 2);
        x + half_width - half_screen
    }

    /// Scrolls so that the given window will be in the middle of the screen
    /// once it is `assumed_width` wide. `false` where it has no tile.
    pub fn center_window_at_width(&mut self, hwnd: u64, assumed_width: i64, desk: &Desktop) -> (r: (
        bool,
        LayoutPlan,
    ))
        requires
            old(self).wf(),
            old(self)@.tile_of(hwnd) is Some ==> MIN_REQUEST_WIDTH
                <= old(self)@.max_screen_width(),
        ensures
            match old(self)@.tile_of(hwnd) {
                None => !r.0 && *final(self) == *old(self) && nothing_planned(r.1),
                Some(i) => {
                    let offset = old(self)@.centering_offset(
                        old(self)@.positions(*desk)[i] as int,
                        clamped(
                            assumed_width as int,
                            MIN_REQUEST_WIDTH as int,
                            old(self)@.max_screen_width(),
                        ),
                    ) as i64;
                    r.0 && final(self)@ == old(self)@.sent_to(offset, *desk)
                        && old(self)@.sent_plan(offset, *desk, r.1)
                },
            },
            final(self).wf(),
    {
        match find_hwnd(&self.windows, hwnd) {
            None => (false, LayoutPlan::empty()),
            Some(i) => {
                let pos: Vec<i64> = self.windows_positions(desk);
                let max_width: i64 = self.max_screen_width();
                let width: i64 = clamp(assumed_width, MIN_REQUEST_WIDTH, max_width);
                let offset: i64 = self.centered(pos[i], width);
                (true, self.set_scroll_offset(offset, desk))
            },
        }
    }

    /// Scrolls to an offset over a fixed time. A scroll in progress is
    /// replaced; a time of nothing jumps and ends it.
    pub fn animate_scroll_to(&mut self, target_offset: i64, duration_ms: u32, desk: &Desktop) -> (r:
        LayoutPlan)
        requires
            old(self).wf(),
        ensures
            final(self)@ == old(self)@.timed_to(target_offset, duration_ms, *desk),
            old(self)@.timed_plan(target_offset, duration_ms, *desk, r),
            final(self).wf(),
    {
        self.scroll_target = None;
        if duration_ms == 0 {
            self.scroll_offset = target_offset;
            self.scroll_animation = None;
            assert(self@ == Strip { scroll_target: None, ..old(self)@ }.at_offset(target_offset));
            let plan: LayoutPlan = self.relayout(desk);
            self.last_motion = Some(desk.now);
            plan
        } else {
            self.scroll_animation = Some(
                ScrollAnimation {
                    start_offset: self.scroll_offset,
                    target_offset,
                    start_time: desk.now,
                    duration: duration_ms as u64 * MILLISECOND,
                },
            );
            self.last_motion = Some(desk.now);
            LayoutPlan::empty()
        }
    }

    /// Changes the width of a tile over a fixed time; a time of nothing
    /// changes it at once and ends a change in progress. The width is kept
    /// between 50 pixels and the screen. `false` where the window has no tile.
    pub fn animate_window_width(
        &mut self,
        hwnd: u64,
        target_width: i64,
        duration_ms: u32,
        now: u64,
    ) -> (r: bool)
        requires
            old(self).wf(),
            MIN_REQUEST_WIDTH <= old(self)@.max_screen_width(),
        ensures
            r == old(self)@.tile_of(hwnd) is Some,
            final(self)@ == old(self)@.width_sent(
                hwnd,
                clamped(
                    target_width as int,
                    MIN_REQUEST_WIDTH as int,
                    old(self)@.max_screen_width(),
                ) as i64,
                duration_ms,
                now,
            ),
            final(self).wf(),
    {
        let max_width: i64 = self.max_screen_width();
        let target: i64 = clamp(target_width, MIN_REQUEST_WIDTH, max_width);
        match find_hwnd(&self.windows, hwnd) {
            None => false,
            Some(i) => {
                let mut item: WindowItem = self.windows[i];
                assert(self@.windows[i as int].ok());
                if duration_ms == 0 {
                    item.width = target;
                    item.requested_width = Some(target);
                    item.width_animation = None;
                } else {
                    item.width_animation = Some(
                        WidthAnimation {
                            start_width: item.width,
                            target_width: target,
                            start_time: now,
                            duration: duration_ms as u64 * MILLISECOND,
                        },
                    );
                }
                self.windows[i] = item;
                true
            },
        }
    }

    /// Advances everything in motion by one frame. Says whether anything is
    /// still in motion.
    pub fn tick_animation(&mut self, desk: &Desktop) -> (r: (bool, LayoutPlan))
        requires
            old(self).wf(),
        ensures
            final(self)@ == old(self)@.ticked(*desk),
            r.0 == final(self)@.animating(),
            old(self)@.tick_plan(*desk, r.1),
            final(self).wf(),
    {
        if !self.is_animating() {
            return (false, LayoutPlan::empty());
        }
        match self.scroll_animation {
            Some(a) => {
                let elapsed: u64 = elapsed_since(desk.now, a.start_time);
                if elapsed >= a.duration {
                    self.scroll_offset = a.target_offset;
                    self.scroll_animation = None;
                } else {
                    self.scroll_offset = ease(
                        a.start_offset,
                        a.target_offset,
                        elapsed,
                        a.duration,
                    );
                }
            },
            None => match self.scroll_target {
                Some(target) => {
                    if abs_diff(target, self.scroll_offset) < SNAP_DISTANCE as u64 {
                        self.scroll_offset = target;
                        self.scroll_target = None;
                    } else {
                        self.scroll_offset = smooth(
                            self.scroll_offset,
                            target,
                            self.smooth_scroll_factor,
                        );
                    }
                },
                None => {},
            },
        }
        assert(self@ == old(self)@.scroll_ticked(desk.now));
        tick_widths(&mut self.windows, desk.now);
        assert(self@ =~= old(self)@.advanced(desk.now));
        let plan: LayoutPlan = self.relayout(desk);
        self.last_motion = Some(desk.now);
        (self.is_animating(), plan)
    }
}

fn smooth(offset: i64, target: i64, factor: u32) -> (r: i64)
    requires
        50 <= factor <= 1000,
        magnitude(target - offset) >= SNAP_DISTANCE,
    ensures
        r == smoothed(offset as int, target as int, factor as int),
{
    let diff: i128 = target as i128 - offset as i128;
    proof {
        lemma_smoothed(offset as int, target as int, factor as int);
        assert(-18_446_744_073_709_551_615_000 <= diff * factor <= 18_446_744_073_709_551_615_000)
            by (nonlinear_arith)
            requires
                -18_446_744_073_709_551_615 <= diff <= 18_446_744_073_709_551_615,
                0 <= factor <= 1000,
        ;
    }
    let step: i128 = trunc_div(diff * (factor as i128), 1000);
    (offset as i128 + step) as i64
}

fn tick_widths(windows: &mut Vec<WindowItem>, now: u64)
    requires
        items_ok(old(windows)@),
        crate::scroll_tiler::strip::distinct(old(windows)@),
    ensures
        final(windows)@ == width_ticked(old(windows)@, now),
        items_ok(final(windows)@),
        crate::scroll_tiler::strip::distinct(final(windows)@),
{
    let ghost before = windows@;
    let mut i: usize = 0;
    while i < windows.len()
        invariant
            i <= windows.len(),
            windows@.len() == before.len(),
            items_ok(before),
            items_ok(windows@),
            forall|j: int| 0 <= j < i ==> #[trigger] windows@[j] == width_ticked_item(before[j], now),
            forall|j: int| i <= j < before.len() ==> #[trigger] windows@[j] == before[j],
        decreases windows.len() - i,
    {
        let mut item: WindowItem = windows[i];
        assert(before[i as int].ok());
        match item.width_animation {
            Some(a) => {
                let elapsed: u64 = elapsed_since(now, a.start_time);
                if elapsed >= a.duration {
                    item.width = a.target_width;
                    item.requested_width = Some(a.target_width);
                    item.width_animation = None;
                } else {
                    let w: i64 = ease(a.start_width, a.target_width, elapsed, a.duration);
                    item.width = w;
                    item.requested_width = Some(w);
                }
                windows[i] = item;
            },
            None => {},
        }
        i = i + 1;
    }
    proof {
        assert(windows@ =~= width_ticked(before, now));
        assert forall|a: int, b: int| 0 <= a < b < windows@.len() implies (#[trigger]
        windows@[a]).inner != (#[trigger] windows@[b]).inner by {
            assert(before[a].inner != before[b].inner);
        }
    }
}

} // verus!
