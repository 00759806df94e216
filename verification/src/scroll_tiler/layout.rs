//! Putting every tile where it belongs.
use vstd::prelude::*;

use crate::geometry::{
    abs_diff, magnitude, position_ok, to_pixels, whole_pixels, width_ok, Position, Size,
};
use crate::scroll_tiler::item::{
    look_up_throttle, observed_throttle, Clip, Placement, WindowItem, MOTION_EPS,
};
use crate::scroll_tiler::profile::{one_more, Counters, ScrollProfileSnapshot};
use crate::scroll_tiler::strip::{positions_ok, Strip};
use crate::scroll_tiler::ScrollTiler;
use crate::window::{padded_on, BatchMove, Desktop, PixelRect, Window};

verus! {

/// Where windows outside the screen are parked, on both axes. Beyond any
/// monitor, and within the 16 bits some applications cut coordinates to.
pub const PARK: i64 = 25_000_000;

/// What the layout wants for one window.
#[derive(Debug, Clone, Copy)]
pub struct Decision {
    pub placement: Placement,
    /// The part that may show; `None` for the whole window.
    pub clip: Option<Clip>,
    pub fully_offscreen: bool,
}

/// A change to the visible region of a window.
#[derive(Debug, Clone, Copy)]
pub enum ClipCommand {
    /// Show the whole window.
    Clear { window: Window },
    /// Show `clip` only. Where that fails, `previous` is still in force.
    Apply { window: Window, clip: Clip, previous: Option<Clip> },
}

/// What is to be done to the windows.
#[derive(Debug)]
pub struct LayoutPlan {
    /// Moves to make in one batch.
    pub moves: Vec<BatchMove>,
    /// Region changes to make after the moves.
    pub clips: Vec<ClipCommand>,
    /// The counters of the animation that has just ended.
    pub profile: Option<ScrollProfileSnapshot>,
}

pub open spec fn larger(a: int, b: int) -> int {
    if a >= b {
        a
    } else {
        b
    }
}

pub open spec fn smaller(a: int, b: int) -> int {
    if a <= b {
        a
    } else {
        b
    }
}

/// A tile goes to its place in the strip, seen from the scroll offset, at full
/// height. One that would show nothing is parked; one that shows in part is
/// clipped to the screen.
pub open spec fn decided(screen: Size, padding: int, scroll: int, width: int, x: int) -> Decision {
    let left = x - scroll;
    let top = padding;
    let height = screen.height - 2 * padding;
    let vis_left = larger(left, 0);
    let vis_top = larger(top, 0);
    let vis_right = smaller(left + width, screen.width as int);
    let vis_bottom = smaller(top + height, screen.height as int);
    let offscreen = vis_right <= vis_left || vis_bottom <= vis_top;
    let visible = left >= 0 && top >= 0 && left + width <= screen.width && top + height
        <= screen.height;
    Decision {
        placement: Placement {
            x: if offscreen {
                PARK
            } else {
                left as i64
            },
            y: if offscreen {
                PARK
            } else {
                top as i64
            },
            width: width as i64,
            height: height as i64,
        },
        clip: if offscreen || visible {
            None
        } else {
            Some(
                Clip {
                    left: whole_pixels(vis_left - left) as i32,
                    top: whole_pixels(vis_top - top) as i32,
                    right: whole_pixels(vis_right - left) as i32,
                    bottom: whole_pixels(vis_bottom - top) as i32,
                },
            )
        },
        fully_offscreen: offscreen,
    }
}

/// Whether `p` differs from where the window was put last.
pub open spec fn displaced(item: WindowItem, p: Placement) -> bool {
    match item.last_layout {
        None => true,
        Some(l) => {
            ||| magnitude(l.x - p.x) > MOTION_EPS
            ||| magnitude(l.y - p.y) > MOTION_EPS
            ||| magnitude(l.width - p.width) > MOTION_EPS
            ||| magnitude(l.height - p.height) > MOTION_EPS
        },
    }
}

/// Whether the window is to be moved: it is somewhere else, or a move of it
/// was left out.
pub open spec fn due(item: WindowItem, p: Placement) -> bool {
    displaced(item, p) || item.move_owed
}

/// Whether this frame is one that a slow window sits out.
pub open spec fn sits_out(item: WindowItem, throttling: bool, frame: u32) -> bool {
    throttling && item.scroll_frame_throttle > 1 && frame as int % item.scroll_frame_throttle as int
        != 0
}

pub open spec fn clip_after(item: WindowItem, d: Decision, scrolling: bool) -> Option<Clip> {
    if scrolling || item.skip_clipping {
        None
    } else {
        d.clip
    }
}

/// The region change that leads from the last region to the wanted one.
pub open spec fn clip_change(item: WindowItem, d: Decision, scrolling: bool) -> Option<
    ClipCommand,
> {
    let wanted = clip_after(item, d, scrolling);
    if wanted == item.last_clip {
        None
    } else {
        match wanted {
            None => Some(ClipCommand::Clear { window: item.inner }),
            Some(clip) => Some(
                ClipCommand::Apply { window: item.inner, clip, previous: item.last_clip },
            ),
        }
    }
}

/// `profile` after all of `moves` have been recorded.
pub open spec fn recorded(profile: Counters, moves: Seq<BatchMove>) -> Counters
    decreases moves.len(),
{
    if moves.len() == 0 {
        profile
    } else {
        recorded(profile, moves.drop_last()).spec_record(moves.last().window.hwnd)
    }
}

/// A window that is taken for a fast one is classified again.
pub open spec fn reclassified_item(item: WindowItem, desk: Desktop) -> WindowItem {
    if item.scroll_frame_throttle == 1 {
        WindowItem { scroll_frame_throttle: observed_throttle(desk, item.inner), ..item }
    } else {
        item
    }
}

pub open spec fn reclassified(windows: Seq<WindowItem>, desk: Desktop) -> Seq<WindowItem> {
    Seq::new(windows.len(), |i: int| reclassified_item(windows[i], desk))
}

impl Strip {
    /// Bookkeeping at the head of a layout: the first frame of an animation
    /// starts the counters, every frame counts.
    pub open spec fn begun(self, desk: Desktop) -> Self {
        let started = !self.was_animating_last_layout && self.animating();
        let s = if started {
            Strip {
                windows: reclassified(self.windows, desk),
                scroll_frame_index: 0,
                profile: self.profile.spec_start(desk.now),
                ..self
            }
        } else {
            self
        };
        if self.animating() {
            Strip {
                scroll_frame_index: one_more(s.scroll_frame_index),
                profile: s.profile.spec_tick_frame(),
                ..s
            }
        } else {
            s
        }
    }

    /// What the layout wants for tile `i`; `None` for a hidden window.
    pub open spec fn decision(self, pos: Seq<i64>, desk: Desktop, i: int) -> Option<Decision> {
        if desk.hidden(self.windows[i].inner) {
            None
        } else {
            Some(
                decided(
                    self.screen_size,
                    self.padding as int,
                    self.scroll_offset as int,
                    self.windows[i].width as int,
                    pos[i] as int,
                ),
            )
        }
    }

    /// Whether the present frame is one that a window sits out.
    pub open spec fn sits_out(self, item: WindowItem) -> bool {
        sits_out(item, self.animating() && self.throttle_slow_apps, self.scroll_frame_index)
    }

    /// The move of tile `i`, if one is made.
    pub open spec fn move_of(self, pos: Seq<i64>, desk: Desktop, i: int) -> Option<BatchMove> {
        let item = self.windows[i];
        match self.decision(pos, desk, i) {
            None => None,
            Some(d) => if !due(item, d.placement) || self.sits_out(item) {
                None
            } else {
                match padded_on(
                    desk,
                    item.inner,
                    Position { x: d.placement.x, y: d.placement.y },
                    Size { width: d.placement.width, height: d.placement.height },
                ) {
                    Some(rect) => Some(BatchMove { window: item.inner, rect }),
                    None => None,
                }
            },
        }
    }

    /// The moves of the first `upto` tiles.
    pub open spec fn moves(self, pos: Seq<i64>, desk: Desktop, upto: int) -> Seq<BatchMove>
        decreases upto,
    {
        if upto <= 0 {
            seq![]
        } else {
            let before = self.moves(pos, desk, upto - 1);
            match self.move_of(pos, desk, upto - 1) {
                Some(m) => before.push(m),
                None => before,
            }
        }
    }

    pub open spec fn clip_of(self, pos: Seq<i64>, desk: Desktop, i: int) -> Option<ClipCommand> {
        match self.decision(pos, desk, i) {
            None => None,
            Some(d) => clip_change(self.windows[i], d, self.scroll_target is Some),
        }
    }

    /// The region changes of the first `upto` tiles.
    pub open spec fn clips(self, pos: Seq<i64>, desk: Desktop, upto: int) -> Seq<ClipCommand>
        decreases upto,
    {
        if upto <= 0 {
            seq![]
        } else {
            let before = self.clips(pos, desk, upto - 1);
            match self.clip_of(pos, desk, upto - 1) {
                Some(c) => before.push(c),
                None => before,
            }
        }
    }

    /// Tile `i` after the layout. One that sits out stays where it was put,
    /// and is owed the move.
    pub open spec fn laid_item(self, pos: Seq<i64>, desk: Desktop, i: int) -> WindowItem {
        let item = self.windows[i];
        match self.decision(pos, desk, i) {
            None => item,
            Some(d) => {
                let owed = due(item, d.placement) && self.sits_out(item);
                WindowItem {
                    last_layout: if owed {
                        item.last_layout
                    } else {
                        Some(d.placement)
                    },
                    move_owed: owed,
                    last_clip: clip_after(item, d, self.scroll_target is Some),
                    ..item
                }
            },
        }
    }

    pub open spec fn laid_items(self, pos: Seq<i64>, desk: Desktop) -> Seq<WindowItem> {
        Seq::new(self.windows.len(), |i: int| self.laid_item(pos, desk, i))
    }

    /// The moves a layout makes.
    pub open spec fn layout_moves(self, pos: Seq<i64>, desk: Desktop) -> Seq<BatchMove> {
        if desk.mouse_held {
            seq![]
        } else {
            self.begun(desk).moves(pos, desk, self.windows.len() as int)
        }
    }

    /// The region changes a layout makes.
    pub open spec fn layout_clips(self, pos: Seq<i64>, desk: Desktop) -> Seq<ClipCommand> {
        if desk.mouse_held {
            seq![]
        } else {
            self.begun(desk).clips(pos, desk, self.windows.len() as int)
        }
    }

    /// The counters at the end of a layout, before a finished animation is
    /// taken off them.
    pub open spec fn layout_counters(self, pos: Seq<i64>, desk: Desktop) -> Counters {
        recorded(self.begun(desk).profile, self.layout_moves(pos, desk))
    }

    /// The strip after a layout. While the mouse button is held nothing is
    /// done: the user may be dragging a window.
    pub open spec fn laid(self, pos: Seq<i64>, desk: Desktop) -> Self {
        if desk.mouse_held {
            self
        } else {
            let b = self.begun(desk);
            let ended = self.was_animating_last_layout && !self.animating();
            Strip {
                windows: b.laid_items(pos, desk),
                last_motion: if self.layout_moves(pos, desk).len() > 0 {
                    Some(desk.now)
                } else {
                    self.last_motion
                },
                was_animating_last_layout: self.animating(),
                profile: if ended {
                    self.layout_counters(pos, desk).spec_finish()
                } else {
                    self.layout_counters(pos, desk)
                },
                ..b
            }
        }
    }

    /// `plan` is what a layout of the strip asks for.
    pub open spec fn layout_plan(self, pos: Seq<i64>, desk: Desktop, plan: LayoutPlan) -> bool {
        let ended = !desk.mouse_held && self.was_animating_last_layout && !self.animating();
        &&& plan.moves@ == self.layout_moves(pos, desk)
        &&& plan.clips@ == self.layout_clips(pos, desk)
        &&& match plan.profile {
            Some(s) => ended && self.layout_counters(pos, desk).snapshot(desk.now, s),
            None => !ended || self.layout_counters(pos, desk).start is None,
        }
    }

    /// The layout with every tile at its own position.
    pub open spec fn relaid(self, desk: Desktop) -> Self {
        self.laid(self.positions(desk), desk)
    }

    pub open spec fn relayout_plan(self, desk: Desktop, plan: LayoutPlan) -> bool {
        self.layout_plan(self.positions(desk), desk, plan)
    }
}

/// The plan of a layout that does nothing.
pub open spec fn nothing_planned(plan: LayoutPlan) -> bool {
    plan.moves@.len() == 0 && plan.clips@.len() == 0 && plan.profile is None
}

impl LayoutPlan {
    pub fn empty() -> (r: Self)
        ensures
            nothing_planned(r),
    {
        LayoutPlan { moves: Vec::new(), clips: Vec::new(), profile: None }
    }
}

fn decide(screen: Size, padding: i64, scroll: i64, width: i64, x: i64) -> (r: Decision)
    requires
        screen.ok(),
        crate::geometry::step_ok(padding),
        width_ok(width),
        position_ok(x),
    ensures
        r == decided(screen, padding as int, scroll as int, width as int, x as int),
{
    let left: i128 = x as i128 - scroll as i128;
    let right: i128 = left + width as i128;
    let top: i64 = padding;
    let height: i64 = screen.height - 2 * padding;
    let vis_left: i128 = if left >= 0 {
        left
    } else {
        0
    };
    let vis_top: i64 = if top >= 0 {
        top
    } else {
        0
    };
    let vis_right: i128 = if right <= screen.width as i128 {
        right
    } else {
        screen.width as i128
    };
    let vis_bottom: i64 = if top + height <= screen.height {
        top + height
    } else {
        screen.height
    };
    let fully_offscreen: bool = vis_right <= vis_left || vis_bottom <= vis_top;
    let fully_visible: bool = left >= 0 && top >= 0 && right <= screen.width as i128 && top
        + height <= screen.height;
    let clip: Option<Clip> = if fully_offscreen || fully_visible {
        None
    } else {
        Some(
            Clip {
                left: to_pixels(vis_left - left),
                top: to_pixels(vis_top as i128 - top as i128),
                right: to_pixels(vis_right - left),
                bottom: to_pixels(vis_bottom as i128 - top as i128),
            },
        )
    };
    let x: i64 = if fully_offscreen {
        PARK
    } else {
        left as i64
    };
    let y: i64 = if fully_offscreen {
        PARK
    } else {
        top
    };
    Decision { placement: Placement { x, y, width, height }, clip, fully_offscreen }
}

fn is_displaced(item: &WindowItem, p: Placement) -> (r: bool)
    ensures
        r == displaced(*item, p),
{
    match item.last_layout {
        None => true,
        Some(l) => abs_diff(l.x, p.x) > MOTION_EPS as u64 || abs_diff(l.y, p.y)
            > MOTION_EPS as u64 || abs_diff(l.width, p.width) > MOTION_EPS as u64 || abs_diff(
            l.height,
            p.height,
        ) > MOTION_EPS as u64,
    }
}

fn change_clip(item: &WindowItem, d: &Decision, scrolling: bool) -> (r: Option<ClipCommand>)
    ensures
        r == clip_change(*item, *d, scrolling),
{
    let wanted: Option<Clip> = if scrolling || item.skip_clipping {
        None
    } else {
        d.clip
    };
    match wanted {
        None => if item.last_clip.is_some() {
            Some(ClipCommand::Clear { window: item.inner })
        } else {
            None
        },
        Some(clip) => {
            let same: bool = match item.last_clip {
                Some(l) => l == clip,
                None => false,
            };
            if same {
                None
            } else {
                Some(ClipCommand::Apply { window: item.inner, clip, previous: item.last_clip })
            }
        },
    }
}

/// Gives every window that is taken for a fast one another chance to be
/// classified.
fn reclassify(windows: &mut Vec<WindowItem>, desk: &Desktop)
    requires
        crate::scroll_tiler::strip::items_ok(old(windows)@),
    ensures
        final(windows)@ == reclassified(old(windows)@, *desk),
        crate::scroll_tiler::strip::items_ok(final(windows)@),
{
    let ghost before = windows@;
    let mut i: usize = 0;
    while i < windows.len()
        invariant
            i <= windows.len(),
            windows@.len() == before.len(),
            crate::scroll_tiler::strip::items_ok(before),
            forall|j: int|
                0 <= j < i ==> #[trigger] windows@[j] == reclassified_item(before[j], *desk),
            forall|j: int| i <= j < before.len() ==> #[trigger] windows@[j] == before[j],
            crate::scroll_tiler::strip::items_ok(windows@),
        decreases windows.len() - i,
    {
        let mut item: WindowItem = windows[i];
        assert(before[i as int].ok());
        if item.scroll_frame_throttle == 1 {
            item.scroll_frame_throttle = look_up_throttle(desk, item.inner);
        }
        windows[i] = item;
        i = i + 1;
    }
    proof {
        assert(windows@ =~= reclassified(before, *desk));
    }
}

impl ScrollTiler {
    /// Puts every tile where `pos` says.
    pub fn layout_windows(&mut self, pos: &Vec<i64>, desk: &Desktop) -> (r: LayoutPlan)
        requires
            old(self).wf(),
            pos@.len() == old(self)@.windows.len(),
            positions_ok(pos@),
        ensures
            final(self)@ == old(self)@.laid(pos@, *desk),
            old(self)@.layout_plan(pos@, *desk, r),
            final(self).wf(),
    {
        if desk.mouse_held {
            let plan: LayoutPlan = LayoutPlan::empty();
            proof {
                assert(plan.moves@ =~= seq![]);
                assert(plan.clips@ =~= seq![]);
            }
            return plan;
        }
        let ghost start = self@;
        let animating_now: bool = self.is_animating();
        let just_started: bool = !self.was_animating_last_layout && animating_now;
        let just_ended: bool = self.was_animating_last_layout && !animating_now;
        if just_started {
            self.scroll_frame_index = 0;
            self.scroll_profile.start(desk.now);
            reclassify(&mut self.windows, desk);
        }
        if animating_now {
            if self.scroll_frame_index < u32::MAX {
                self.scroll_frame_index = self.scroll_frame_index + 1;
            }
            self.scroll_profile.tick_frame();
        }
        let ghost b = self@;
        proof {
            assert(b =~= start.begun(*desk));
            lemma_begun(start, *desk);
        }
        let scrolling: bool = self.scroll_target.is_some();
        let mut moves: Vec<BatchMove> = Vec::new();
        let mut clips: Vec<ClipCommand> = Vec::new();
        let mut i: usize = 0;
        while i < self.windows.len()
            invariant
                i <= self.windows.len(),
                b == start.begun(*desk),
                b.wf(),
                b.animating() == animating_now,
                scrolling == b.scroll_target is Some,
                pos@.len() == b.windows.len(),
                positions_ok(pos@),
                self.windows@.len() == b.windows.len(),
                self@ == (Strip { windows: self.windows@, profile: self.scroll_profile@, ..b }),
                forall|j: int|
                    0 <= j < i ==> #[trigger] self.windows@[j] == b.laid_item(pos@, *desk, j),
                forall|j: int|
                    i <= j < b.windows.len() ==> #[trigger] self.windows@[j] == b.windows[j],
                moves@ == b.moves(pos@, *desk, i as int),
                clips@ == b.clips(pos@, *desk, i as int),
                self.scroll_profile@ == recorded(b.profile, moves@),
            decreases self.windows.len() - i,
        {
            let mut item: WindowItem = self.windows[i];
            proof {
                assert(b.windows[i as int].ok());
                assert(position_ok(pos@[i as int]));
            }
            if !item.inner.is_hidden(desk) {
                let d: Decision = decide(
                    self.screen_size,
                    self.padding,
                    self.scroll_offset,
                    item.width,
                    pos[i],
                );
                let p: Placement = d.placement;
                let sits: bool = animating_now && self.throttle_slow_apps && item.scroll_frame_throttle > 1
                    && self.scroll_frame_index % item.scroll_frame_throttle != 0;
                let due: bool = item.move_owed || is_displaced(&item, p);
                if due && !sits {
                    let rect: Option<PixelRect> = item.inner.padded_rect(
                        Position { x: p.x, y: p.y },
                        Size { width: p.width, height: p.height },
                        desk,
                    );
                    match rect {
                        Some(rect) => {
                            let ghost before = moves@;
                            moves.push(BatchMove { window: item.inner, rect });
                            proof {
                                assert(moves@.drop_last() =~= before);
                            }
                            self.scroll_profile.record(item.inner.hwnd);
                        },
                        None => {},
                    }
                }
                let change: Option<ClipCommand> = change_clip(&item, &d, scrolling);
                match change {
                    Some(c) => {
                        clips.push(c);
                    },
                    None => {},
                }
                item.move_owed = due && sits;
                if !item.move_owed {
                    item.last_layout = Some(p);
                }
                item.last_clip = if scrolling || item.skip_clipping {
                    None
                } else {
                    d.clip
                };
                self.windows[i] = item;
            }
            i = i + 1;
        }
        proof {
            assert(self.windows@ =~= b.laid_items(pos@, *desk));
        }
        if moves.len() > 0 {
            self.last_motion = Some(desk.now);
        }
        self.was_animating_last_layout = animating_now;
        let mut profile: Option<ScrollProfileSnapshot> = None;
        if just_ended {
            profile = self.scroll_profile.finish(desk.now);
        }
        proof {
            assert(self@ =~= start.laid(pos@, *desk));
            lemma_laid_wf(start, pos@, *desk);
        }
        LayoutPlan { moves, clips, profile }
    }

    /// Puts every tile in its place.
    pub fn relayout(&mut self, desk: &Desktop) -> (r: LayoutPlan)
        requires
            old(self).wf(),
        ensures
            final(self)@ == old(self)@.relaid(*desk),
            old(self)@.relayout_plan(*desk, r),
            final(self).wf(),
    {
        let pos: Vec<i64> = self.windows_positions(desk);
        self.layout_windows(&pos, desk)
    }

    /// Takes note that a visible region could not be set.
    pub fn clip_rejected(&mut self, window: Window, clip: Clip, previous: Option<Clip>)
        requires
            old(self).wf(),
        ensures
            final(self)@ == old(self)@.with_windows(
                clip_reverted(old(self)@.windows, window, clip, previous),
            ),
            final(self).wf(),
    {
        let ghost before = self.windows@;
        let ghost goal = clip_reverted(before, window, clip, previous);
        let mut i: usize = 0;
        while i < self.windows.len()
            invariant
                i <= self.windows.len(),
                old(self).wf(),
                goal == clip_reverted(before, window, clip, previous),
                before == old(self)@.windows,
                self.windows@.len() == before.len(),
                self@ == old(self)@.with_windows(self.windows@),
                forall|j: int| 0 <= j < i ==> #[trigger] self.windows@[j] == goal[j],
                forall|j: int| i <= j < before.len() ==> #[trigger] self.windows@[j] == before[j],
            decreases self.windows.len() - i,
        {
            let mut item: WindowItem = self.windows[i];
            let in_force: bool = match item.last_clip {
                Some(c) => c == clip,
                None => false,
            };
            if item.inner == window && in_force {
                item.last_clip = previous;
                self.windows[i] = item;
            }
            i = i + 1;
        }
        proof {
            assert(self.windows@ =~= goal);
            assert forall|j: int| 0 <= j < goal.len() implies (#[trigger] goal[j]).ok() by {
                assert(before[j].ok());
            }
        }
    }
}

/// The region of `window` falls back to `previous` where `clip` was on record.
pub open spec fn clip_reverted(
    windows: Seq<WindowItem>,
    window: Window,
    clip: Clip,
    previous: Option<Clip>,
) -> Seq<WindowItem> {
    Seq::new(
        windows.len(),
        |i: int|
            if windows[i].inner == window && windows[i].last_clip == Some(clip) {
                WindowItem { last_clip: previous, ..windows[i] }
            } else {
                windows[i]
            },
    )
}

pub proof fn lemma_begun(s: Strip, desk: Desktop)
    requires
        s.wf(),
    ensures
        s.begun(desk).wf(),
        s.begun(desk).animating() == s.animating(),
        s.begun(desk).windows.len() == s.windows.len(),
        forall|i: int|
            0 <= i < s.windows.len() ==> {
                let a = #[trigger] s.begun(desk).windows[i];
                let o = s.windows[i];
                a == (WindowItem { scroll_frame_throttle: a.scroll_frame_throttle, ..o })
            },
{
    let b = s.begun(desk);
    assert forall|i: int| 0 <= i < b.windows.len() implies (#[trigger] b.windows[i]).ok() && (
    b.windows[i].inner == s.windows[i].inner) && (b.windows[i].width_animation
        == s.windows[i].width_animation) by {
        assert(s.windows[i].ok());
    }
    if s.some_width_moves() {
        let i = choose|i: int|
            0 <= i < s.windows.len() && (#[trigger] s.windows[i]).width_animation is Some;
        assert(b.windows[i].width_animation is Some);
    }
    if b.some_width_moves() {
        let i = choose|i: int|
            0 <= i < b.windows.len() && (#[trigger] b.windows[i]).width_animation is Some;
        assert(s.windows[i].width_animation is Some);
    }
}

pub proof fn lemma_laid_wf(s: Strip, pos: Seq<i64>, desk: Desktop)
    requires
        s.wf(),
    ensures
        s.laid(pos, desk).wf(),
        s.laid(pos, desk).windows.len() == s.windows.len(),
        forall|i: int|
            0 <= i < s.windows.len() ==> (#[trigger] s.laid(pos, desk).windows[i]).same_tile(
                s.windows[i],
            ),
{
    lemma_begun(s, desk);
    let b = s.begun(desk);
    let l = s.laid(pos, desk);
    assert forall|i: int| 0 <= i < l.windows.len() implies (#[trigger] l.windows[i]).ok()
        && l.windows[i].same_tile(s.windows[i]) by {
        assert(b.windows[i].ok());
    }
}

} // verus!
