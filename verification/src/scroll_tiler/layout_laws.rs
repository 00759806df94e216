//! What a layout shows and moves.
use vstd::prelude::*;

use crate::geometry::{magnitude, position_ok, Position, Rect, Size, PX};
use crate::scroll_tiler::item::{throttle_for, Clip, WindowItem};
use crate::scroll_tiler::laws::lemma_move_made;
use crate::scroll_tiler::layout::{
    clip_reverted, decided, lemma_begun, recorded, sits_out, ClipCommand, LayoutPlan,
};
use crate::scroll_tiler::profile::{Counters, ProfileStep};
use crate::scroll_tiler::strip::{lemma_position_bounds, Strip};
use crate::window::{frame_padding, padded, padded_on, BatchMove, Desktop, Window};

verus! {

/// The point is on the screen.
pub open spec fn on_screen(screen: Size, x: int, y: int) -> bool {
    0 <= x < screen.width && 0 <= y < screen.height
}

/// The point is inside tile `i` of a strip laid out at `pos`, one gap from the
/// upper and the lower edge of the screen.
pub open spec fn in_tile(s: Strip, pos: Seq<i64>, i: int, x: int, y: int) -> bool {
    let left = pos[i] - s.scroll_offset;
    &&& left <= x < left + s.windows[i].width
    &&& s.padding <= y < s.screen_size.height - s.padding
}

/// Something of tile `i` is on the screen.
pub open spec fn shows(s: Strip, pos: Seq<i64>, i: int) -> bool {
    exists|x: int, y: int| #[trigger]
        in_tile(s, pos, i, x, y) && #[trigger] on_screen(s.screen_size, x, y)
}

/// All of tile `i` is on the screen.
pub open spec fn shows_whole(s: Strip, pos: Seq<i64>, i: int) -> bool {
    forall|x: int, y: int| #[trigger]
        in_tile(s, pos, i, x, y) ==> on_screen(s.screen_size, x, y)
}

/// The layout takes place and no window sits it out.
pub open spec fn laid_out_fully(s: Strip, pos: Seq<i64>, desk: Desktop) -> bool {
    &&& s.wf()
    &&& pos.len() == s.windows.len()
    &&& forall|k: int| 0 <= k < pos.len() ==> position_ok(#[trigger] pos[k])
    &&& !desk.mouse_held
    &&& !s.animating() || !s.throttle_slow_apps
}

/// A tile shows where it overlaps the screen.
pub proof fn lemma_shows(s: Strip, pos: Seq<i64>, i: int)
    requires
        0 <= i < s.windows.len(),
    ensures
        ({
            let left = pos[i] - s.scroll_offset;
            let right = left + s.windows[i].width;
            let top = s.padding as int;
            let bottom = s.screen_size.height - s.padding;
            shows(s, pos, i) == (left < right && 0 < right && left < s.screen_size.width && 0
                < s.screen_size.width && top < bottom && 0 < bottom && top < s.screen_size.height
                && 0 < s.screen_size.height)
        }),
{
    let left = pos[i] - s.scroll_offset;
    let x = if left >= 0 {
        left
    } else {
        0
    };
    let y = if s.padding >= 0 {
        s.padding as int
    } else {
        0
    };
    if left < left + s.windows[i].width && 0 < left + s.windows[i].width && left
        < s.screen_size.width && 0 < s.screen_size.width && s.padding < s.screen_size.height
        - s.padding && 0 < s.screen_size.height - s.padding && s.padding < s.screen_size.height
        && 0 < s.screen_size.height {
        assert(in_tile(s, pos, i, x, y) && on_screen(s.screen_size, x, y));
    }
    if shows(s, pos, i) {
        let (a, b) = choose|a: int, b: int| #[trigger]
            in_tile(s, pos, i, a, b) && #[trigger] on_screen(s.screen_size, a, b);
        assert(in_tile(s, pos, i, a, b) && on_screen(s.screen_size, a, b));
    }
}

/// A tile of which something is on the screen is put at its place in the strip,
/// seen from the scroll offset, one gap below the upper edge and as high as the
/// screen without the two gaps. One of which nothing is on the screen is parked.
pub proof fn law_tiles_are_put_in_their_places(s: Strip, pos: Seq<i64>, desk: Desktop, i: int)
    requires
        laid_out_fully(s, pos, desk),
        0 <= i < s.windows.len(),
        !desk.hidden(s.windows[i].inner),
    ensures
        s.laid(pos, desk).windows[i].last_layout matches Some(p) && p.width == s.windows[i].width
            && p.height == s.screen_size.height - 2 * s.padding && if shows(s, pos, i) {
            p.x == pos[i] - s.scroll_offset && p.y == s.padding
        } else {
            p.x == 25_000_000 && p.y == 25_000_000
        },
{
    lemma_begun(s, desk);
    lemma_shows(s, pos, i);
    assert(s.windows[i].ok());
    assert(position_ok(pos[i]));
    let b = s.begun(desk);
    assert(b.windows[i].inner == s.windows[i].inner && b.windows[i].width == s.windows[i].width);
    assert(s.laid(pos, desk).windows[i] == b.laid_item(pos, desk, i));
}

/// What a tile may show is what is on the screen of it. One that is wholly on
/// the screen, or not at all, is not clipped. Of any other, the visible region
/// takes in every point on the screen and none that is off it, but for less than
/// a pixel at an edge.
pub proof fn law_tiles_show_what_is_on_the_screen(
    s: Strip,
    pos: Seq<i64>,
    desk: Desktop,
    i: int,
    x: int,
    y: int,
)
    requires
        laid_out_fully(s, pos, desk),
        0 <= i < s.windows.len(),
        !desk.hidden(s.windows[i].inner),
        !s.windows[i].skip_clipping,
        s.scroll_target is None,
        s.windows[i].width < 2_147_483_647_000,
        s.screen_size.height - 2 * s.padding < 2_147_483_647_000,
    ensures
        ({
            let left = pos[i] - s.scroll_offset;
            let top = s.padding as int;
            match s.laid(pos, desk).windows[i].last_clip {
                None => !shows(s, pos, i) || shows_whole(s, pos, i),
                Some(c) => {
                    &&& shows(s, pos, i) && !shows_whole(s, pos, i)
                    &&& in_tile(s, pos, i, x, y) && on_screen(s.screen_size, x, y) ==> c.left * PX
                        <= x - left < (c.right + 1) * PX && c.top * PX <= y - top < (c.bottom + 1)
                        * PX
                    &&& c.left * PX <= x - left < c.right * PX && c.top * PX <= y - top < c.bottom
                        * PX ==> -PX < x < s.screen_size.width && -PX < y < s.screen_size.height
                        && in_tile(s, pos, i, x, y)
                },
            }
        }),
{
    lemma_begun(s, desk);
    lemma_shows(s, pos, i);
    assert(s.windows[i].ok());
    assert(position_ok(pos[i]));
    let b = s.begun(desk);
    assert(b.windows[i].inner == s.windows[i].inner && b.windows[i].width == s.windows[i].width);
    assert(!b.windows[i].skip_clipping);
    assert(s.laid(pos, desk).windows[i] == b.laid_item(pos, desk, i));
    let left = pos[i] - s.scroll_offset;
    let right = left + s.windows[i].width;
    let top = s.padding as int;
    let bottom = s.screen_size.height - s.padding;
    let d = decided(
        s.screen_size,
        s.padding as int,
        s.scroll_offset as int,
        s.windows[i].width as int,
        pos[i] as int,
    );
    assert(s.laid(pos, desk).windows[i].last_clip == d.clip);
    if shows(s, pos, i) {
        // The four corners decide.
        let whole = left >= 0 && top >= 0 && right <= s.screen_size.width && bottom
            <= s.screen_size.height;
        if !whole {
            let cx = if left < 0 || right <= s.screen_size.width {
                left
            } else {
                right - 1
            };
            let cy = if top < 0 || bottom <= s.screen_size.height {
                top
            } else {
                bottom - 1
            };
            assert(in_tile(s, pos, i, cx, cy));
            assert(!on_screen(s.screen_size, cx, cy));
        }
    }
}

/// No visible region is on record after a layout for a window that cannot bear
/// one, nor for any while the strip is being smoothed to a target.
pub proof fn law_no_region_where_none_may_be(s: Strip, pos: Seq<i64>, desk: Desktop, i: int)
    requires
        s.wf(),
        !desk.mouse_held,
        0 <= i < s.windows.len(),
        !desk.hidden(s.windows[i].inner),
        s.windows[i].skip_clipping || s.scroll_target is Some,
    ensures
        s.laid(pos, desk).windows[i].last_clip is None,
{
    lemma_begun(s, desk);
    let b = s.begun(desk);
    assert(b.windows[i].inner == s.windows[i].inner);
    assert(b.windows[i].skip_clipping == s.windows[i].skip_clipping);
    assert(s.laid(pos, desk).windows[i] == b.laid_item(pos, desk, i));
}

/// Every move is that of a tile.
pub proof fn lemma_moves_from(s: Strip, pos: Seq<i64>, desk: Desktop, upto: int, k: int) -> (i: int)
    requires
        0 <= upto <= s.windows.len(),
        0 <= k < s.moves(pos, desk, upto).len(),
    ensures
        0 <= i < upto,
        s.move_of(pos, desk, i) == Some(s.moves(pos, desk, upto)[k]),
    decreases upto,
{
    let before = s.moves(pos, desk, upto - 1);
    if k < before.len() {
        lemma_moves_from(s, pos, desk, upto - 1, k)
    } else {
        upto - 1
    }
}

/// A window is asked to move exactly where the layout puts it somewhere else
/// than it was put last, by more than half a pixel on some side, or where a move
/// of it is owed. The move puts its visible frame there.
pub proof fn law_windows_out_of_place_are_moved(s: Strip, pos: Seq<i64>, desk: Desktop, i: int)
    requires
        laid_out_fully(s, pos, desk),
        0 <= i < s.windows.len(),
        !desk.hidden(s.windows[i].inner),
        desk.frame_of(s.windows[i].inner) is Some,
        desk.outer_of(s.windows[i].inner) is Some,
    ensures
        ({
            let w = s.windows[i].inner;
            let now = s.laid(pos, desk).windows[i].last_layout->0;
            let moves = s.layout_moves(pos, desk);
            let elsewhere = match s.windows[i].last_layout {
                None => true,
                Some(l) => magnitude(l.x - now.x) > PX / 2 || magnitude(l.y - now.y) > PX / 2
                    || magnitude(l.width - now.width) > PX / 2 || magnitude(l.height - now.height)
                    > PX / 2,
            };
            if elsewhere || s.windows[i].move_owed {
                exists|k: int|
                    0 <= k < moves.len() && (#[trigger] moves[k]).window == w && moves[k].rect
                        == padded(
                        Position { x: now.x, y: now.y },
                        Size { width: now.width, height: now.height },
                        frame_padding(desk.outer_of(w)->0, desk.frame_of(w)->0),
                    )
            } else {
                forall|k: int| 0 <= k < moves.len() ==> (#[trigger] moves[k]).window != w
            }
        }),
{
    lemma_begun(s, desk);
    let b = s.begun(desk);
    let w = s.windows[i].inner;
    let n = s.windows.len() as int;
    assert(b.windows[i] == (WindowItem {
        scroll_frame_throttle: b.windows[i].scroll_frame_throttle,
        ..s.windows[i]
    }));
    assert(s.laid(pos, desk).windows[i] == b.laid_item(pos, desk, i));
    let moves = s.layout_moves(pos, desk);
    if b.move_of(pos, desk, i) is Some {
        lemma_move_made(b, pos, desk, i, n);
        let k = choose|k: int|
            0 <= k < moves.len() && #[trigger] moves[k] == b.move_of(pos, desk, i)->0;
        assert(moves[k].window == w);
    } else {
        assert forall|k: int| 0 <= k < moves.len() implies (#[trigger] moves[k]).window != w by {
            let j = lemma_moves_from(b, pos, desk, n, k);
            assert(b.windows[j].inner == moves[k].window);
            if moves[k].window == w {
                assert(s.windows[j].inner == s.windows[i].inner);
                assert(j == i);
            }
        }
    }
}

/// Windows that nobody can see, and windows without a tile, are left alone.
pub proof fn law_only_visible_tiles_are_moved(s: Strip, pos: Seq<i64>, desk: Desktop, k: int)
    requires
        s.wf(),
        0 <= k < s.layout_moves(pos, desk).len(),
    ensures
        !desk.hidden(s.layout_moves(pos, desk)[k].window),
        exists|i: int|
            0 <= i < s.windows.len() && (#[trigger] s.windows[i]).inner == s.layout_moves(
                pos,
                desk,
            )[k].window,
{
    lemma_begun(s, desk);
    let b = s.begun(desk);
    let i = lemma_moves_from(b, pos, desk, s.windows.len() as int, k);
    assert(b.windows[i].inner == s.windows[i].inner);
}

/// A window that is moved ends up with its visible frame where it is wanted:
/// what the outer rectangle has around the frame now, it has around it then.
pub proof fn law_moved_frame_lands_where_it_is_wanted(
    desk: Desktop,
    w: Window,
    frame: Rect,
    outer: Rect,
    x: int,
    y: int,
    width: int,
    height: int,
)
    requires
        desk.frame_of(w) == Some(frame),
        desk.outer_of(w) == Some(outer),
        outer.left <= frame.left,
        outer.top <= frame.top,
        frame.right <= outer.right,
        frame.bottom <= outer.bottom,
        -1_000_000 <= x <= 1_000_000,
        -1_000_000 <= y <= 1_000_000,
        0 <= width <= 1_000_000,
        0 <= height <= 1_000_000,
        frame.left - outer.left <= 1_000_000,
        frame.top - outer.top <= 1_000_000,
        outer.right - frame.right <= 1_000_000,
        outer.bottom - frame.bottom <= 1_000_000,
    ensures
        padded_on(
            desk,
            w,
            Position { x: (x * PX) as i64, y: (y * PX) as i64 },
            Size { width: (width * PX) as i64, height: (height * PX) as i64 },
        ) matches Some(r) && r.x + (frame.left - outer.left) == x && r.y + (frame.top - outer.top)
            == y && r.x + r.width - (outer.right - frame.right) == x + width && r.y + r.height - (
        outer.bottom - frame.bottom) == y + height,
{
}

/// Fast windows never sit a frame out. A slow one sits out all frames of an
/// animation but one in as many as its throttle says.
pub proof fn law_slow_windows_move_once_in_so_many_frames(item: WindowItem, frame: u32)
    requires
        item.ok(),
        frame <= u32::MAX - item.scroll_frame_throttle,
    ensures
        item.scroll_frame_throttle == 1 ==> !sits_out(item, true, frame),
        !sits_out(item, false, frame),
        exists|k: u32|
            0 <= k < item.scroll_frame_throttle && !#[trigger] sits_out(
                item,
                true,
                (frame + k) as u32,
            ) && forall|m: u32|
                m < item.scroll_frame_throttle && m != k ==> #[trigger] sits_out(
                    item,
                    true,
                    (frame + m) as u32,
                ),
{
    let t = item.scroll_frame_throttle as int;
    let r = frame as int % t;
    let k: u32 = (if r == 0 {
        0
    } else {
        t - r
    }) as u32;
    vstd::arithmetic::div_mod::lemma_fundamental_div_mod(frame as int, t);
    let q = frame as int / t;
    assert forall|m: u32| m < t implies (#[trigger] sits_out(item, true, (frame + m) as u32)) == (m
        != k) by {
        let v = frame + m;
        assert(v == q * t + (r + m) && v == (q + 1) * t + (r + m - t)) by (nonlinear_arith)
            requires
                v == t * q + r + m,
        ;
        if r + m < t {
            vstd::arithmetic::div_mod::lemma_fundamental_div_mod_converse(v, t, q, r + m);
        } else {
            vstd::arithmetic::div_mod::lemma_fundamental_div_mod_converse(v, t, q + 1, r + m - t);
        }
    }
    assert(!sits_out(item, true, (frame + k) as u32));
}

/// The first visible tile stands one gap from the beginning of the strip.
pub proof fn law_first_visible_tile_stands_one_gap_in(s: Strip, desk: Desktop, i: int)
    requires
        s.wf(),
        0 <= i < s.windows.len(),
        !desk.hidden(s.windows[i].inner),
        forall|k: int| 0 <= k < i ==> desk.hidden((#[trigger] s.windows[k]).inner),
    ensures
        s.positions(desk)[i] == s.padding,
{
    crate::scroll_tiler::laws::lemma_cursor_over_hidden(
        s.windows,
        desk,
        s.padding as int,
        0,
        i,
    );
    lemma_position_bounds(s.windows, desk, s.padding as int, i);
}

/// The last change of a region that a layout asks for leaves the window with the
/// region that is on record after it, and without a change the region stays.
pub proof fn law_region_commands_lead_to_the_region_on_record(
    s: Strip,
    pos: Seq<i64>,
    desk: Desktop,
    i: int,
)
    requires
        s.wf(),
        !desk.mouse_held,
        0 <= i < s.windows.len(),
    ensures
        ({
            let was = s.windows[i].last_clip;
            let is = s.laid(pos, desk).windows[i].last_clip;
            let clips = s.layout_clips(pos, desk);
            let w = s.windows[i].inner;
            if was == is {
                forall|k: int|
                    0 <= k < clips.len() ==> match #[trigger] clips[k] {
                        ClipCommand::Clear { window } => window != w,
                        ClipCommand::Apply { window, .. } => window != w,
                    }
            } else {
                exists|k: int|
                    0 <= k < clips.len() && match #[trigger] clips[k] {
                        ClipCommand::Clear { window } => window == w && is is None,
                        ClipCommand::Apply { window, clip, previous } => window == w && is == Some(
                            clip,
                        ) && previous == was,
                    }
            }
        }),
{
    lemma_begun(s, desk);
    let b = s.begun(desk);
    let n = s.windows.len() as int;
    assert(b.windows[i] == (WindowItem {
        scroll_frame_throttle: b.windows[i].scroll_frame_throttle,
        ..s.windows[i]
    }));
    assert(s.laid(pos, desk).windows[i] == b.laid_item(pos, desk, i));
    let clips = s.layout_clips(pos, desk);
    if b.clip_of(pos, desk, i) is Some {
        lemma_clip_made(b, pos, desk, i, n);
        let k = choose|k: int|
            0 <= k < clips.len() && #[trigger] clips[k] == b.clip_of(pos, desk, i)->0;
        assert(clips[k] == b.clip_of(pos, desk, i)->0);
    } else {
        assert forall|k: int| 0 <= k < clips.len() implies match #[trigger] clips[k] {
            ClipCommand::Clear { window } => window != s.windows[i].inner,
            ClipCommand::Apply { window, .. } => window != s.windows[i].inner,
        } by {
            let j = lemma_clips_from(b, pos, desk, n, k);
            assert(b.windows[j].inner == s.windows[j].inner);
            if j != i {
                assert(s.windows[j].inner != s.windows[i].inner);
            }
        }
    }
}

proof fn lemma_clip_made(s: Strip, pos: Seq<i64>, desk: Desktop, i: int, upto: int)
    requires
        0 <= i < upto <= s.windows.len(),
        s.clip_of(pos, desk, i) is Some,
    ensures
        exists|k: int|
            0 <= k < s.clips(pos, desk, upto).len() && #[trigger] s.clips(pos, desk, upto)[k]
                == s.clip_of(pos, desk, i)->0,
    decreases upto,
{
    let before = s.clips(pos, desk, upto - 1);
    let all = s.clips(pos, desk, upto);
    if i == upto - 1 {
        assert(all[before.len() as int] == s.clip_of(pos, desk, i)->0);
    } else {
        lemma_clip_made(s, pos, desk, i, upto - 1);
        let k = choose|k: int|
            0 <= k < before.len() && #[trigger] before[k] == s.clip_of(pos, desk, i)->0;
        assert(all[k] == before[k]);
    }
}

proof fn lemma_clips_from(s: Strip, pos: Seq<i64>, desk: Desktop, upto: int, k: int) -> (i: int)
    requires
        0 <= upto <= s.windows.len(),
        0 <= k < s.clips(pos, desk, upto).len(),
    ensures
        0 <= i < upto,
        s.clip_of(pos, desk, i) == Some(s.clips(pos, desk, upto)[k]),
    decreases upto,
{
    let before = s.clips(pos, desk, upto - 1);
    if k < before.len() {
        lemma_clips_from(s, pos, desk, upto - 1, k)
    } else {
        upto - 1
    }
}

/// The frames of an animation are counted from one. The counters start anew with
/// its first frame, and whether anything is on its way is remembered. At rest no
/// frame is counted.
pub proof fn law_layout_counts_the_frames_of_an_animation(s: Strip, pos: Seq<i64>, desk: Desktop)
    requires
        s.wf(),
        !desk.mouse_held,
        s.scroll_frame_index < u32::MAX,
    ensures
        ({
            let r = s.laid(pos, desk);
            &&& r.was_animating_last_layout == s.animating()
            &&& !s.animating() ==> r.scroll_frame_index == s.scroll_frame_index
            &&& s.animating() && s.was_animating_last_layout ==> r.scroll_frame_index
                == s.scroll_frame_index + 1
            &&& s.animating() && !s.was_animating_last_layout ==> r.scroll_frame_index == 1
            &&& s.layout_moves(pos, desk).len() > 0 ==> r.last_motion == Some(desk.now)
            &&& s.layout_moves(pos, desk).len() == 0 ==> r.last_motion == s.last_motion
        }),
{
}

/// The steps that recording the moves of a layout comes to.
pub open spec fn move_steps(moves: Seq<BatchMove>) -> Seq<ProfileStep> {
    Seq::new(moves.len(), |k: int| ProfileStep::Moved { hwnd: moves[k].window.hwnd })
}

proof fn lemma_recorded(profile: Counters, moves: Seq<BatchMove>)
    ensures
        recorded(profile, moves) == profile.after(move_steps(moves)),
    decreases moves.len(),
{
    if moves.len() > 0 {
        lemma_recorded(profile, moves.drop_last());
        assert(move_steps(moves).drop_last() =~= move_steps(moves.drop_last()));
    }
}

/// What a layout counts while an animation is counted is one frame and each of
/// its moves once, and at the first frame nothing of what was counted before.
pub proof fn law_layout_counts_its_moves(s: Strip, pos: Seq<i64>, desk: Desktop)
    requires
        s.wf(),
        s.animating(),
    ensures
        ({
            let steps = seq![ProfileStep::Frame] + move_steps(s.layout_moves(pos, desk));
            let from = if s.was_animating_last_layout {
                s.profile
            } else {
                s.profile.spec_start(desk.now)
            };
            s.layout_counters(pos, desk) == from.after(steps)
        }),
{
    let from = if s.was_animating_last_layout {
        s.profile
    } else {
        s.profile.spec_start(desk.now)
    };
    let moves = s.layout_moves(pos, desk);
    lemma_recorded(from.spec_tick_frame(), moves);
    lemma_frame_first(from, move_steps(moves));
}

proof fn lemma_frame_first(c: Counters, steps: Seq<ProfileStep>)
    ensures
        c.after(seq![ProfileStep::Frame] + steps) == c.spec_tick_frame().after(steps),
    decreases steps.len(),
{
    let all = seq![ProfileStep::Frame] + steps;
    if steps.len() > 0 {
        lemma_frame_first(c, steps.drop_last());
        assert(all.drop_last() =~= seq![ProfileStep::Frame] + steps.drop_last());
    } else {
        assert(all.drop_last() =~= seq![]);
        assert(c.after(all.drop_last()) == c);
    }
}

/// An animation is reported on by the first layout that finds it over, if it was
/// counted, and by no other. After that nothing is counted.
pub proof fn law_finished_animations_are_reported_once(
    s: Strip,
    pos: Seq<i64>,
    desk: Desktop,
    plan: LayoutPlan,
)
    requires
        s.wf(),
        s.layout_plan(pos, desk, plan),
        s.animating() || s.profile.start is Some,
    ensures
        plan.profile is Some <==> !desk.mouse_held && s.was_animating_last_layout && !s.animating(),
        plan.profile is Some ==> s.laid(pos, desk).profile.start is None,
{
    if !s.animating() {
        lemma_recorded(s.profile, s.layout_moves(pos, desk));
        lemma_start_kept(s.profile, move_steps(s.layout_moves(pos, desk)));
    }
}

proof fn lemma_start_kept(c: Counters, steps: Seq<ProfileStep>)
    ensures
        c.after(steps).start == c.start,
    decreases steps.len(),
{
    if steps.len() > 0 {
        lemma_start_kept(c, steps.drop_last());
    }
}

/// When an animation starts, every window that was taken for a fast one is looked
/// at again; at other times nothing about that changes.
pub proof fn law_fast_windows_are_looked_at_again(
    s: Strip,
    pos: Seq<i64>,
    desk: Desktop,
    i: int,
)
    requires
        s.wf(),
        !desk.mouse_held,
        0 <= i < s.windows.len(),
    ensures
        ({
            let was = s.windows[i].scroll_frame_throttle;
            let is = s.laid(pos, desk).windows[i].scroll_frame_throttle;
            if s.animating() && !s.was_animating_last_layout && was == 1 {
                is == (match desk.process_of(s.windows[i].inner) {
                    Some(p) => throttle_for(p),
                    None => 1,
                })
            } else {
                is == was
            }
        }),
{
}

/// A region that could not be set falls back to the one before it, for its window
/// alone, and only while it is still the one on record.
pub proof fn law_failed_region_falls_back(
    windows: Seq<WindowItem>,
    window: Window,
    clip: Clip,
    previous: Option<Clip>,
    i: int,
)
    requires
        0 <= i < windows.len(),
    ensures
        ({
            let r = clip_reverted(windows, window, clip, previous);
            &&& r.len() == windows.len()
            &&& r[i].same_tile(windows[i]) && r[i].last_layout == windows[i].last_layout
            &&& windows[i].inner == window && windows[i].last_clip == Some(clip) ==> r[i].last_clip
                == previous
            &&& windows[i].inner != window || windows[i].last_clip != Some(clip) ==> r[i]
                == windows[i]
        }),
{
}

} // verus!
