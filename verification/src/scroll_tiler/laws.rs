//! What holds of the strip as a whole.
use vstd::prelude::*;

use crate::geometry::{magnitude, Position, Size, PX};
use crate::scroll_tiler::commands::{
    reordered, visible_from, visible_until, without_layouts, Direction,
};
use crate::scroll_tiler::item::{new_item, WindowItem};
use crate::scroll_tiler::layout::{
    clip_after, clip_change, decided, due, lemma_begun, lemma_laid_wf, Decision,
};
use crate::scroll_tiler::motion::{lemma_smoothed, since, smoothed};
use crate::scroll_tiler::snapshot::{lemma_appended, lemma_same_windows, lemma_selected_ok};
use crate::scroll_tiler::strip::{
    after_drag, after_iconic, after_widths, appended, count_true, cursor, distinct, drag_mask,
    focus_mask, hwnd_mask, is_tiled, items_ok, keep_mask, lemma_position_bounds, lemma_selected,
    negated, seeded, selected, tile_mask, Strip, DRAG_PRUNE_CAP, MAX_WINDOWS,
};
use crate::search::{first_true, lemma_first_hit, lemma_first_true};
use crate::window::{padded_on, Desktop, Window};

verus! {

/// Hidden windows take up no room.
pub proof fn lemma_cursor_over_hidden(
    windows: Seq<WindowItem>,
    desk: Desktop,
    padding: int,
    from: int,
    to: int,
)
    requires
        0 <= from <= to <= windows.len(),
        forall|k: int| from <= k < to ==> desk.hidden((#[trigger] windows[k]).inner),
    ensures
        cursor(windows, desk, padding, to) == cursor(windows, desk, padding, from),
    decreases to - from,
{
    if from < to {
        lemma_cursor_over_hidden(windows, desk, padding, from, to - 1);
        assert(desk.hidden(windows[to - 1].inner));
    }
}

/// Visible tiles are packed: between one and the next there are exactly two
/// gaps, however many hidden windows lie between them in the order.
pub proof fn law_visible_tiles_are_packed(s: Strip, desk: Desktop, i: int, j: int)
    requires
        s.wf(),
        0 <= i < j < s.windows.len(),
        !desk.hidden(s.windows[i].inner),
        !desk.hidden(s.windows[j].inner),
        forall|k: int| i < k < j ==> desk.hidden((#[trigger] s.windows[k]).inner),
    ensures
        s.positions(desk)[j] == s.positions(desk)[i] + s.windows[i].width + 2 * s.padding,
{
    lemma_position_bounds(s.windows, desk, s.padding as int, i);
    lemma_position_bounds(s.windows, desk, s.padding as int, j);
    lemma_cursor_over_hidden(s.windows, desk, s.padding as int, i + 1, j);
    assert(cursor(s.windows, desk, s.padding as int, i + 1) == cursor(
        s.windows,
        desk,
        s.padding as int,
        i,
    ) + 2 * s.padding + s.windows[i].width);
}

/// The extent of the strip reaches one gap beyond the last visible tile.
pub proof fn law_strip_ends_one_gap_behind_the_last_tile(s: Strip, desk: Desktop, i: int)
    requires
        s.wf(),
        0 <= i < s.windows.len(),
        !desk.hidden(s.windows[i].inner),
        forall|k: int| i < k < s.windows.len() ==> desk.hidden((#[trigger] s.windows[k]).inner),
    ensures
        s.total_strip_width(desk) == s.positions(desk)[i] + s.windows[i].width + s.padding,
{
    let n = s.windows.len() as int;
    lemma_position_bounds(s.windows, desk, s.padding as int, i);
    lemma_cursor_over_hidden(s.windows, desk, s.padding as int, i + 1, n);
    assert(cursor(s.windows, desk, s.padding as int, i + 1) == cursor(
        s.windows,
        desk,
        s.padding as int,
        i,
    ) + 2 * s.padding + s.windows[i].width);
}

/// Each frame of smoothing gets strictly closer to the target, without
/// overshooting it.
pub proof fn law_smoothing_gets_closer(offset: int, target: int, factor: int)
    requires
        50 <= factor <= 1000,
        offset != target,
    ensures
        magnitude(target - smoothed(offset, target, factor)) < magnitude(target - offset),
        offset <= target ==> smoothed(offset, target, factor) <= target,
        target <= offset ==> target <= smoothed(offset, target, factor),
{
    lemma_smoothed(offset, target, factor);
}

/// Frames leave a valid strip.
pub proof fn lemma_advanced_wf(s: Strip, now: u64)
    requires
        s.wf(),
    ensures
        s.advanced(now).wf(),
        s.advanced(now).windows.len() == s.windows.len(),
        forall|k: int|
            0 <= k < s.windows.len() && (#[trigger] s.windows[k]).width_animation is None
                ==> s.advanced(now).windows[k] == s.windows[k],
{
    let a = s.advanced(now).windows;
    assert forall|k: int| 0 <= k < a.len() implies (#[trigger] a[k]).ok() && a[k].inner
        == s.windows[k].inner by {
        assert(s.windows[k].ok());
        match s.windows[k].width_animation {
            Some(w) => {
                crate::scroll_tiler::motion::law_eased_stays_between(
                    w.start_width as int,
                    w.target_width as int,
                    since(now, w.start_time),
                    w.duration as int,
                );
            },
            None => {},
        }
    }
    lemma_same_windows(s.windows, a);
}

/// A timed scroll is exactly at its target once its time has passed, and over.
pub proof fn law_timed_scroll_arrives(s: Strip, desk: Desktop)
    requires
        s.wf(),
        s.scroll_animation is Some,
        since(desk.now, s.scroll_animation->0.start_time) >= s.scroll_animation->0.duration,
    ensures
        s.ticked(desk).scroll_offset == s.scroll_animation->0.target_offset,
        s.ticked(desk).scroll_animation is None,
{
}

/// A width change is exactly at its target once its time has passed, and over.
pub proof fn law_width_change_arrives(s: Strip, desk: Desktop, i: int)
    requires
        s.wf(),
        0 <= i < s.windows.len(),
        s.windows[i].width_animation is Some,
        since(desk.now, s.windows[i].width_animation->0.start_time)
            >= s.windows[i].width_animation->0.duration,
    ensures
        s.ticked(desk).windows[i].width == s.windows[i].width_animation->0.target_width,
        s.ticked(desk).windows[i].width_animation is None,
{
    assert(s.animating());
    let a = s.advanced(desk.now);
    assert(a.windows[i].width_animation is None);
}

/// While the mouse button is held no window is moved.
pub proof fn law_held_button_stops_layout(s: Strip, pos: Seq<i64>, desk: Desktop)
    requires
        desk.mouse_held,
    ensures
        s.laid(pos, desk) == s,
        s.layout_moves(pos, desk).len() == 0,
        s.layout_clips(pos, desk).len() == 0,
{
}

proof fn lemma_no_moves(s: Strip, pos: Seq<i64>, desk: Desktop, upto: int)
    requires
        0 <= upto <= s.windows.len(),
        forall|i: int| 0 <= i < upto ==> s.move_of(pos, desk, i) is None,
        forall|i: int| 0 <= i < upto ==> s.clip_of(pos, desk, i) is None,
    ensures
        s.moves(pos, desk, upto).len() == 0,
        s.clips(pos, desk, upto).len() == 0,
    decreases upto,
{
    if upto > 0 {
        lemma_no_moves(s, pos, desk, upto - 1);
        assert(s.move_of(pos, desk, upto - 1) is None);
        assert(s.clip_of(pos, desk, upto - 1) is None);
    }
}

/// A layout repeated with nothing changed moves and clips nothing, unless slow
/// windows have sat out the first one.
pub proof fn law_repeated_layout_is_idle(s: Strip, pos: Seq<i64>, desk: Desktop)
    requires
        s.wf(),
        !s.animating() || !s.throttle_slow_apps,
    ensures
        !desk.mouse_held ==> s.laid(pos, desk).layout_moves(pos, desk).len() == 0,
        !desk.mouse_held ==> s.laid(pos, desk).layout_clips(pos, desk).len() == 0,
{
    if !desk.mouse_held {
        lemma_begun(s, desk);
        lemma_laid_wf(s, pos, desk);
        let b = s.begun(desk);
        let l = s.laid(pos, desk);
        lemma_begun(l, desk);
        let c = l.begun(desk);
        assert forall|i: int| 0 <= i < l.windows.len() implies c.move_of(pos, desk, i) is None
            && c.clip_of(pos, desk, i) is None by {
            assert(l.windows[i] == b.laid_item(pos, desk, i));
            let o = c.windows[i];
            assert(o == (WindowItem { scroll_frame_throttle: o.scroll_frame_throttle, ..l.windows[i]
            }));
            assert(b.windows[i].width == s.windows[i].width);
            if !desk.hidden(s.windows[i].inner) {
                let d = b.decision(pos, desk, i)->0;
                assert(c.decision(pos, desk, i) == Some(d));
                assert(o.last_layout == Some(d.placement));
                assert(!due(o, d.placement));
                assert(o.last_clip == clip_after(o, d, c.scroll_target is Some));
            }
        }
        lemma_no_moves(c, pos, desk, l.windows.len() as int);
    }
}

/// The move of a tile is among those of the layout.
pub proof fn lemma_move_made(s: Strip, pos: Seq<i64>, desk: Desktop, i: int, upto: int)
    requires
        0 <= i < upto <= s.windows.len(),
        s.move_of(pos, desk, i) is Some,
    ensures
        exists|k: int|
            0 <= k < s.moves(pos, desk, upto).len() && #[trigger] s.moves(pos, desk, upto)[k]
                == s.move_of(pos, desk, i)->0,
    decreases upto,
{
    let before = s.moves(pos, desk, upto - 1);
    let all = s.moves(pos, desk, upto);
    if i == upto - 1 {
        assert(all[before.len() as int] == s.move_of(pos, desk, i)->0);
    } else {
        lemma_move_made(s, pos, desk, i, upto - 1);
        let k = choose|k: int|
            0 <= k < before.len() && #[trigger] before[k] == s.move_of(pos, desk, i)->0;
        assert(all[k] == before[k]);
    }
}

/// Once the placements are forgotten, a layout at rest moves every visible
/// window whose borders are known.
pub proof fn law_forgotten_placements_are_made_anew(s: Strip, desk: Desktop, i: int)
    requires
        s.wf(),
        0 <= i < s.windows.len(),
        !desk.mouse_held,
        !s.animating(),
        !desk.hidden(s.windows[i].inner),
        desk.frame_of(s.windows[i].inner) is Some,
        desk.outer_of(s.windows[i].inner) is Some,
    ensures
        ({
            let forgotten = s.with_windows(without_layouts(s.windows));
            let moves = forgotten.layout_moves(forgotten.positions(desk), desk);
            exists|k: int|
                0 <= k < moves.len() && (#[trigger] moves[k]).window == s.windows[i].inner
        }),
{
    let f = s.with_windows(without_layouts(s.windows));
    let pos = f.positions(desk);
    if f.some_width_moves() {
        let k = choose|k: int|
            0 <= k < f.windows.len() && (#[trigger] f.windows[k]).width_animation is Some;
        assert(s.windows[k].width_animation is Some);
    }
    assert(!f.animating());
    assert(f.begun(desk) == f);
    assert(f.windows[i].inner == s.windows[i].inner);
    assert(f.windows[i].last_layout is None);
    assert(f.move_of(pos, desk, i) is Some);
    lemma_move_made(f, pos, desk, i, f.windows.len() as int);
    let moves = f.layout_moves(pos, desk);
    let k = choose|k: int|
        0 <= k < moves.len() && #[trigger] moves[k] == f.move_of(pos, desk, i)->0;
    assert(moves[k].window == s.windows[i].inner);
}

/// A slow window that sat out a frame gets its move in the first layout at
/// rest, wherever it was put before: it does not stay behind.
pub proof fn law_slow_window_gets_its_final_move(
    s: Strip,
    pos: Seq<i64>,
    desk: Desktop,
    rest: Strip,
    rest_pos: Seq<i64>,
    rest_desk: Desktop,
    i: int,
)
    requires
        s.wf(),
        rest.wf(),
        0 <= i < s.windows.len(),
        // In a frame of an animation the tile is to be moved, and sits out.
        !desk.mouse_held,
        s.begun(desk).decision(pos, desk, i) matches Some(d) && due(
            s.begun(desk).windows[i],
            d.placement,
        ),
        s.begun(desk).sits_out(s.begun(desk).windows[i]),
        // Next it is laid out at rest.
        i < rest.windows.len(),
        rest.windows[i].inner == s.windows[i].inner,
        rest.windows[i].move_owed == s.laid(pos, desk).windows[i].move_owed,
        !rest.animating(),
        !rest_desk.mouse_held,
        !rest_desk.hidden(s.windows[i].inner),
        rest_desk.frame_of(s.windows[i].inner) is Some,
        rest_desk.outer_of(s.windows[i].inner) is Some,
    ensures
        ({
            let p = rest.decision(rest_pos, rest_desk, i)->0.placement;
            let moves = rest.layout_moves(rest_pos, rest_desk);
            exists|k: int|
                0 <= k < moves.len() && (#[trigger] moves[k]).window == s.windows[i].inner && Some(
                    moves[k].rect,
                ) == padded_on(
                    rest_desk,
                    s.windows[i].inner,
                    Position { x: p.x, y: p.y },
                    Size { width: p.width, height: p.height },
                )
        }),
{
    lemma_begun(s, desk);
    assert(s.laid(pos, desk).windows[i].move_owed);
    assert(rest.begun(rest_desk) == rest);
    assert(rest.move_of(rest_pos, rest_desk, i) is Some);
    lemma_move_made(rest, rest_pos, rest_desk, i, rest.windows.len() as int);
    let moves = rest.layout_moves(rest_pos, rest_desk);
    let k = choose|k: int|
        0 <= k < moves.len() && #[trigger] moves[k] == rest.move_of(rest_pos, rest_desk, i)->0;
    assert(moves[k].window == s.windows[i].inner);
}

/// A window that stays where it was last seen keeps its recorded placement,
/// however far off that is: one that refuses to move is not moved over and
/// over.
pub proof fn law_stuck_window_is_left_alone(item: WindowItem, desk: Desktop, later: Desktop)
    requires
        !desk.hidden(item.inner),
        !later.hidden(item.inner),
        desk.frame_of(item.inner) is Some,
        later.frame_of(item.inner) == desk.frame_of(item.inner),
    ensures
        item.divergence_step(desk).divergence_step(later).last_layout == item.divergence_step(
            desk,
        ).last_layout,
{
}

/// Many windows off their places at once are no drag: all keep their tiles.
pub proof fn law_many_drifted_windows_keep_their_tiles(
    windows: Seq<WindowItem>,
    desk: Desktop,
    tiling_hmonitor: i64,
)
    requires
        count_true(drag_mask(windows, desk, tiling_hmonitor)) > DRAG_PRUNE_CAP,
    ensures
        after_drag(windows, desk, tiling_hmonitor) == windows,
{
}

/// Dragging a left edge leaves the right edge where it was: what the width
/// gains, the scroll makes up for.
pub proof fn law_left_resize_keeps_right_edge(s: Strip, desk: Desktop, x: int)
    requires
        s.wf(),
        s.left_resize(desk) is Some,
        i64::MIN + 2 * crate::geometry::WIDTH_MAX <= s.scroll_offset,
        s.scroll_offset <= i64::MAX - 2 * crate::geometry::WIDTH_MAX,
        crate::scroll_tiler::snapshot::MIN_TILE_WIDTH <= s.max_screen_width(),
    ensures
        ({
            let i = s.left_resize(desk)->0;
            let r = s.left_resized(desk);
            x - r.scroll_offset + r.windows[i].requested_width->0 == x - s.scroll_offset
                + s.windows[i].last_layout->0.width
        }),
{
    let i = s.left_resize(desk)->0;
    lemma_first_true(focus_mask(s.windows, desk));
    assert(s.windows[i].ok());
}

/// No visible region is ever set on a window that cannot bear one, nor on any
/// while the strip is being smoothed to a target.
pub proof fn law_unsafe_windows_are_never_clipped(item: WindowItem, d: Decision, scrolling: bool)
    requires
        item.skip_clipping || scrolling,
    ensures
        clip_after(item, d, scrolling) is None,
        clip_change(item, d, scrolling) matches Some(c) ==> c is Clear,
{
}

/// What shows of a clipped tile lies on the screen, but for less than a pixel
/// at the left edge.
pub proof fn law_clipped_tile_stays_on_screen(
    screen: Size,
    padding: int,
    scroll: int,
    width: int,
    x: int,
)
    requires
        screen.ok(),
        0 <= padding <= crate::geometry::STEP_MAX,
        0 <= width < 2_147_483_647_000,
        -crate::geometry::POSITION_MAX <= x <= crate::geometry::POSITION_MAX,
        decided(screen, padding, scroll, width, x).clip is Some,
    ensures
        ({
            let d = decided(screen, padding, scroll, width, x);
            let clip = d.clip->0;
            d.placement.x + clip.left * PX > -PX && d.placement.x + clip.right * PX
                <= screen.width
        }),
{
}

proof fn lemma_visible_from(windows: Seq<WindowItem>, desk: Desktop, from: int)
    ensures
        visible_from(windows, desk, from) matches Some(i) ==> from <= i < windows.len()
            && !desk.hidden(windows[i].inner),
        from >= 0 && visible_from(windows, desk, from) is None ==> forall|k: int|
            from <= k < windows.len() ==> desk.hidden((#[trigger] windows[k]).inner),
    decreases windows.len() - from,
{
    if 0 <= from < windows.len() && desk.hidden(windows[from].inner) {
        lemma_visible_from(windows, desk, from + 1);
    }
}

proof fn lemma_visible_until(windows: Seq<WindowItem>, desk: Desktop, from: int)
    ensures
        visible_until(windows, desk, from) matches Some(i) ==> 0 <= i <= from && i < windows.len()
            && !desk.hidden(windows[i].inner),
        from < windows.len() && visible_until(windows, desk, from) is None ==> forall|k: int|
            0 <= k <= from ==> desk.hidden((#[trigger] windows[k]).inner),
    decreases from + 1,
{
    if 0 <= from < windows.len() && desk.hidden(windows[from].inner) {
        lemma_visible_until(windows, desk, from - 1);
    }
}

/// Stepping the focus never lands on a window the user cannot see.
pub proof fn law_focus_steps_to_visible_windows(s: Strip, desk: Desktop, direction: Direction)
    ensures
        s.focus_target(desk, direction) matches Some(w) ==> !desk.hidden(w) && is_tiled(
            s.windows,
            w,
        ),
{
    match s.focus_base(desk) {
        Some(b) => {
            lemma_visible_from(s.windows, desk, b + 1);
            lemma_visible_until(s.windows, desk, b - 1);
            match s.next_visible(desk, b, direction) {
                Some(i) => {
                    assert(is_tiled(s.windows, s.windows[i].inner));
                },
                None => {},
            }
        },
        None => {},
    }
}

/// Reordering keeps every tile. The moved one takes the slot of the other,
/// which moves one place towards where the first came from.
pub proof fn law_reorder_takes_the_slot_of_the_destination(
    windows: Seq<WindowItem>,
    src: Window,
    dst: Window,
    s: int,
    d: int,
)
    requires
        distinct(windows),
        0 <= s < windows.len(),
        0 <= d < windows.len(),
        windows[s].inner == src,
        windows[d].inner == dst,
        s != d,
    ensures
        reordered(windows, src, dst).to_multiset() =~= windows.to_multiset(),
        reordered(windows, src, dst)[d] == windows[s],
        s < d ==> reordered(windows, src, dst)[d - 1] == windows[d],
        d < s ==> reordered(windows, src, dst)[d + 1] == windows[d],
        forall|k: int|
            0 <= k < windows.len() && (k < s && k < d || s < k && d < k) ==> #[trigger] reordered(
                windows,
                src,
                dst,
            )[k] == windows[k],
{
    lemma_first_true(tile_mask(windows, src));
    lemma_first_true(tile_mask(windows, dst));
    assert(tile_mask(windows, src)[s]);
    assert(tile_mask(windows, dst)[d]);
    assert(first_true(tile_mask(windows, src)) == Some(s));
    assert(first_true(tile_mask(windows, dst)) == Some(d));
    let rest = windows.remove(s);
    let r = reordered(windows, src, dst);
    broadcast use vstd::seq_lib::group_to_multiset_ensures;

    windows.to_multiset_ensures();
    assert(rest.to_multiset() =~= windows.to_multiset().remove(windows[s]));
    vstd::seq_lib::to_multiset_insert(rest, d, windows[s]);
    assert(windows.to_multiset().count(windows[s]) > 0) by {
        assert(windows.contains(windows[s]));
    }
    assert(r.to_multiset() =~= windows.to_multiset());
}

/// Swapping the focused tile to the right and back restores the strip.
pub proof fn law_swap_right_then_left_restores(s: Strip, desk: Desktop)
    requires
        s.wf(),
        s.focus_index(desk) matches Some(i) && i + 1 < s.windows.len(),
    ensures
        s.swapped(desk, Direction::Right).swapped(desk, Direction::Left) == s,
{
    lemma_first_true(focus_mask(s.windows, desk));
    let i = s.focus_index(desk)->0;
    let t = s.swapped(desk, Direction::Right);
    assert(s.windows[i].inner != s.windows[i + 1].inner);
    assert forall|k: int| 0 <= k < i + 1 implies !focus_mask(t.windows, desk)[k] by {
        if k == i {
            assert(t.windows[k] == s.windows[i + 1]);
        } else {
            assert(t.windows[k] == s.windows[k]);
            assert(!focus_mask(s.windows, desk)[k]);
        }
    }
    assert(focus_mask(t.windows, desk)[i + 1]);
    lemma_first_hit(focus_mask(t.windows, desk), i + 1);
    assert(t.swapped(desk, Direction::Left).windows =~= s.windows);
}

/// Items `x` and `y` are in `windows`, and `y` is not before `x`.
pub open spec fn in_order(windows: Seq<WindowItem>, x: WindowItem, y: WindowItem) -> bool {
    exists|a: int, b: int|
        0 <= a <= b < windows.len() && #[trigger] windows[a] == x && #[trigger] windows[b] == y
}

proof fn lemma_selected_has(windows: Seq<WindowItem>, mask: Seq<bool>, i: int)
    requires
        windows.len() == mask.len(),
        0 <= i < windows.len(),
        mask[i],
    ensures
        exists|a: int|
            0 <= a < selected(windows, mask).len() && #[trigger] selected(windows, mask)[a]
                == windows[i],
{
    lemma_selected(windows, mask);
    let r = selected(windows, mask);
    let w = windows[i];
    let a = choose|a: int| 0 <= a < r.len() && #[trigger] r[a] == w;
    assert(r[a] == w);
}

proof fn lemma_selected_order(windows: Seq<WindowItem>, mask: Seq<bool>, i: int, j: int)
    requires
        windows.len() == mask.len(),
        0 <= i <= j < windows.len(),
        mask[i],
        mask[j],
    ensures
        in_order(selected(windows, mask), windows[i], windows[j]),
    decreases windows.len(),
{
    let init = windows.drop_last();
    let mi = mask.drop_last();
    let rest = selected(init, mi);
    let r = selected(windows, mask);
    if i == j {
        lemma_selected_has(windows, mask, i);
        let a = choose|a: int| 0 <= a < r.len() && #[trigger] r[a] == windows[i];
        assert(r[a] == windows[i] && r[a] == windows[j]);
    } else if j == windows.len() - 1 {
        lemma_selected_has(init, mi, i);
        let a = choose|a: int| 0 <= a < rest.len() && #[trigger] rest[a] == init[i];
        assert(r[a] == windows[i]);
        assert(r[r.len() - 1] == windows[j]);
    } else {
        lemma_selected_order(init, mi, i, j);
        let (a, b) = choose|a: int, b: int|
            0 <= a <= b < rest.len() && #[trigger] rest[a] == init[i] && #[trigger] rest[b]
                == init[j];
        assert(r[a] == windows[i] && r[b] == windows[j]);
    }
}

proof fn lemma_appended_order(
    windows: Seq<WindowItem>,
    snapshot: Seq<Window>,
    desk: Desktop,
    tiling_hmonitor: i64,
    at: Option<int>,
    width: i64,
    upto: int,
    x: WindowItem,
    y: WindowItem,
)
    requires
        at matches Some(i) ==> 0 <= i <= windows.len(),
        in_order(windows, x, y),
    ensures
        in_order(appended(windows, snapshot, desk, tiling_hmonitor, at, width, upto), x, y),
        appended(windows, snapshot, desk, tiling_hmonitor, at, width, upto).len()
            >= windows.len(),
    decreases upto,
{
    if upto > 0 {
        lemma_appended_order(
            windows,
            snapshot,
            desk,
            tiling_hmonitor,
            at,
            width,
            upto - 1,
            x,
            y,
        );
        let before = appended(windows, snapshot, desk, tiling_hmonitor, at, width, upto - 1);
        let r = appended(windows, snapshot, desk, tiling_hmonitor, at, width, upto);
        let (a, b) = choose|a: int, b: int|
            0 <= a <= b < before.len() && #[trigger] before[a] == x && #[trigger] before[b] == y;
        if r.len() > before.len() {
            match at {
                Some(i) => {
                    let a2 = if a < i {
                        a
                    } else {
                        a + 1
                    };
                    let b2 = if b < i {
                        b
                    } else {
                        b + 1
                    };
                    assert(r[a2] == x && r[b2] == y);
                },
                None => {
                    assert(r[a] == x && r[b] == y);
                },
            }
        }
    }
}

/// The end of a mouse drag does nothing to the tile: its window was not dragged
/// off the monitor, and it is not the focused one, whose edge may have been
/// dragged.
pub open spec fn left_alone(item: WindowItem, desk: Desktop, tiling_hmonitor: i64) -> bool {
    !item.iconic_step(desk).dragged_away(desk, tiling_hmonitor) && !desk.focused(item.inner)
}

/// The width a tile has after a snapshot that cannot see its window.
pub open spec fn kept_width(item: WindowItem, desk: Desktop) -> i64 {
    match item.iconic_step(desk).requested_width {
        Some(w) => w,
        None => item.width,
    }
}

/// A tile as the steps of a snapshot leave it.
pub open spec fn followed(item: WindowItem, desk: Desktop, s: Strip, max_width: int) -> WindowItem {
    let i = item.iconic_step(desk);
    let d = if !desk.mouse_held && !s.animating() {
        i.divergence_step(desk)
    } else {
        i
    };
    d.width_step(desk, max_width)
}

proof fn lemma_left_resized_order(s: Strip, desk: Desktop, x: WindowItem, y: WindowItem)
    requires
        in_order(s.windows, x, y),
        !desk.focused(x.inner),
        !desk.focused(y.inner),
    ensures
        in_order(s.left_resized(desk).windows, x, y),
{
    lemma_first_true(focus_mask(s.windows, desk));
    let (a, b) = choose|a: int, b: int|
        0 <= a <= b < s.windows.len() && #[trigger] s.windows[a] == x && #[trigger] s.windows[b]
            == y;
    let r = s.left_resized(desk).windows;
    match s.left_resize(desk) {
        Some(i) => {
            assert(focus_mask(s.windows, desk)[i]);
            assert(i != a && i != b);
            assert(r[a] == x && r[b] == y);
        },
        None => {},
    }
}

proof fn lemma_mapped_order(
    before: Seq<WindowItem>,
    after: Seq<WindowItem>,
    f: spec_fn(WindowItem) -> WindowItem,
    x: WindowItem,
    y: WindowItem,
)
    requires
        in_order(before, x, y),
        after.len() == before.len(),
        forall|k: int| 0 <= k < before.len() ==> #[trigger] after[k] == f(before[k]),
    ensures
        in_order(after, f(x), f(y)),
{
    let (a, b) = choose|a: int, b: int|
        0 <= a <= b < before.len() && #[trigger] before[a] == x && #[trigger] before[b] == y;
    assert(after[a] == f(x) && after[b] == f(y));
}

/// The tiles `x` and `y` as a snapshot finds them, `y` not before `x`.
pub proof fn lemma_taken_in_order(
    s: Strip,
    snapshot: Seq<Window>,
    desk: Desktop,
    tiling_hmonitor: i64,
    i: int,
    j: int,
)
    requires
        s.wf(),
        0 <= i <= j < s.windows.len(),
        accounted_for(snapshot, desk, s.windows[i].inner),
        accounted_for(snapshot, desk, s.windows[j].inner),
        s.drag_ended(desk) ==> left_alone(s.windows[i], desk, tiling_hmonitor) && left_alone(
            s.windows[j],
            desk,
            tiling_hmonitor,
        ),
    ensures
        ({
            let settled = s.retained(snapshot, desk).drag_settled(desk, tiling_hmonitor);
            in_order(
                s.taken_in(snapshot, desk, tiling_hmonitor).windows,
                followed(s.windows[i], desk, settled, s.max_screen_width()),
                followed(s.windows[j], desk, settled, s.max_screen_width()),
            )
        }),
{
    let x = s.windows[i];
    let y = s.windows[j];
    let mask = keep_mask(s.windows, snapshot, desk);
    lemma_selected_order(s.windows, mask, i, j);
    let kept = selected(s.windows, mask);
    let s1 = s.retained(snapshot, desk);
    let step1 = |it: WindowItem| it.iconic_step(desk);
    lemma_mapped_order(kept, s1.windows, step1, x, y);
    let x1 = x.iconic_step(desk);
    let y1 = y.iconic_step(desk);
    assert(in_order(s1.windows, step1(x), step1(y)));
    let u = s1.undragged(desk, tiling_hmonitor);
    let drag = drag_mask(s1.windows, desk, tiling_hmonitor);
    if s1.drag_ended(desk) && count_true(drag) <= DRAG_PRUNE_CAP {
        let (a, b) = choose|a: int, b: int|
            0 <= a <= b < s1.windows.len() && #[trigger] s1.windows[a] == x1 && #[trigger]
                s1.windows[b] == y1;
        assert(negated(drag)[a] && negated(drag)[b]);
        lemma_selected_order(s1.windows, negated(drag), a, b);
    }
    assert(in_order(u.windows, x1, y1));
    if s1.drag_ended(desk) {
        lemma_left_resized_order(u, desk, x1, y1);
    }
    let s2 = s1.drag_settled(desk, tiling_hmonitor);
    assert(in_order(s2.windows, x1, y1));
    let s3 = s2.diverged(desk);
    let step3 = |it: WindowItem| it.divergence_step(desk);
    if !desk.mouse_held && !s2.animating() {
        lemma_mapped_order(s2.windows, s3.windows, step3, x1, y1);
        assert(in_order(s3.windows, step3(x1), step3(y1)));
    }
    let x3 = if !desk.mouse_held && !s2.animating() {
        x1.divergence_step(desk)
    } else {
        x1
    };
    let y3 = if !desk.mouse_held && !s2.animating() {
        y1.divergence_step(desk)
    } else {
        y1
    };
    assert(in_order(s3.windows, x3, y3));
    let s4 = s3.widths_updated(desk);
    let max = s.max_screen_width();
    let step4 = |it: WindowItem| it.width_step(desk, max);
    lemma_mapped_order(s3.windows, s4.windows, step4, x3, y3);
    assert(in_order(s4.windows, step4(x3), step4(y3)));
    lemma_first_true(focus_mask(s4.windows, desk));
    lemma_appended_order(
        s4.windows,
        snapshot,
        desk,
        tiling_hmonitor,
        s4.append_at(desk),
        s4.default_size() as i64,
        snapshot.len() as int,
        x3.width_step(desk, max),
        y3.width_step(desk, max),
    );
}

proof fn lemma_retained_wf(s: Strip, snapshot: Seq<Window>, desk: Desktop)
    requires
        s.wf(),
    ensures
        s.retained(snapshot, desk).wf(),
        s.retained(snapshot, desk).windows.len() <= s.windows.len(),
{
    let mask = keep_mask(s.windows, snapshot, desk);
    lemma_selected_ok(s.windows, mask);
    lemma_selected(s.windows, mask);
    let kept = selected(s.windows, mask);
    let after = after_iconic(kept, desk);
    assert forall|k: int| 0 <= k < after.len() implies (#[trigger] after[k]).ok()
        && after[k].inner == kept[k].inner by {
        assert(kept[k].ok());
    }
    lemma_same_windows(kept, after);
}

proof fn lemma_left_resized_wf(s: Strip, desk: Desktop)
    requires
        s.wf(),
    ensures
        s.left_resized(desk).wf(),
        s.left_resized(desk).windows.len() == s.windows.len(),
{
    let l = s.left_resized(desk);
    lemma_first_true(focus_mask(s.windows, desk));
    assert forall|k: int| 0 <= k < l.windows.len() implies (#[trigger] l.windows[k]).ok()
        && l.windows[k].inner == s.windows[k].inner by {
        assert(s.windows[k].ok());
    }
    lemma_same_windows(s.windows, l.windows);
}

proof fn lemma_drag_settled_wf(s: Strip, desk: Desktop, tiling_hmonitor: i64)
    requires
        s.wf(),
    ensures
        s.drag_settled(desk, tiling_hmonitor).wf(),
        s.drag_settled(desk, tiling_hmonitor).windows.len() <= s.windows.len(),
{
    let drag = drag_mask(s.windows, desk, tiling_hmonitor);
    lemma_selected_ok(s.windows, negated(drag));
    lemma_selected(s.windows, negated(drag));
    lemma_left_resized_wf(s.undragged(desk, tiling_hmonitor), desk);
}

proof fn lemma_widths_wf(s: Strip, desk: Desktop)
    requires
        s.wf(),
    ensures
        s.diverged(desk).widths_updated(desk).wf(),
        s.diverged(desk).widths_updated(desk).windows.len() == s.windows.len(),
{
    let a = s.diverged(desk).windows;
    assert forall|k: int| 0 <= k < a.len() implies (#[trigger] a[k]).ok() && a[k].inner
        == s.windows[k].inner by {
        assert(s.windows[k].ok());
    }
    lemma_same_windows(s.windows, a);
    let b = after_widths(a, desk, s.max_screen_width());
    assert forall|k: int| 0 <= k < b.len() implies (#[trigger] b[k]).ok() && b[k].inner
        == a[k].inner by {
        assert(a[k].ok());
    }
    lemma_same_windows(a, b);
}

/// A snapshot leaves a valid strip.
pub proof fn lemma_taken_in_wf(
    s: Strip,
    snapshot: Seq<Window>,
    desk: Desktop,
    tiling_hmonitor: i64,
)
    requires
        s.wf(),
        s.windows.len() + snapshot.len() <= MAX_WINDOWS,
    ensures
        s.taken_in(snapshot, desk, tiling_hmonitor).wf(),
{
    lemma_retained_wf(s, snapshot, desk);
    let s1 = s.retained(snapshot, desk);
    lemma_drag_settled_wf(s1, desk, tiling_hmonitor);
    let s2 = s1.drag_settled(desk, tiling_hmonitor);
    lemma_widths_wf(s2, desk);
    lemma_grown_wf(s2.diverged(desk).widths_updated(desk), snapshot, desk, tiling_hmonitor);
}

proof fn lemma_grown_wf(s: Strip, snapshot: Seq<Window>, desk: Desktop, tiling_hmonitor: i64)
    requires
        s.wf(),
        s.windows.len() + snapshot.len() <= MAX_WINDOWS,
    ensures
        s.grown(snapshot, desk, tiling_hmonitor).wf(),
{
    lemma_first_true(focus_mask(s.windows, desk));
    lemma_appended(
        s.windows,
        snapshot,
        desk,
        tiling_hmonitor,
        s.append_at(desk),
        s.default_size() as i64,
        snapshot.len() as int,
    );
}

/// The tiles stay, index by index, while a snapshot scrolls and lays out.
pub proof fn lemma_snapped_keeps(s: Strip, desk: Desktop)
    requires
        s.wf(),
    ensures
        ({
            let r = s.focus_followed(desk).laid(s.positions(desk), desk).focus_noted(desk);
            &&& r.windows.len() == s.windows.len()
            &&& r.was_mouse_held_last_snapshot == s.was_mouse_held_last_snapshot
            &&& r.wf()
            &&& forall|k: int|
                0 <= k < s.windows.len() ==> (#[trigger] r.windows[k]).same_tile(s.windows[k])
        }),
{
    let o = s.focus_offset(desk);
    lemma_first_true(focus_mask(s.windows, desk));
    if s.jumps(desk) && !s.smooth_scroll_enabled {
        let t = s.at_offset(o);
        assert(t.wf());
        lemma_laid_wf(t, t.positions(desk), desk);
    }
    let f = s.focus_followed(desk);
    assert(f.wf());
    lemma_laid_wf(f, s.positions(desk), desk);
}

/// The tiles `x` and `y` after a snapshot, `y` not before `x`.
pub proof fn lemma_snapped_order(
    s: Strip,
    snapshot: Seq<Window>,
    desk: Desktop,
    tiling_hmonitor: i64,
    i: int,
    j: int,
) -> (r: (int, int))
    requires
        s.wf(),
        s.windows.len() + snapshot.len() <= MAX_WINDOWS,
        0 <= i <= j < s.windows.len(),
        accounted_for(snapshot, desk, s.windows[i].inner),
        accounted_for(snapshot, desk, s.windows[j].inner),
        s.drag_ended(desk) ==> left_alone(s.windows[i], desk, tiling_hmonitor) && left_alone(
            s.windows[j],
            desk,
            tiling_hmonitor,
        ),
    ensures
        ({
            let after = s.snapped(snapshot, desk, tiling_hmonitor).windows;
            let settled = s.retained(snapshot, desk).drag_settled(desk, tiling_hmonitor);
            let max = s.max_screen_width();
            &&& 0 <= r.0 <= r.1 < after.len()
            &&& i < j ==> r.0 < r.1
            &&& after[r.0].same_tile(followed(s.windows[i], desk, settled, max))
            &&& after[r.1].same_tile(followed(s.windows[j], desk, settled, max))
        }),
{
    lemma_taken_in_wf(s, snapshot, desk, tiling_hmonitor);
    lemma_taken_in_order(s, snapshot, desk, tiling_hmonitor, i, j);
    let t = s.taken_in(snapshot, desk, tiling_hmonitor);
    let settled = s.retained(snapshot, desk).drag_settled(desk, tiling_hmonitor);
    let x = followed(s.windows[i], desk, settled, s.max_screen_width());
    let y = followed(s.windows[j], desk, settled, s.max_screen_width());
    let (a, b) = choose|a: int, b: int|
        0 <= a <= b < t.windows.len() && #[trigger] t.windows[a] == x && #[trigger] t.windows[b]
            == y;
    lemma_snapped_keeps(t, desk);
    let after = s.snapped(snapshot, desk, tiling_hmonitor).windows;
    assert(after[a].same_tile(x) && after[b].same_tile(y));
    if i < j {
        assert(s.windows[i].inner != s.windows[j].inner);
    }
    (a, b)
}

/// Every tile that a snapshot accounts for is still there after it, and tiles
/// keep their order. At the end of a mouse drag the tiles that the drag did
/// nothing to are meant.
pub proof fn law_tiles_stay_in_order(
    s: Strip,
    snapshot: Seq<Window>,
    desk: Desktop,
    tiling_hmonitor: i64,
    i: int,
    j: int,
)
    requires
        s.wf(),
        s.windows.len() + snapshot.len() <= MAX_WINDOWS,
        0 <= i <= j < s.windows.len(),
        accounted_for(snapshot, desk, s.windows[i].inner),
        accounted_for(snapshot, desk, s.windows[j].inner),
        s.drag_ended(desk) ==> left_alone(s.windows[i], desk, tiling_hmonitor) && left_alone(
            s.windows[j],
            desk,
            tiling_hmonitor,
        ),
    ensures
        exists|a: int, b: int|
            0 <= a <= b < s.snapped(snapshot, desk, tiling_hmonitor).windows.len() && (i < j ==> a
                < b) && (#[trigger] s.snapped(snapshot, desk, tiling_hmonitor).windows[a]).inner
                == s.windows[i].inner && (#[trigger] s.snapped(
                snapshot,
                desk,
                tiling_hmonitor,
            ).windows[b]).inner == s.windows[j].inner,
{
    let (a, b) = lemma_snapped_order(s, snapshot, desk, tiling_hmonitor, i, j);
    let after = s.snapped(snapshot, desk, tiling_hmonitor).windows;
    assert(after[a].inner == s.windows[i].inner && after[b].inner == s.windows[j].inner);
}

/// Tiles whose windows are on another virtual desktop outlive any snapshot,
/// in the same order and with their widths. At the end of a mouse drag the
/// focused tile is left out.
pub proof fn law_tiles_of_other_desktops_survive(
    s: Strip,
    snapshot: Seq<Window>,
    desk: Desktop,
    tiling_hmonitor: i64,
    i: int,
    j: int,
)
    requires
        s.wf(),
        s.windows.len() + snapshot.len() <= MAX_WINDOWS,
        0 <= i <= j < s.windows.len(),
        desk.cloaked(s.windows[i].inner),
        desk.cloaked(s.windows[j].inner),
        s.drag_ended(desk) ==> !desk.focused(s.windows[i].inner) && !desk.focused(
            s.windows[j].inner,
        ),
    ensures
        exists|a: int, b: int|
            0 <= a <= b < s.snapped(snapshot, desk, tiling_hmonitor).windows.len() && (i < j ==> a
                < b) && ({
                let x = #[trigger] s.snapped(snapshot, desk, tiling_hmonitor).windows[a];
                let y = #[trigger] s.snapped(snapshot, desk, tiling_hmonitor).windows[b];
                x.inner == s.windows[i].inner && y.inner == s.windows[j].inner && x.width
                    == kept_width(s.windows[i], desk) && y.width == kept_width(s.windows[j], desk)
            }),
{
    let (a, b) = lemma_snapped_order(s, snapshot, desk, tiling_hmonitor, i, j);
    let after = s.snapped(snapshot, desk, tiling_hmonitor).windows;
    assert(after[a].inner == s.windows[i].inner && after[b].inner == s.windows[j].inner);
}

/// One look at the desktop.
pub struct Sight {
    pub snapshot: Seq<Window>,
    pub desk: Desktop,
    pub tiling_hmonitor: i64,
}

impl Strip {
    /// The strip after all of `sights`, the first one first.
    pub open spec fn after_sights(self, sights: Seq<Sight>) -> Self
        decreases sights.len(),
    {
        if sights.len() == 0 {
            self
        } else {
            let last = sights.last();
            self.after_sights(sights.drop_last()).snapped(
                last.snapshot,
                last.desk,
                last.tiling_hmonitor,
            )
        }
    }

    /// The strip has room for the windows of each of `sights`.
    pub open spec fn room_for_sights(self, sights: Seq<Sight>) -> bool {
        forall|k: int|
            0 <= k < sights.len() ==> self.after_sights(sights.take(k)).windows.len() + (
            #[trigger] sights[k]).snapshot.len() <= MAX_WINDOWS
    }
}

/// The window is accounted for in a look at which no mouse button is held.
pub open spec fn undisturbed(sight: Sight, w: Window) -> bool {
    !sight.desk.mouse_held && accounted_for(sight.snapshot, sight.desk, w)
}

/// The tile at `a` belongs to `w`, has the width `width`, and is minimized with
/// that width on record.
spec fn put_away(s: Strip, a: int, w: Window, width: i64) -> bool {
    &&& 0 <= a < s.windows.len()
    &&& s.windows[a].inner == w
    &&& s.windows[a].width == width
    &&& s.windows[a].requested_width is None
    &&& s.windows[a].was_iconic_last_tick
    &&& s.windows[a].pre_minimize_width == Some(width)
}

proof fn lemma_put_away(s: Strip, i: int, sights: Seq<Sight>) -> (a: int)
    requires
        s.wf(),
        s.room_for_sights(sights),
        sights.len() > 0,
        0 <= i < s.windows.len(),
        !s.was_mouse_held_last_snapshot,
        !s.windows[i].was_iconic_last_tick,
        s.windows[i].requested_width is None,
        forall|k: int|
            0 <= k < sights.len() ==> undisturbed(#[trigger] sights[k], s.windows[i].inner)
                && sights[k].desk.iconic(s.windows[i].inner),
    ensures
        s.after_sights(sights).wf(),
        !s.after_sights(sights).was_mouse_held_last_snapshot,
        put_away(s.after_sights(sights), a, s.windows[i].inner, s.windows[i].width),
    decreases sights.len(),
{
    let init = sights.drop_last();
    let last = sights.last();
    let w = s.windows[i].inner;
    let t = s.after_sights(init);
    assert(sights.take(sights.len() - 1) =~= init);
    assert(sights[sights.len() - 1] == last);
    let from = if init.len() == 0 {
        i
    } else {
        assert forall|k: int| 0 <= k < init.len() implies s.after_sights(
            init.take(k),
        ).windows.len() + (#[trigger] init[k]).snapshot.len() <= MAX_WINDOWS by {
            assert(init.take(k) =~= sights.take(k));
            assert(init[k] == sights[k]);
        }
        assert forall|k: int| 0 <= k < init.len() implies undisturbed(#[trigger] init[k], w)
            && init[k].desk.iconic(w) by {
            assert(init[k] == sights[k]);
        }
        lemma_put_away(s, i, init)
    };
    lemma_taken_in_wf(t, last.snapshot, last.desk, last.tiling_hmonitor);
    lemma_snapped_keeps(t.taken_in(last.snapshot, last.desk, last.tiling_hmonitor), last.desk);
    let (a, b) = lemma_snapped_order(
        t,
        last.snapshot,
        last.desk,
        last.tiling_hmonitor,
        from,
        from,
    );
    a
}

/// A window that is minimized for any number of looks and then restored gets
/// back the width its tile had before, whatever size the window has by then.
/// The mouse is left alone meanwhile, and no other width was asked for when the
/// window went away.
pub proof fn law_restored_window_gets_its_width_back(
    s: Strip,
    i: int,
    minimized: Seq<Sight>,
    restored: Sight,
)
    requires
        s.wf(),
        s.room_for_sights(minimized.push(restored)),
        minimized.len() > 0,
        0 <= i < s.windows.len(),
        !s.was_mouse_held_last_snapshot,
        !s.windows[i].was_iconic_last_tick,
        s.windows[i].requested_width is None,
        forall|k: int|
            0 <= k < minimized.len() ==> undisturbed(#[trigger] minimized[k], s.windows[i].inner)
                && minimized[k].desk.iconic(s.windows[i].inner),
        undisturbed(restored, s.windows[i].inner),
        !restored.desk.iconic(s.windows[i].inner),
    ensures
        exists|a: int|
            0 <= a < s.after_sights(minimized.push(restored)).windows.len() && (
            #[trigger] s.after_sights(minimized.push(restored)).windows[a]).inner
                == s.windows[i].inner && s.after_sights(minimized.push(restored)).windows[a].width
                == s.windows[i].width,
{
    let all = minimized.push(restored);
    assert(all.drop_last() =~= minimized);
    assert(all.take(minimized.len() as int) =~= minimized);
    assert(all[minimized.len() as int] == restored);
    assert forall|k: int| 0 <= k < minimized.len() implies s.after_sights(
        minimized.take(k),
    ).windows.len() + (#[trigger] minimized[k]).snapshot.len() <= MAX_WINDOWS by {
        assert(minimized.take(k) =~= all.take(k));
        assert(minimized[k] == all[k]);
    }
    let from = lemma_put_away(s, i, minimized);
    let t = s.after_sights(minimized);
    let (a, b) = lemma_snapped_order(
        t,
        restored.snapshot,
        restored.desk,
        restored.tiling_hmonitor,
        from,
        from,
    );
    assert(s.after_sights(all).windows[a].width == s.windows[i].width);
}

/// Scrolling to the focused tile brings all of it on the screen, gaps
/// included, unless it is wider than a tile may be. Turning smoothing off
/// while the strip is on its way somewhere is left out.
pub proof fn law_focused_tile_is_brought_into_view(s: Strip, desk: Desktop, i: int)
    requires
        s.wf(),
        s.focus_index(desk) == Some(i),
        s.windows[i].width <= s.max_screen_width(),
        s.smooth_scroll_enabled || s.scroll_target is None,
    ensures
        s.scroll_adjusted(desk).fitting_offset(desk, i) is None,
{
    lemma_first_true(focus_mask(s.windows, desk));
    lemma_position_bounds(s.windows, desk, s.padding as int, i);
    let after = s.scroll_adjusted(desk);
    assert(after.positions(desk)[i] == s.positions(desk)[i]);
}

/// A tile that the strip is centred on has as much of the screen on its left
/// as on its right.
pub proof fn law_centred_tile_is_in_the_middle(s: Strip, desk: Desktop, i: int)
    requires
        s.wf(),
        0 <= i < s.windows.len(),
    ensures
        ({
            let x = s.positions(desk)[i] as int;
            let width = s.windows[i].width as int;
            let left = x - s.centering_offset(x, width);
            let right = s.screen_size.width - (left + width);
            magnitude(right - left) <= 1
        }),
{
    lemma_position_bounds(s.windows, desk, s.padding as int, i);
    assert(s.windows[i].ok());
}

/// Of two timed scrolls the later one wins, whether or not the first has
/// arrived.
pub proof fn law_later_scroll_replaces_earlier(
    s: Strip,
    first: i64,
    first_ms: u32,
    then: Desktop,
    second: i64,
    second_ms: u32,
    desk: Desktop,
)
    requires
        s.wf(),
        first_ms > 0,
    ensures
        ({
            let both = s.timed_to(first, first_ms, then).timed_to(second, second_ms, desk);
            let one = s.timed_to(second, second_ms, desk);
            &&& both.scroll_offset == one.scroll_offset
            &&& both.scroll_target == one.scroll_target
            &&& both.scroll_animation == one.scroll_animation
        }),
{
}

/// Of two width changes of one tile the later one wins, as if the first had
/// never been asked for.
pub proof fn law_later_resize_replaces_earlier(
    s: Strip,
    hwnd: u64,
    first: i64,
    first_ms: u32,
    then: u64,
    second: i64,
    second_ms: u32,
    now: u64,
)
    requires
        s.wf(),
        first_ms > 0,
    ensures
        s.width_sent(hwnd, first, first_ms, then).width_sent(hwnd, second, second_ms, now)
            == s.width_sent(hwnd, second, second_ms, now),
{
    lemma_first_true(hwnd_mask(s.windows, hwnd));
    let mid = s.width_sent(hwnd, first, first_ms, then);
    assert(hwnd_mask(mid.windows, hwnd) =~= hwnd_mask(s.windows, hwnd));
    match s.tile_of(hwnd) {
        Some(i) => {
            let both = mid.width_sent(hwnd, second, second_ms, now);
            let one = s.width_sent(hwnd, second, second_ms, now);
            assert(both.windows =~= one.windows);
        },
        None => {},
    }
}

proof fn lemma_seeded_tiles(
    windows: Seq<WindowItem>,
    snapshot: Seq<Window>,
    desk: Desktop,
    width: i64,
    upto: int,
)
    requires
        0 <= upto <= snapshot.len(),
    ensures
        ({
            let r = seeded(windows, snapshot, desk, width, upto);
            &&& windows.is_prefix_of(r)
            &&& forall|k: int| 0 <= k < upto ==> is_tiled(r, #[trigger] snapshot[k])
        }),
    decreases upto,
{
    if upto > 0 {
        lemma_seeded_tiles(windows, snapshot, desk, width, upto - 1);
        let before = seeded(windows, snapshot, desk, width, upto - 1);
        let r = seeded(windows, snapshot, desk, width, upto);
        assert forall|k: int| 0 <= k < upto implies is_tiled(r, #[trigger] snapshot[k]) by {
            if k < upto - 1 {
                assert(is_tiled(before, snapshot[k]));
                let a = choose|a: int|
                    0 <= a < before.len() && (#[trigger] before[a]).inner == snapshot[k];
                assert(r[a].inner == snapshot[k]);
            } else if !is_tiled(before, snapshot[k]) {
                assert(r[r.len() - 1].inner == snapshot[k]);
            }
        }
        assert(windows =~= r.subrange(0, windows.len() as int));
    }
}

/// The first update gives every window a tile, whatever monitor it is on, and
/// leaves the tiles that are there where they are.
pub proof fn law_first_update_tiles_every_window(s: Strip, snapshot: Seq<Window>, desk: Desktop)
    requires
        s.wf(),
    ensures
        s.windows.is_prefix_of(s.bulk_seeded(snapshot, desk).windows),
        forall|k: int|
            0 <= k < snapshot.len() ==> is_tiled(
                s.bulk_seeded(snapshot, desk).windows,
                #[trigger] snapshot[k],
            ),
{
    lemma_seeded_tiles(
        s.windows,
        snapshot,
        desk,
        s.default_size() as i64,
        snapshot.len() as int,
    );
}

/// May have a tile: seen, or on another virtual desktop.
pub open spec fn accounted_for(snapshot: Seq<Window>, desk: Desktop, w: Window) -> bool {
    snapshot.contains(w) || (desk.valid(w) && desk.cloaked(w))
}

pub open spec fn all_accounted_for(
    windows: Seq<WindowItem>,
    snapshot: Seq<Window>,
    desk: Desktop,
) -> bool {
    forall|i: int|
        0 <= i < windows.len() ==> accounted_for(snapshot, desk, (#[trigger] windows[i]).inner)
}

proof fn lemma_appended_members(
    windows: Seq<WindowItem>,
    snapshot: Seq<Window>,
    desk: Desktop,
    tiling_hmonitor: i64,
    at: Option<int>,
    width: i64,
    upto: int,
)
    requires
        0 <= upto <= snapshot.len(),
        at matches Some(i) ==> 0 <= i <= windows.len(),
        all_accounted_for(windows, snapshot, desk),
    ensures
        ({
            let r = appended(windows, snapshot, desk, tiling_hmonitor, at, width, upto);
            &&& windows.len() <= r.len()
            &&& all_accounted_for(r, snapshot, desk)
            &&& forall|k: int|
                0 <= k < upto && desk.monitor_of(snapshot[k]) == tiling_hmonitor ==> is_tiled(
                    r,
                    #[trigger] snapshot[k],
                )
        }),
    decreases upto,
{
    if upto > 0 {
        lemma_appended_members(windows, snapshot, desk, tiling_hmonitor, at, width, upto - 1);
        let before = appended(windows, snapshot, desk, tiling_hmonitor, at, width, upto - 1);
        let r = appended(windows, snapshot, desk, tiling_hmonitor, at, width, upto);
        let w = snapshot[upto - 1];
        let added = !is_tiled(before, w) && desk.monitor_of(w) == tiling_hmonitor;
        let place = match at {
            Some(i) => i,
            None => before.len() as int,
        };
        assert(added ==> r =~= before.insert(place, new_item(desk, w, width)));
        assert(!added ==> r == before);
        assert forall|i: int| 0 <= i < r.len() implies accounted_for(
            snapshot,
            desk,
            (#[trigger] r[i]).inner,
        ) by {
            if added && i == place {
                assert(r[i].inner == w);
            } else if added && i > place {
                assert(r[i] == before[i - 1]);
            } else {
                assert(r[i] == before[i]);
            }
        }
        assert forall|k: int|
            0 <= k < upto && desk.monitor_of(snapshot[k]) == tiling_hmonitor implies is_tiled(
            r,
            #[trigger] snapshot[k],
        ) by {
            if is_tiled(before, snapshot[k]) {
                let a = choose|a: int|
                    0 <= a < before.len() && (#[trigger] before[a]).inner == snapshot[k];
                let b = if added && a >= place {
                    a + 1
                } else {
                    a
                };
                assert(r[b] == before[a]);
            } else {
                assert(r[place].inner == snapshot[k]);
            }
        }
    }
}

proof fn lemma_retained_members(s: Strip, snapshot: Seq<Window>, desk: Desktop)
    ensures
        all_accounted_for(s.retained(snapshot, desk).windows, snapshot, desk),
{
    let mask = keep_mask(s.windows, snapshot, desk);
    let kept = selected(s.windows, mask);
    let after = s.retained(snapshot, desk).windows;
    lemma_selected(s.windows, mask);
    assert forall|i: int| 0 <= i < after.len() implies accounted_for(
        snapshot,
        desk,
        (#[trigger] after[i]).inner,
    ) by {
        assert(after[i].inner == kept[i].inner);
        let a = choose|a: int| 0 <= a < s.windows.len() && mask[a] && #[trigger] s.windows[a]
            == kept[i];
        assert(mask[a]);
    }
}

proof fn lemma_selected_members(
    windows: Seq<WindowItem>,
    mask: Seq<bool>,
    snapshot: Seq<Window>,
    desk: Desktop,
)
    requires
        windows.len() == mask.len(),
        all_accounted_for(windows, snapshot, desk),
    ensures
        all_accounted_for(selected(windows, mask), snapshot, desk),
{
    let r = selected(windows, mask);
    lemma_selected(windows, mask);
    assert forall|i: int| 0 <= i < r.len() implies accounted_for(
        snapshot,
        desk,
        (#[trigger] r[i]).inner,
    ) by {
        let w = r[i];
        let a = choose|a: int| 0 <= a < windows.len() && mask[a] && #[trigger] windows[a] == w;
        assert(windows[a] == w);
    }
}

/// Only which windows the tiles belong to matters.
proof fn lemma_same_members(
    before: Seq<WindowItem>,
    after: Seq<WindowItem>,
    snapshot: Seq<Window>,
    desk: Desktop,
)
    requires
        before.len() == after.len(),
        forall|i: int| 0 <= i < after.len() ==> (#[trigger] after[i]).inner == before[i].inner,
        all_accounted_for(before, snapshot, desk),
    ensures
        all_accounted_for(after, snapshot, desk),
{
    assert forall|i: int| 0 <= i < after.len() implies accounted_for(
        snapshot,
        desk,
        (#[trigger] after[i]).inner,
    ) by {
        assert(accounted_for(snapshot, desk, before[i].inner));
    }
}

/// What the steps before new windows are let in leave is accounted for.
proof fn lemma_settled_members(
    s: Strip,
    snapshot: Seq<Window>,
    desk: Desktop,
    tiling_hmonitor: i64,
)
    ensures
        all_accounted_for(
            s.retained(snapshot, desk).drag_settled(desk, tiling_hmonitor).diverged(
                desk,
            ).widths_updated(desk).windows,
            snapshot,
            desk,
        ),
{
    lemma_retained_members(s, snapshot, desk);
    let s1 = s.retained(snapshot, desk);
    let drag = drag_mask(s1.windows, desk, tiling_hmonitor);
    lemma_selected_members(s1.windows, negated(drag), snapshot, desk);
    let u = s1.undragged(desk, tiling_hmonitor);
    assert(all_accounted_for(u.windows, snapshot, desk));
    lemma_first_true(focus_mask(u.windows, desk));
    let l = u.left_resized(desk);
    lemma_same_members(u.windows, l.windows, snapshot, desk);
    let s2 = s1.drag_settled(desk, tiling_hmonitor);
    assert(all_accounted_for(s2.windows, snapshot, desk));
    let s3 = s2.diverged(desk);
    lemma_same_members(s2.windows, s3.windows, snapshot, desk);
    lemma_same_members(s3.windows, s3.widths_updated(desk).windows, snapshot, desk);
}

/// After a snapshot every window it shows on the tiling monitor has a tile,
/// and no window has one that is neither in it nor on another virtual
/// desktop: closed windows are gone. Where no mouse drag has just ended, no
/// other window loses its tile.
pub proof fn law_strip_follows_the_snapshot(
    s: Strip,
    snapshot: Seq<Window>,
    desk: Desktop,
    tiling_hmonitor: i64,
)
    requires
        s.wf(),
        s.windows.len() + snapshot.len() <= MAX_WINDOWS,
    ensures
        all_accounted_for(
            s.snapped(snapshot, desk, tiling_hmonitor).windows,
            snapshot,
            desk,
        ),
        forall|k: int|
            0 <= k < snapshot.len() && desk.monitor_of(snapshot[k]) == tiling_hmonitor ==> is_tiled(
                s.snapped(snapshot, desk, tiling_hmonitor).windows,
                #[trigger] snapshot[k],
            ),
        !s.drag_ended(desk) ==> forall|i: int|
            0 <= i < s.windows.len() && accounted_for(
                snapshot,
                desk,
                (#[trigger] s.windows[i]).inner,
            ) ==> is_tiled(
                s.snapped(snapshot, desk, tiling_hmonitor).windows,
                s.windows[i].inner,
            ),
{
    let base = s.retained(snapshot, desk).drag_settled(desk, tiling_hmonitor).diverged(
        desk,
    ).widths_updated(desk);
    let t = s.taken_in(snapshot, desk, tiling_hmonitor);
    let r = s.snapped(snapshot, desk, tiling_hmonitor);
    lemma_taken_in_wf(s, snapshot, desk, tiling_hmonitor);
    lemma_settled_members(s, snapshot, desk, tiling_hmonitor);
    lemma_first_true(focus_mask(base.windows, desk));
    lemma_appended_members(
        base.windows,
        snapshot,
        desk,
        tiling_hmonitor,
        base.append_at(desk),
        base.default_size() as i64,
        snapshot.len() as int,
    );
    lemma_snapped_keeps(t, desk);
    assert forall|k: int|
        0 <= k < snapshot.len() && desk.monitor_of(snapshot[k]) == tiling_hmonitor implies is_tiled(
        r.windows,
        #[trigger] snapshot[k],
    ) by {
        assert(is_tiled(t.windows, snapshot[k]));
        let a = choose|a: int|
            0 <= a < t.windows.len() && (#[trigger] t.windows[a]).inner == snapshot[k];
        assert(r.windows[a].inner == snapshot[k]);
    }
    assert forall|i: int| 0 <= i < r.windows.len() implies accounted_for(
        snapshot,
        desk,
        (#[trigger] r.windows[i]).inner,
    ) by {
        assert(r.windows[i].inner == t.windows[i].inner);
    }
    if !s.drag_ended(desk) {
        assert forall|i: int|
            0 <= i < s.windows.len() && accounted_for(
                snapshot,
                desk,
                (#[trigger] s.windows[i]).inner,
            ) implies is_tiled(r.windows, s.windows[i].inner) by {
            let (a, b) = lemma_snapped_order(s, snapshot, desk, tiling_hmonitor, i, i);
            assert(r.windows[a].inner == s.windows[i].inner);
        }
    }
}

} // verus!
