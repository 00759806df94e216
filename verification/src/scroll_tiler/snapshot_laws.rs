//! What a look at the desktop does to the strip.
use vstd::prelude::*;

use crate::geometry::magnitude;
use crate::scroll_tiler::arrival_laws::{lemma_opened_up, lemma_retained_tile};
use crate::scroll_tiler::command_laws::{
    has_focus, law_focused_tile_is_that_of_the_focused_window, nothing_focused,
};
use crate::scroll_tiler::item::WindowItem;
use crate::scroll_tiler::laws::{
    accounted_for, followed, left_alone, lemma_snapped_keeps, lemma_snapped_order,
    lemma_taken_in_order, lemma_taken_in_wf,
};
use crate::scroll_tiler::layout::{lemma_begun, lemma_laid_wf};
use crate::scroll_tiler::layout_laws::{
    law_tiles_are_put_in_their_places, lemma_shows, shows,
};
use crate::scroll_tiler::motion_laws::heading;
use crate::scroll_tiler::strip::{
    count_true, cursor, distinct, drag_mask, focus_mask, is_tiled, keep_mask,
    lemma_position_bounds, lemma_selected, negated, selected, Strip, MAX_WINDOWS,
};
use crate::search::{first_true, lemma_first_hit, lemma_first_true};
use crate::window::{Desktop, Window};

verus! {

/// The strips have the same tiles in the same order with the same widths.
spec fn alike(a: Seq<WindowItem>, b: Seq<WindowItem>) -> bool {
    &&& a.len() == b.len()
    &&& forall|k: int|
        0 <= k < a.len() ==> (#[trigger] a[k]).inner == b[k].inner && a[k].width == b[k].width
}

proof fn lemma_alike_cursor(
    a: Seq<WindowItem>,
    b: Seq<WindowItem>,
    desk: Desktop,
    padding: int,
    upto: int,
)
    requires
        alike(a, b),
        upto <= a.len(),
    ensures
        cursor(a, desk, padding, upto) == cursor(b, desk, padding, upto),
    decreases upto,
{
    if upto > 0 {
        lemma_alike_cursor(a, b, desk, padding, upto - 1);
        assert(a[upto - 1].inner == b[upto - 1].inner);
    }
}

/// Tiles and widths decide where the tiles are and which of them has the focus.
proof fn lemma_alike(a: Strip, b: Strip, desk: Desktop)
    requires
        alike(a.windows, b.windows),
        a.padding == b.padding,
    ensures
        a.positions(desk) == b.positions(desk),
        a.focus_index(desk) == b.focus_index(desk),
{
    assert forall|i: int| 0 <= i < a.windows.len() implies #[trigger] a.positions(desk)[i]
        == b.positions(desk)[i] by {
        lemma_alike_cursor(a.windows, b.windows, desk, a.padding as int, i);
        assert(a.windows[i].inner == b.windows[i].inner);
    }
    assert(a.positions(desk) =~= b.positions(desk));
    let ma = focus_mask(a.windows, desk);
    let mb = focus_mask(b.windows, desk);
    assert forall|i: int| 0 <= i < ma.len() implies #[trigger] ma[i] == mb[i] by {
        assert(a.windows[i].inner == b.windows[i].inner);
    }
    assert(ma =~= mb);
}

/// The strip a snapshot leaves, seen from the one it scrolled.
#[verifier::rlimit(40)]
proof fn lemma_snapped(s: Strip, snapshot: Seq<Window>, desk: Desktop, tiling_hmonitor: i64)
    requires
        s.wf(),
        s.windows.len() + snapshot.len() <= MAX_WINDOWS,
    ensures
        ({
            let t = s.taken_in(snapshot, desk, tiling_hmonitor);
            let f = t.focus_followed(desk);
            let r = s.snapped(snapshot, desk, tiling_hmonitor);
            &&& t.wf()
            &&& f.wf()
            &&& r.wf()
            &&& alike(f.windows, t.windows)
            &&& alike(r.windows, t.windows)
            &&& r.positions(desk) == t.positions(desk)
            &&& r.focus_index(desk) == t.focus_index(desk)
            &&& f.focus_index(desk) == t.focus_index(desk)
            &&& r.scroll_offset == f.scroll_offset
            &&& r.scroll_target == f.scroll_target
            &&& r.scroll_animation == f.scroll_animation
            &&& t.padding == s.padding
            &&& t.screen_size == s.screen_size
            &&& t.smooth_scroll_enabled == s.smooth_scroll_enabled
            &&& t.previously_focused_window_index == s.previously_focused_window_index
            &&& t.scroll_animation == s.scroll_animation
            &&& r.padding == s.padding
            &&& r.screen_size == s.screen_size
            &&& !s.drag_ended(desk) ==> t.scroll_offset == s.scroll_offset && t.scroll_target
                == s.scroll_target
            &&& t.scroll_target is None || t.scroll_target == s.scroll_target
        }),
{
    lemma_taken_in_wf(s, snapshot, desk, tiling_hmonitor);
    let t = s.taken_in(snapshot, desk, tiling_hmonitor);
    let f = t.focus_followed(desk);
    let r = s.snapped(snapshot, desk, tiling_hmonitor);
    lemma_snapped_keeps(t, desk);
    if t.jumps(desk) && !t.smooth_scroll_enabled {
        let u = t.at_offset(t.focus_offset(desk));
        lemma_laid_wf(u, u.positions(desk), desk);
        assert forall|k: int| 0 <= k < f.windows.len() implies (#[trigger] f.windows[k]).inner
            == t.windows[k].inner && f.windows[k].width == t.windows[k].width by {
            assert(u.laid(u.positions(desk), desk).windows[k].same_tile(u.windows[k]));
        }
    }
    assert(alike(f.windows, t.windows));
    assert forall|k: int| 0 <= k < r.windows.len() implies (#[trigger] r.windows[k]).inner
        == t.windows[k].inner && r.windows[k].width == t.windows[k].width by {
        assert(r.windows[k].same_tile(t.windows[k]));
    }
    lemma_alike(r, t, desk);
    lemma_alike(f, t, desk);
    assert(f.wf());
}

/// All of tile `i` is on a screen scrolled to `at`, and so are the gaps beside
/// it.
pub open spec fn whole_on_screen_at(s: Strip, desk: Desktop, i: int, at: int) -> bool {
    let x = s.positions(desk)[i];
    at <= x - s.padding && x + s.windows[i].width + s.padding <= at + s.screen_size.width
}

/// Where smoothing leads, or else where the strip is.
pub open spec fn bound_for(s: Strip) -> int {
    match s.scroll_target {
        Some(t) => t as int,
        None => s.scroll_offset as int,
    }
}

/// When the focus has come to another tile, the strip is at, or on its way to,
/// an offset at which that tile is wholly on the screen with its gaps. Left out
/// are tiles wider than a tile may be, and the case that smoothing was turned
/// off while the strip was on its way somewhere.
pub proof fn law_newly_focused_tile_comes_into_view(
    s: Strip,
    snapshot: Seq<Window>,
    desk: Desktop,
    tiling_hmonitor: i64,
    i: int,
)
    requires
        s.wf(),
        s.windows.len() + snapshot.len() <= MAX_WINDOWS,
        has_focus(s.snapped(snapshot, desk, tiling_hmonitor), desk, i),
        s.previously_focused_window_index != Some(i as usize),
        s.snapped(snapshot, desk, tiling_hmonitor).windows[i].width <= s.screen_size.width - 2
            * s.padding - 1000,
        s.smooth_scroll_enabled || s.scroll_target is None,
    ensures
        ({
            let r = s.snapped(snapshot, desk, tiling_hmonitor);
            &&& whole_on_screen_at(r, desk, i, bound_for(r))
            &&& s.scroll_animation is None ==> whole_on_screen_at(r, desk, i, heading(r))
            &&& !s.smooth_scroll_enabled ==> whole_on_screen_at(
                r,
                desk,
                i,
                r.scroll_offset as int,
            )
        }),
{
    let t = s.taken_in(snapshot, desk, tiling_hmonitor);
    let r = s.snapped(snapshot, desk, tiling_hmonitor);
    lemma_snapped(s, snapshot, desk, tiling_hmonitor);
    law_focused_tile_is_that_of_the_focused_window(r, desk, i);
    assert(t.focus_index(desk) == Some(i));
    assert(t.windows[i].ok());
    lemma_position_bounds(t.windows, desk, t.padding as int, i);
    assert(r.windows[i].width == t.windows[i].width);
    assert(t.focus_index(desk) != t.previous_index());
}

/// The strip scrolls no further than it must. Where the newly focused tile is on
/// the screen already, it stays; else the tile comes to the edge that it is
/// nearer to. Only a tile more than half a screen away from the screen comes to
/// the middle.
pub proof fn law_strip_scrolls_no_further_than_it_must(
    s: Strip,
    snapshot: Seq<Window>,
    desk: Desktop,
    tiling_hmonitor: i64,
    i: int,
)
    requires
        s.wf(),
        s.windows.len() + snapshot.len() <= MAX_WINDOWS,
        !s.drag_ended(desk),
        has_focus(s.snapped(snapshot, desk, tiling_hmonitor), desk, i),
        s.previously_focused_window_index != Some(i as usize),
        s.snapped(snapshot, desk, tiling_hmonitor).windows[i].width <= s.screen_size.width - 2
            * s.padding - 1000,
        s.smooth_scroll_enabled || s.scroll_target is None,
    ensures
        ({
            let r = s.snapped(snapshot, desk, tiling_hmonitor);
            let x = r.positions(desk)[i];
            let width = r.windows[i].width;
            let screen = s.screen_size.width;
            let half = screen as int / 2;
            let from = bound_for(s);
            if x - s.scroll_offset > screen + half || x + width - s.scroll_offset < -half {
                magnitude(2 * (x - bound_for(r)) + width - screen) <= 2
            } else if whole_on_screen_at(r, desk, i, from) {
                bound_for(r) == from && r.scroll_offset == s.scroll_offset
            } else if x - s.padding < from {
                bound_for(r) == x - s.padding
            } else {
                bound_for(r) == x + width + s.padding - screen
            }
        }),
{
    let t = s.taken_in(snapshot, desk, tiling_hmonitor);
    let r = s.snapped(snapshot, desk, tiling_hmonitor);
    lemma_snapped(s, snapshot, desk, tiling_hmonitor);
    law_focused_tile_is_that_of_the_focused_window(r, desk, i);
    assert(t.focus_index(desk) == Some(i));
    assert(t.windows[i].ok());
    lemma_position_bounds(t.windows, desk, t.padding as int, i);
    assert(r.windows[i].width == t.windows[i].width);
    assert(t.focus_index(desk) != t.previous_index());
}

/// While the focus stays with its tile, or no tile has it, a snapshot does not
/// scroll. Left out is the end of a mouse drag, which may have resized a window.
pub proof fn law_unchanged_focus_does_not_scroll(
    s: Strip,
    snapshot: Seq<Window>,
    desk: Desktop,
    tiling_hmonitor: i64,
    i: int,
)
    requires
        s.wf(),
        s.windows.len() + snapshot.len() <= MAX_WINDOWS,
        !s.drag_ended(desk),
        ({
            let r = s.snapped(snapshot, desk, tiling_hmonitor);
            nothing_focused(r, desk) || has_focus(r, desk, i)
                && s.previously_focused_window_index == Some(i as usize)
        }),
    ensures
        ({
            let r = s.snapped(snapshot, desk, tiling_hmonitor);
            &&& r.scroll_offset == s.scroll_offset
            &&& r.scroll_target == s.scroll_target
            &&& r.scroll_animation == s.scroll_animation
        }),
{
    let r = s.snapped(snapshot, desk, tiling_hmonitor);
    lemma_snapped(s, snapshot, desk, tiling_hmonitor);
    law_focused_tile_is_that_of_the_focused_window(r, desk, i);
}

/// A snapshot remembers the tile that has the focus; where none has it, the one
/// remembered before.
pub proof fn law_snapshot_remembers_the_focused_tile(
    s: Strip,
    snapshot: Seq<Window>,
    desk: Desktop,
    tiling_hmonitor: i64,
    i: int,
)
    requires
        s.wf(),
        s.windows.len() + snapshot.len() <= MAX_WINDOWS,
    ensures
        ({
            let r = s.snapped(snapshot, desk, tiling_hmonitor);
            &&& has_focus(r, desk, i) ==> r.previously_focused_window_index == Some(i as usize)
            &&& nothing_focused(r, desk) ==> r.previously_focused_window_index
                == s.previously_focused_window_index
            &&& r.was_mouse_held_last_snapshot == desk.mouse_held
        }),
{
    let t = s.taken_in(snapshot, desk, tiling_hmonitor);
    let f = t.focus_followed(desk);
    let r = s.snapped(snapshot, desk, tiling_hmonitor);
    lemma_snapped(s, snapshot, desk, tiling_hmonitor);
    law_focused_tile_is_that_of_the_focused_window(r, desk, i);
    let l = f.laid(t.positions(desk), desk);
    lemma_laid_wf(f, t.positions(desk), desk);
    assert(alike(l.windows, f.windows)) by {
        assert forall|k: int| 0 <= k < l.windows.len() implies (#[trigger] l.windows[k]).inner
            == f.windows[k].inner && l.windows[k].width == f.windows[k].width by {
            assert(l.windows[k].same_tile(f.windows[k]));
        }
    }
    lemma_alike(l, f, desk);
    lemma_snapped_keeps(t, desk);
}

/// A snapshot takes over the width that was asked for. Where none was, it
/// believes the width it sees: up to the widest a tile may be, and no change
/// beyond 250 pixels unless a mouse button is held. Windows that cannot be seen
/// keep their widths. A window restored from the taskbar is another matter, and
/// so is the end of a mouse drag for the tiles it concerns.
pub proof fn law_snapshot_takes_widths(
    s: Strip,
    snapshot: Seq<Window>,
    desk: Desktop,
    tiling_hmonitor: i64,
    i: int,
    k: int,
)
    requires
        s.wf(),
        s.windows.len() + snapshot.len() <= MAX_WINDOWS,
        0 <= i < s.windows.len(),
        accounted_for(snapshot, desk, s.windows[i].inner),
        s.drag_ended(desk) ==> left_alone(s.windows[i], desk, tiling_hmonitor),
        s.windows[i].was_iconic_last_tick ==> desk.iconic(s.windows[i].inner),
        0 <= k < s.snapped(snapshot, desk, tiling_hmonitor).windows.len(),
        s.snapped(snapshot, desk, tiling_hmonitor).windows[k].inner == s.windows[i].inner,
    ensures
        ({
            let before = s.windows[i];
            let after = s.snapped(snapshot, desk, tiling_hmonitor).windows[k];
            let widest = s.screen_size.width - 2 * s.padding - 1000;
            &&& after.requested_width is None
            &&& match before.requested_width {
                Some(w) => after.width == w,
                None => match desk.frame_of(before.inner) {
                    None => after.width == before.width,
                    Some(f) => {
                        let seen = (f.right - f.left) * 1000;
                        let shown = if seen > widest {
                            widest
                        } else {
                            seen
                        };
                        if desk.iconic(before.inner) || desk.cloaked(before.inner) {
                            after.width == before.width
                        } else if desk.mouse_held || -250_000 <= shown - before.width <= 250_000 {
                            after.width == shown
                        } else {
                            after.width == before.width
                        }
                    },
                },
            }
        }),
{
    let (a, b) = lemma_snapped_order(s, snapshot, desk, tiling_hmonitor, i, i);
    let r = s.snapped(snapshot, desk, tiling_hmonitor);
    lemma_snapped(s, snapshot, desk, tiling_hmonitor);
    assert(r.windows[a].inner == s.windows[i].inner);
    assert(a == k);
    assert(s.windows[i].ok());
}

/// After a snapshot every visible tile of which something is on the screen is
/// put where the strip has it, and any other is parked. The layout must take
/// place and no window sit it out.
#[verifier::rlimit(40)]
pub proof fn law_snapshot_puts_tiles_in_their_places(
    s: Strip,
    snapshot: Seq<Window>,
    desk: Desktop,
    tiling_hmonitor: i64,
    i: int,
)
    requires
        s.wf(),
        s.windows.len() + snapshot.len() <= MAX_WINDOWS,
        !desk.mouse_held,
        ({
            let r = s.snapped(snapshot, desk, tiling_hmonitor);
            &&& !r.animating() || !s.throttle_slow_apps
            &&& 0 <= i < r.windows.len()
            &&& !desk.hidden(r.windows[i].inner)
        }),
    ensures
        ({
            let r = s.snapped(snapshot, desk, tiling_hmonitor);
            let pos = r.positions(desk);
            r.windows[i].last_layout matches Some(p) && p.width == r.windows[i].width && p.height
                == s.screen_size.height - 2 * s.padding && if shows(r, pos, i) {
                p.x == pos[i] - r.scroll_offset && p.y == s.padding
            } else {
                p.x == 25_000_000 && p.y == 25_000_000
            }
        }),
{
    let t = s.taken_in(snapshot, desk, tiling_hmonitor);
    let f = t.focus_followed(desk);
    let r = s.snapped(snapshot, desk, tiling_hmonitor);
    let pos = t.positions(desk);
    lemma_snapped(s, snapshot, desk, tiling_hmonitor);
    lemma_laid_wf(f, pos, desk);
    assert(f.animating() == r.animating()) by {
        if f.some_width_moves() {
            let k = choose|k: int|
                0 <= k < f.windows.len() && (#[trigger] f.windows[k]).width_animation is Some;
            assert(f.laid(pos, desk).windows[k].same_tile(f.windows[k]));
            assert(r.windows[k].width_animation is Some);
        }
        if r.some_width_moves() {
            let k = choose|k: int|
                0 <= k < r.windows.len() && (#[trigger] r.windows[k]).width_animation is Some;
            assert(f.laid(pos, desk).windows[k].same_tile(f.windows[k]));
            assert(f.windows[k].width_animation is Some);
        }
    }
    assert forall|k: int| 0 <= k < pos.len() implies crate::geometry::position_ok(
        #[trigger] pos[k],
    ) by {
        lemma_position_bounds(t.windows, desk, t.padding as int, k);
    }
    assert(r.windows[i].inner == f.windows[i].inner && r.windows[i].width == f.windows[i].width);
    law_tiles_are_put_in_their_places(f, pos, desk, i);
    lemma_shows(f, pos, i);
    lemma_shows(r, pos, i);
}

/// At the end of a mouse drag the focused tile takes over the width that its
/// window was given by its left edge, at least 200 pixels and at most the widest
/// a tile may be. As long as the focus stays with its tile, the strip scrolls by
/// as much as the tile grew, so that its right edge stays where it is. The left
/// edge was dragged where the width is off by more than 5 pixels and the right
/// edge by less.
#[verifier::rlimit(40)]
pub proof fn law_dragged_left_edge_is_kept(
    s: Strip,
    snapshot: Seq<Window>,
    desk: Desktop,
    tiling_hmonitor: i64,
    i: int,
    k: int,
)
    requires
        s.wf(),
        s.windows.len() + snapshot.len() <= MAX_WINDOWS,
        s.was_mouse_held_last_snapshot,
        !desk.mouse_held,
        has_focus(s, desk, i),
        snapshot.contains(s.windows[i].inner),
        desk.monitor_of(s.windows[i].inner) == tiling_hmonitor,
        !s.windows[i].was_iconic_last_tick,
        s.windows[i].last_layout is Some,
        desk.frame_of(s.windows[i].inner) is Some,
        200_000 <= s.screen_size.width - 2 * s.padding - 1000,
        ({
            let p = s.windows[i].last_layout->0;
            let f = desk.frame_of(s.windows[i].inner)->0;
            &&& magnitude((f.right - f.left) * 1000 - p.width) > 5_000
            &&& magnitude(f.right * 1000 - (p.x + p.width)) < 5_000
        }),
        0 <= k < s.snapped(snapshot, desk, tiling_hmonitor).windows.len(),
        s.snapped(snapshot, desk, tiling_hmonitor).windows[k].inner == s.windows[i].inner,
    ensures
        ({
            let r = s.snapped(snapshot, desk, tiling_hmonitor);
            let p = s.windows[i].last_layout->0;
            let f = desk.frame_of(s.windows[i].inner)->0;
            let seen = (f.right - f.left) * 1000;
            let widest = s.screen_size.width - 2 * s.padding - 1000;
            &&& 200_000 <= r.windows[k].width <= widest
            &&& 200_000 <= seen <= widest ==> r.windows[k].width == seen
            &&& seen < 200_000 ==> r.windows[k].width == 200_000
            &&& seen > widest ==> r.windows[k].width == widest
            &&& s.previously_focused_window_index == Some(k as usize) && i64::MIN
                <= s.scroll_offset + (r.windows[k].width - p.width) <= i64::MAX
                ==> r.scroll_offset == s.scroll_offset + (r.windows[k].width - p.width)
                && r.scroll_target is None
        }),
{
    let w = s.windows[i].inner;
    let r = s.snapped(snapshot, desk, tiling_hmonitor);
    let t = s.taken_in(snapshot, desk, tiling_hmonitor);
    let b = lemma_drag_survivor(s, snapshot, desk, tiling_hmonitor, i);
    let u = s.retained(snapshot, desk).undragged(desk, tiling_hmonitor);
    assert(u.left_resize(desk) == Some(b));
    let l = u.left_resized(desk);
    let d = l.diverged(desk).widths_updated(desk);
    assert(d.windows[b].width == l.windows[b].requested_width->0 && d.windows[b].inner == w);
    assert(l.scroll_target is None);
    assert(t.scroll_offset == l.scroll_offset && t.scroll_target == l.scroll_target);
    lemma_snapped(s, snapshot, desk, tiling_hmonitor);
    lemma_widened(s, snapshot, desk, tiling_hmonitor, d, b, k);
    assert(has_focus(r, desk, k));
    law_focused_tile_is_that_of_the_focused_window(r, desk, k);
}

/// The focused tile, where its window is on the monitor, outlives a drag.
#[verifier::rlimit(40)]
proof fn lemma_drag_survivor(
    s: Strip,
    snapshot: Seq<Window>,
    desk: Desktop,
    tiling_hmonitor: i64,
    i: int,
) -> (b: int)
    requires
        s.wf(),
        s.drag_ended(desk),
        has_focus(s, desk, i),
        snapshot.contains(s.windows[i].inner),
        desk.monitor_of(s.windows[i].inner) == tiling_hmonitor,
    ensures
        ({
            let u = s.retained(snapshot, desk).undragged(desk, tiling_hmonitor);
            &&& 0 <= b < u.windows.len()
            &&& u.windows[b] == s.windows[i].iconic_step(desk)
            &&& u.focus_index(desk) == Some(b)
        }),
{
    let w = s.windows[i].inner;
    let s1 = s.retained(snapshot, desk);
    let a = lemma_retained_tile(s, snapshot, desk, i);
    let x = s.windows[i].iconic_step(desk);
    assert(s1.windows[a] == x) by {
        assert(is_tiled(s1.windows, w));
    }
    let drag = drag_mask(s1.windows, desk, tiling_hmonitor);
    let u = s1.undragged(desk, tiling_hmonitor);
    assert(s1.drag_ended(desk));
    let b = if count_true(drag) > 2 {
        assert(u.windows == s1.windows);
        a
    } else {
        assert(u.windows == selected(s1.windows, negated(drag)));
        lemma_spared(s1.windows, drag, a)
    };
    assert(0 <= b < u.windows.len() && u.windows[b] == x);
    assert(distinct(u.windows)) by {
        lemma_selected(s1.windows, negated(drag));
    }
    lemma_focus_at(u.windows, desk, b);
    b
}

/// A tile that is not marked stays when the marked ones go.
proof fn lemma_spared(windows: Seq<WindowItem>, mask: Seq<bool>, a: int) -> (b: int)
    requires
        windows.len() == mask.len(),
        0 <= a < windows.len(),
        !mask[a],
    ensures
        0 <= b < selected(windows, negated(mask)).len(),
        selected(windows, negated(mask))[b] == windows[a],
{
    let rest = selected(windows, negated(mask));
    lemma_selected(windows, negated(mask));
    let x = windows[a];
    assert(negated(mask)[a]);
    choose|b: int| 0 <= b < rest.len() && #[trigger] rest[b] == x
}

/// The focused tile is the one of the window with the focus.
proof fn lemma_focus_at(windows: Seq<WindowItem>, desk: Desktop, b: int)
    requires
        distinct(windows),
        0 <= b < windows.len(),
        desk.focused(windows[b].inner),
    ensures
        first_true(focus_mask(windows, desk)) == Some(b),
{
    let mask = focus_mask(windows, desk);
    assert(mask[b]);
    assert forall|k: int| 0 <= k < b implies !mask[k] by {
        assert(windows[k].inner != windows[b].inner);
    }
    lemma_first_hit(mask, b);
}

/// A tile keeps its width while new windows are let in and the strip is laid out.
#[verifier::rlimit(40)]
proof fn lemma_widened(
    s: Strip,
    snapshot: Seq<Window>,
    desk: Desktop,
    tiling_hmonitor: i64,
    d: Strip,
    b: int,
    k: int,
)
    requires
        s.wf(),
        s.windows.len() + snapshot.len() <= MAX_WINDOWS,
        d == s.retained(snapshot, desk).drag_settled(desk, tiling_hmonitor).diverged(
            desk,
        ).widths_updated(desk),
        0 <= b < d.windows.len(),
        0 <= k < s.snapped(snapshot, desk, tiling_hmonitor).windows.len(),
        s.snapped(snapshot, desk, tiling_hmonitor).windows[k].inner == d.windows[b].inner,
    ensures
        s.snapped(snapshot, desk, tiling_hmonitor).windows[k].width == d.windows[b].width,
{
    let r = s.snapped(snapshot, desk, tiling_hmonitor);
    let t = s.taken_in(snapshot, desk, tiling_hmonitor);
    lemma_snapped(s, snapshot, desk, tiling_hmonitor);
    lemma_first_true(focus_mask(d.windows, desk));
    let n = lemma_opened_up(
        d.windows,
        snapshot,
        desk,
        tiling_hmonitor,
        d.append_at(desk),
        d.default_size() as i64,
        snapshot.len() as int,
    );
    let p = match d.append_at(desk) {
        Some(i) => i,
        None => d.windows.len() as int,
    };
    let at = if b < p {
        b
    } else {
        b + n
    };
    assert(t.windows[at] == d.windows[b]);
    assert(r.windows[at].inner == t.windows[at].inner);
    assert(at == k);
}

/// A look notes where it sees a window. Where the window has moved by more than a
/// pixel since the last look and is more than 5 pixels from where it was put, its
/// placement is forgotten, so that it is put there again; else it is kept. A
/// window that cannot be seen is no longer known to be anywhere.
pub proof fn law_strayed_windows_are_put_back(item: WindowItem, desk: Desktop)
    ensures
        ({
            let after = item.divergence_step(desk);
            &&& after.same_tile(item)
            &&& desk.iconic(item.inner) || desk.cloaked(item.inner)
                ==> after.last_observed_pos is None && after.last_layout == item.last_layout
            &&& !desk.iconic(item.inner) && !desk.cloaked(item.inner) ==> match desk.frame_of(
                item.inner,
            ) {
                None => after.last_observed_pos == item.last_observed_pos && after.last_layout
                    == item.last_layout,
                Some(f) => {
                    let x = f.left * 1000;
                    let y = f.top * 1000;
                    let seen = item.last_observed_pos;
                    let put = item.last_layout;
                    &&& after.last_observed_pos matches Some(o) && o.x == x && o.y == y
                    &&& after.last_layout == item.last_layout || after.last_layout is None
                    &&& (after.last_layout is None && put is Some) <==> (seen is Some && !(-1000
                        <= x - seen->0.x <= 1000 && -1000 <= y - seen->0.y <= 1000) && put is Some
                        && !(-5000 <= x - put->0.x <= 5000 && -5000 <= y - put->0.y <= 5000))
                },
            }
        }),
{
}

/// At rest every look does so: a visible tile that was there before is known
/// after it to be where it was seen.
#[verifier::rlimit(40)]
pub proof fn law_snapshot_notes_where_windows_are(
    s: Strip,
    snapshot: Seq<Window>,
    desk: Desktop,
    tiling_hmonitor: i64,
    i: int,
    k: int,
)
    requires
        s.wf(),
        s.windows.len() + snapshot.len() <= MAX_WINDOWS,
        !desk.mouse_held,
        !s.was_mouse_held_last_snapshot,
        !s.animating(),
        0 <= i < s.windows.len(),
        snapshot.contains(s.windows[i].inner),
        !desk.hidden(s.windows[i].inner),
        desk.frame_of(s.windows[i].inner) is Some,
        0 <= k < s.snapped(snapshot, desk, tiling_hmonitor).windows.len(),
        s.snapped(snapshot, desk, tiling_hmonitor).windows[k].inner == s.windows[i].inner,
    ensures
        ({
            let f = desk.frame_of(s.windows[i].inner)->0;
            s.snapped(
                snapshot,
                desk,
                tiling_hmonitor,
            ).windows[k].last_observed_pos matches Some(o) && o.x == f.left * 1000 && o.y == f.top
                * 1000
        }),
{
    let w = s.windows[i].inner;
    let x = s.windows[i];
    let r = s.snapped(snapshot, desk, tiling_hmonitor);
    let t = s.taken_in(snapshot, desk, tiling_hmonitor);
    let settled = s.retained(snapshot, desk).drag_settled(desk, tiling_hmonitor);
    lemma_snapped(s, snapshot, desk, tiling_hmonitor);
    assert(!settled.animating()) by {
        if settled.some_width_moves() {
            let mask = keep_mask(s.windows, snapshot, desk);
            lemma_selected(s.windows, mask);
            let chosen = selected(s.windows, mask);
            let m = choose|m: int|
                0 <= m < settled.windows.len() && (#[trigger] settled.windows[m]).width_animation
                    is Some;
            assert(settled.windows[m] == chosen[m].iconic_step(desk));
            let j = choose|j: int| 0 <= j < s.windows.len() && mask[j] && #[trigger] s.windows[j]
                == chosen[m];
            assert(s.windows[j].width_animation is Some);
            assert(s.some_width_moves());
        }
    }
    lemma_taken_in_order(s, snapshot, desk, tiling_hmonitor, i, i);
    let y = followed(x, desk, settled, s.max_screen_width());
    let (a, b) = choose|a: int, b: int|
        0 <= a <= b < t.windows.len() && #[trigger] t.windows[a] == y && #[trigger] t.windows[b]
            == y;
    assert(t.windows[a].inner == w);
    assert(r.windows[a].inner == t.windows[a].inner);
    assert(a == k);
    let f = t.focus_followed(desk);
    lemma_seen_kept(f, t.positions(desk), desk, k);
    if t.jumps(desk) && !t.smooth_scroll_enabled {
        let u = t.at_offset(t.focus_offset(desk));
        assert(u.wf());
        lemma_seen_kept(u, u.positions(desk), desk, k);
    }
}

/// A layout does not change where windows were seen.
proof fn lemma_seen_kept(s: Strip, pos: Seq<i64>, desk: Desktop, k: int)
    requires
        s.wf(),
        0 <= k < s.windows.len(),
    ensures
        s.laid(pos, desk).windows[k].last_observed_pos == s.windows[k].last_observed_pos,
{
    lemma_begun(s, desk);
}

/// While a mouse button is held, or anything is on its way, a look does not judge
/// where windows are: what is known of that stays, and with a button held so does
/// where they were put. A window restored from the taskbar is another matter, and
/// so is the end of a drag for the tiles it concerns.
#[verifier::rlimit(40)]
pub proof fn law_busy_snapshot_judges_no_places(
    s: Strip,
    snapshot: Seq<Window>,
    desk: Desktop,
    tiling_hmonitor: i64,
    i: int,
    k: int,
)
    requires
        s.wf(),
        s.windows.len() + snapshot.len() <= MAX_WINDOWS,
        desk.mouse_held || s.scroll_target is Some && !s.was_mouse_held_last_snapshot
            || s.scroll_animation is Some,
        0 <= i < s.windows.len(),
        accounted_for(snapshot, desk, s.windows[i].inner),
        s.drag_ended(desk) ==> left_alone(s.windows[i], desk, tiling_hmonitor),
        s.windows[i].was_iconic_last_tick ==> desk.iconic(s.windows[i].inner),
        0 <= k < s.snapped(snapshot, desk, tiling_hmonitor).windows.len(),
        s.snapped(snapshot, desk, tiling_hmonitor).windows[k].inner == s.windows[i].inner,
    ensures
        ({
            let r = s.snapped(snapshot, desk, tiling_hmonitor).windows[k];
            &&& r.last_observed_pos == s.windows[i].last_observed_pos
            &&& desk.mouse_held ==> r.last_layout == s.windows[i].last_layout
        }),
{
    let x = s.windows[i];
    let r = s.snapped(snapshot, desk, tiling_hmonitor);
    let t = s.taken_in(snapshot, desk, tiling_hmonitor);
    let settled = s.retained(snapshot, desk).drag_settled(desk, tiling_hmonitor);
    lemma_snapped(s, snapshot, desk, tiling_hmonitor);
    lemma_taken_in_order(s, snapshot, desk, tiling_hmonitor, i, i);
    let y = followed(x, desk, settled, s.max_screen_width());
    let (a, b) = choose|a: int, b: int|
        0 <= a <= b < t.windows.len() && #[trigger] t.windows[a] == y && #[trigger] t.windows[b]
            == y;
    assert(t.windows[a].inner == x.inner);
    assert(r.windows[a].inner == t.windows[a].inner);
    assert(a == k);
    let f = t.focus_followed(desk);
    lemma_seen_kept(f, t.positions(desk), desk, k);
    if t.jumps(desk) && !t.smooth_scroll_enabled {
        let u = t.at_offset(t.focus_offset(desk));
        assert(u.wf());
        lemma_seen_kept(u, u.positions(desk), desk, k);
    }
}

/// A snapshot does not change how the strip is set up.
pub proof fn lemma_snapped_settings(
    s: Strip,
    snapshot: Seq<Window>,
    desk: Desktop,
    tiling_hmonitor: i64,
)
    requires
        s.wf(),
        s.windows.len() + snapshot.len() <= MAX_WINDOWS,
    ensures
        ({
            let r = s.snapped(snapshot, desk, tiling_hmonitor);
            &&& r.wf()
            &&& r.padding == s.padding
            &&& r.screen_size == s.screen_size
            &&& r.smooth_scroll_enabled == s.smooth_scroll_enabled
        }),
{
    lemma_snapped(s, snapshot, desk, tiling_hmonitor);
}

/// Following the focus leaves a valid strip.
pub proof fn lemma_followed_wf(t: Strip, desk: Desktop)
    requires
        t.wf(),
    ensures
        t.focus_followed(desk).wf(),
        t.focus_followed(desk).throttle_slow_apps == t.throttle_slow_apps,
{
    if t.jumps(desk) && !t.smooth_scroll_enabled {
        let u = t.at_offset(t.focus_offset(desk));
        assert(u.wf());
        lemma_laid_wf(u, u.positions(desk), desk);
    }
}

} // verus!
