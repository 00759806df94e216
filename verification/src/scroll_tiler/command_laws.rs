//! What the commands on the focused window and on the order of the strip do.
use vstd::prelude::*;

use crate::geometry::PX;
use crate::scroll_tiler::commands::{visible_from, visible_until, Direction};
use crate::scroll_tiler::item::WindowItem;
use crate::scroll_tiler::strip::{focus_mask, Strip};
use crate::search::{first_true, lemma_first_true};
use crate::window::Desktop;

verus! {

/// Tile `i` belongs to the window with the focus.
pub open spec fn has_focus(s: Strip, desk: Desktop, i: int) -> bool {
    0 <= i < s.windows.len() && desk.valid(s.windows[i].inner) && desk.foreground == Some(
        s.windows[i].inner,
    )
}

pub open spec fn nothing_focused(s: Strip, desk: Desktop) -> bool {
    forall|k: int| 0 <= k < s.windows.len() ==> !#[trigger] has_focus(s, desk, k)
}

/// The focused tile is the one of the window that has the focus, and there is
/// one wherever such a tile is there.
pub proof fn law_focused_tile_is_that_of_the_focused_window(s: Strip, desk: Desktop, i: int)
    requires
        s.wf(),
    ensures
        has_focus(s, desk, i) <==> s.focus_index(desk) == Some(i),
        nothing_focused(s, desk) <==> s.focus_index(desk) is None,
{
    let mask = focus_mask(s.windows, desk);
    lemma_first_true(mask);
    if has_focus(s, desk, i) {
        assert(mask[i]);
        let j = first_true(mask)->0;
        assert(mask[j]);
        if j != i {
            assert(s.windows[j].inner == s.windows[i].inner);
        }
    }
    match s.focus_index(desk) {
        Some(j) => {
            assert(mask[j]);
            assert(has_focus(s, desk, j));
        },
        None => {
            assert forall|k: int| 0 <= k < s.windows.len() implies !#[trigger] has_focus(
                s,
                desk,
                k,
            ) by {
                assert(!mask[k]);
            }
        },
    }
}

/// Tile `j` is the nearest visible one on one side of place `b`.
pub open spec fn nearest_visible(
    s: Strip,
    desk: Desktop,
    b: int,
    direction: Direction,
    j: int,
) -> bool {
    &&& 0 <= j < s.windows.len()
    &&& !desk.iconic(s.windows[j].inner)
    &&& !desk.cloaked(s.windows[j].inner)
    &&& match direction {
        Direction::Left => j < b && forall|k: int|
            j < k < b && k < s.windows.len() ==> desk.hidden((#[trigger] s.windows[k]).inner),
        Direction::Right => b < j && forall|k: int|
            b < k < j ==> desk.hidden((#[trigger] s.windows[k]).inner),
    }
}

/// No tile on that side of place `b` is visible.
pub open spec fn none_visible(s: Strip, desk: Desktop, b: int, direction: Direction) -> bool {
    forall|k: int|
        0 <= k < s.windows.len() && (match direction {
            Direction::Left => k < b,
            Direction::Right => b < k,
        }) ==> desk.hidden((#[trigger] s.windows[k]).inner)
}

proof fn lemma_right(windows: Seq<WindowItem>, desk: Desktop, from: int)
    requires
        0 <= from,
    ensures
        match visible_from(windows, desk, from) {
            Some(j) => from <= j < windows.len() && !desk.hidden(windows[j].inner) && forall|k: int|
                from <= k < j ==> desk.hidden((#[trigger] windows[k]).inner),
            None => forall|k: int|
                from <= k < windows.len() ==> desk.hidden((#[trigger] windows[k]).inner),
        },
    decreases windows.len() - from,
{
    if from < windows.len() && desk.hidden(windows[from].inner) {
        lemma_right(windows, desk, from + 1);
    }
}

proof fn lemma_left(windows: Seq<WindowItem>, desk: Desktop, from: int)
    requires
        from < windows.len(),
    ensures
        match visible_until(windows, desk, from) {
            Some(j) => 0 <= j <= from && !desk.hidden(windows[j].inner) && forall|k: int|
                j < k <= from ==> desk.hidden((#[trigger] windows[k]).inner),
            None => forall|k: int|
                0 <= k <= from ==> desk.hidden((#[trigger] windows[k]).inner),
        },
    decreases from + 1,
{
    if 0 <= from && desk.hidden(windows[from].inner) {
        lemma_left(windows, desk, from - 1);
    }
}

/// The next visible tile is the nearest one on its side: every tile strictly
/// between is hidden. There is none only where no tile on that side is visible.
pub proof fn law_next_visible_tile_is_the_nearest(
    s: Strip,
    desk: Desktop,
    start: int,
    direction: Direction,
)
    requires
        0 <= start <= s.windows.len(),
    ensures
        match s.next_visible(desk, start, direction) {
            Some(j) => nearest_visible(s, desk, start, direction, j),
            None => none_visible(s, desk, start, direction),
        },
{
    lemma_right(s.windows, desk, start + 1);
    lemma_left(s.windows, desk, start - 1);
}

/// The place that a step of the focus starts from: the tile with the focus, or
/// else the one that had it before, or else the first.
pub open spec fn steps_from(s: Strip, desk: Desktop, b: int) -> bool {
    ||| has_focus(s, desk, b)
    ||| nothing_focused(s, desk) && s.previously_focused_window_index == Some(b as usize) && 0 <= b
        <= usize::MAX
    ||| nothing_focused(s, desk) && s.previously_focused_window_index is None && b == 0
        && s.windows.len() > 0
}

/// Stepping the focus goes to the nearest visible tile on that side; where there
/// is none, nowhere.
pub proof fn law_focus_steps_to_the_nearest_visible_tile(
    s: Strip,
    desk: Desktop,
    direction: Direction,
    b: int,
)
    requires
        s.wf(),
        steps_from(s, desk, b),
        b <= s.windows.len(),
    ensures
        match s.focus_target(desk, direction) {
            Some(w) => exists|j: int|
                #[trigger] nearest_visible(s, desk, b, direction, j) && s.windows[j].inner == w,
            None => none_visible(s, desk, b, direction),
        },
{
    law_focused_tile_is_that_of_the_focused_window(s, desk, b);
    assert(s.focus_base(desk) == Some(b));
    law_next_visible_tile_is_the_nearest(s, desk, b, direction);
    match s.next_visible(desk, b, direction) {
        Some(j) => {
            assert(nearest_visible(s, desk, b, direction, j));
        },
        None => {},
    }
}

/// Swapping exchanges the focused tile with the one next to it. At the end of
/// the strip, and without a focused tile, nothing changes.
pub proof fn law_swap_exchanges_neighbours(s: Strip, desk: Desktop, direction: Direction, i: int)
    requires
        s.wf(),
    ensures
        nothing_focused(s, desk) ==> s.swapped(desk, direction) == s,
        has_focus(s, desk, i) ==> {
            let j = match direction {
                Direction::Left => i - 1,
                Direction::Right => i + 1,
            };
            let r = s.swapped(desk, direction).windows;
            &&& r.len() == s.windows.len()
            &&& if 0 <= j < s.windows.len() {
                &&& r[i] == s.windows[j]
                &&& r[j] == s.windows[i]
                &&& forall|k: int|
                    0 <= k < r.len() && k != i && k != j ==> #[trigger] r[k] == s.windows[k]
            } else {
                r =~= s.windows
            }
        },
{
    law_focused_tile_is_that_of_the_focused_window(s, desk, i);
}

/// A width that is asked for is asked for the focused tile alone.
pub proof fn law_width_is_asked_for_the_focused_tile(s: Strip, desk: Desktop, width: int, i: int)
    requires
        s.wf(),
        i64::MIN <= width <= i64::MAX,
        has_focus(s, desk, i),
    ensures
        ({
            let r = s.width_requested(desk, width).windows;
            &&& r.len() == s.windows.len()
            &&& r[i].requested_width == Some(width as i64)
            &&& r[i].width == s.windows[i].width
            &&& forall|k: int| 0 <= k < r.len() && k != i ==> #[trigger] r[k] == s.windows[k]
        }),
{
    law_focused_tile_is_that_of_the_focused_window(s, desk, i);
}

/// The widest tile leaves one pixel of the screen beside it and its gaps. Two
/// tiles of half the screen fill it with their gaps, and so do four new tiles,
/// but for what does not divide.
pub proof fn law_named_widths_fill_the_screen(s: Strip)
    ensures
        s.max_screen_width() + 2 * s.padding + PX == s.screen_size.width,
        0 <= s.screen_size.width - 2 * (s.half_screen_width() + 2 * s.padding) < 2,
        0 <= s.screen_size.width - 4 * (s.default_size() + 2 * s.padding) < 4,
{
}

/// A step makes the focused tile wider or narrower by the resize step, as far as
/// a tile may be that narrow or wide.
pub proof fn law_resize_steps_by_the_increment(s: Strip, desk: Desktop, i: int, grow: bool)
    requires
        s.wf(),
        has_focus(s, desk, i),
        0 <= s.max_screen_width(),
    ensures
        ({
            let wanted = if grow {
                s.windows[i].width + s.resize_increment
            } else {
                s.windows[i].width - s.resize_increment
            };
            let w = s.stepped_width(desk, grow);
            &&& 0 <= w <= s.max_screen_width()
            &&& 0 <= wanted <= s.max_screen_width() ==> w == wanted
            &&& wanted < 0 ==> w == 0
            &&& wanted > s.max_screen_width() ==> w == s.max_screen_width()
        }),
{
    law_focused_tile_is_that_of_the_focused_window(s, desk, i);
}

} // verus!
