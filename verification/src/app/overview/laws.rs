//! What the overview shows and what the mouse does in it.
use vstd::prelude::*;

use crate::app::overview::grid::{grid_columns, grid_rows, law_grid_stays_on_the_screen};
use crate::app::overview::thumbnail::{
    data_ok, law_thumbnails_stand_in_a_row, ThumbnailLayout, ThumbnailRect, WindowData,
};
use crate::app::overview::{
    data_mask, hit, hit_mask, menu_texts, replaced_rect, window_id_mask, MonitorOverview,
    ReleaseOutcome, State, Thumbnail,
};
use crate::app::overview_mode::{
    app_ignored, bound_ids, data_of, floating_windows, labels, monitor_move, monitor_size,
    offscreen_moves, override_mask, overview_window, strip_data, visible_tiles, window_ids,
    window_ignored, windows_shown, Binding, IgnoreStep, MoveError, ThumbnailLabel,
};
use crate::app::tiling::{hmonitor_of, snapshot_windows};
use crate::app::view::{drawable, label_of};
use crate::app::Surroundings;
use crate::config::Config;
use crate::geometry::{Position, Size};
use crate::monitor::{name_mask, Monitor, MonitorError};
use crate::scroll_tiler::item::WindowItem;
use crate::scroll_tiler::strip::{is_tiled, tile_mask, Strip};
use crate::search::{lemma_first_hit, lemma_first_miss, lemma_first_true};
use crate::text::{decimal, lowercase, occurs_in};
use crate::window::filter::{
    law_ordinary_windows_are_tiled, ordinary, tile_verdict, unobjected, QueryFailed,
};
use crate::window::{
    centered_extent, centered_start, law_moved_window_is_in_the_middle, padded_on, Desktop,
    InvalidHandle, PixelRect, Window,
};

verus! {

/// The point is on the thumbnail.
pub open spec fn lies_on(t: Thumbnail, at: Position) -> bool {
    &&& t.rect.x <= at.x < t.rect.x + t.rect.width
    &&& t.rect.y <= at.y < t.rect.y + t.rect.height
}

/// The thumbnail at a point is the first that the point is on; there is none
/// only where the point is on none.
pub proof fn law_point_hits_the_thumbnail_it_lies_on(
    thumbnails: Seq<Thumbnail>,
    at: Position,
    i: int,
)
    ensures
        match hit(thumbnails, at) {
            Some(k) => 0 <= k < thumbnails.len() && lies_on(thumbnails[k], at) && (0 <= i < k
                ==> !lies_on(thumbnails[i], at)),
            None => 0 <= i < thumbnails.len() ==> !lies_on(thumbnails[i], at),
        },
{
    let mask = hit_mask(thumbnails, at);
    lemma_first_true(mask);
    if 0 <= i < thumbnails.len() {
        assert(mask[i] == lies_on(thumbnails[i], at));
    }
    match hit(thumbnails, at) {
        Some(k) => {
            assert(mask[k]);
        },
        None => {},
    }
}

/// Pressed on one thumbnail and released where the cursor is then: within five
/// pixels it is a click on what is under the cursor; further away the thumbnail
/// pressed on goes to the place of the one under the cursor, unless that is the
/// same.
pub proof fn law_press_and_release(m: MonitorOverview, down: Position, up: Position, s: int, d: int)
    requires
        m.context_menu is None,
        m.cursor_pos == Some(down),
        m.thumbnails@.len() <= usize::MAX,
        0 <= s < m.thumbnails@.len(),
        0 <= d < m.thumbnails@.len(),
        hit(m.thumbnails@, down) == Some(s),
    ensures
        ({
            let held = m.after_press(None);
            let moved = MonitorOverview { cursor_pos: Some(up), ..held };
            let near = (up.x - down.x) * (up.x - down.x) + (up.y - down.y) * (up.y - down.y)
                <= 25_000_000;
            &&& hit(m.thumbnails@, up) is None ==> moved.outcome() is None
            &&& hit(m.thumbnails@, up) == Some(d) && near ==> moved.outcome() == Some(
                ReleaseOutcome::Click(m.thumbnails@[d].src),
            )
            &&& hit(m.thumbnails@, up) == Some(d) && !near && d != s ==> moved.outcome() == Some(
                ReleaseOutcome::Reorder { src: m.thumbnails@[s].src, dst: m.thumbnails@[d].src },
            )
            &&& hit(m.thumbnails@, up) == Some(d) && !near && d == s ==> moved.outcome() is None
        }),
{
}

/// A drag is drawn once the cursor has left the range of a click, and while it is
/// in that range nothing is.
pub proof fn law_drag_is_drawn_out_of_range_of_a_click(
    m: MonitorOverview,
    down: Position,
    up: Position,
    s: usize,
)
    requires
        m.press_pos == Some(down),
        m.cursor_pos == Some(up),
        m.drag_source_idx == Some(s),
    ensures
        ({
            let near = (up.x - down.x) * (up.x - down.x) + (up.y - down.y) * (up.y - down.y)
                <= 25_000_000;
            &&& near ==> m.drag() is None
            &&& !near ==> m.drag() == Some((s, up, hit(m.thumbnails@, up)))
        }),
{
}

/// The mouse in the window of one monitor changes nothing on the others.
pub proof fn law_mouse_concerns_one_monitor(o: State, window_id: u64, at: Position, i: int, k: int)
    requires
        0 <= i < o.monitors@.len(),
        0 <= k < o.monitors@.len(),
        o.monitors@[i].window_id == window_id,
        forall|j: int| 0 <= j < i ==> (#[trigger] o.monitors@[j]).window_id != window_id,
    ensures
        o.cursor_moved(window_id, at).len() == o.monitors@.len(),
        o.mouse_pressed(window_id).len() == o.monitors@.len(),
        o.released(window_id).len() == o.monitors@.len(),
        k != i ==> o.cursor_moved(window_id, at)[k] == o.monitors@[k],
        k != i ==> o.mouse_pressed(window_id)[k] == o.monitors@[k],
        k != i ==> o.released(window_id)[k] == o.monitors@[k],
        o.cursor_moved(window_id, at)[i].cursor_pos == Some(at),
        o.released(window_id)[i].press_pos is None,
        o.released(window_id)[i].drag_source_idx is None,
        o.monitors@[i].context_menu is None ==> o.mouse_pressed(window_id)[i].press_pos
            == o.monitors@[i].cursor_pos,
        o.monitors@[i].context_menu is Some ==> o.mouse_pressed(window_id)[i].press_pos is None,
        o.release_meaning(window_id) == o.monitors@[i].outcome(),
{
    lemma_first_hit(window_id_mask(o.monitors@, window_id), i);
}

/// The menu of a window offers every monitor but its own, in their order. The
/// primary one goes by that name, any other by the number of its place in the
/// menu, from two on.
pub proof fn law_menu_offers_the_other_monitors(monitors: Seq<Monitor>, ours: i64, i: int) -> (j:
    int)
    requires
        0 <= i < monitors.len(),
        monitors[i].hmonitor != ours,
    ensures
        ({
            let all = menu_texts(monitors, ours, monitors.len() as int);
            &&& 0 <= j < all.len()
            &&& all[j].device_name == monitors[i].device_name@
            &&& monitors[i].is_primary ==> all[j].label == "Move to primary monitor"@
            &&& !monitors[i].is_primary ==> all[j].label == "Move to monitor "@ + decimal(
                (j + 2) as nat,
            )
        }),
{
    lemma_offered(monitors, ours, monitors.len() as int, i)
}

proof fn lemma_offered(monitors: Seq<Monitor>, ours: i64, upto: int, i: int) -> (j: int)
    requires
        0 <= i < upto <= monitors.len(),
        monitors[i].hmonitor != ours,
    ensures
        ({
            let all = menu_texts(monitors, ours, upto);
            &&& 0 <= j < all.len()
            &&& all[j].device_name == monitors[i].device_name@
            &&& monitors[i].is_primary ==> all[j].label == "Move to primary monitor"@
            &&& !monitors[i].is_primary ==> all[j].label == "Move to monitor "@ + decimal(
                (j + 2) as nat,
            )
        }),
    decreases upto,
{
    if i == upto - 1 {
        menu_texts(monitors, ours, upto - 1).len() as int
    } else {
        lemma_offered(monitors, ours, upto - 1, i)
    }
}

/// The menu offers no monitor but the others.
pub proof fn law_menu_offers_nothing_else(monitors: Seq<Monitor>, ours: i64, j: int) -> (i: int)
    requires
        0 <= j < menu_texts(monitors, ours, monitors.len() as int).len(),
    ensures
        0 <= i < monitors.len(),
        monitors[i].hmonitor != ours,
        menu_texts(monitors, ours, monitors.len() as int)[j].device_name
            == monitors[i].device_name@,
{
    lemma_offer_comes_from(monitors, ours, monitors.len() as int, j)
}

proof fn lemma_offer_comes_from(monitors: Seq<Monitor>, ours: i64, upto: int, j: int) -> (i: int)
    requires
        0 <= upto <= monitors.len(),
        0 <= j < menu_texts(monitors, ours, upto).len(),
    ensures
        0 <= i < upto,
        monitors[i].hmonitor != ours,
        menu_texts(monitors, ours, upto)[j].device_name == monitors[i].device_name@,
    decreases upto,
{
    let before = menu_texts(monitors, ours, upto - 1);
    if j < before.len() {
        lemma_offer_comes_from(monitors, ours, upto - 1, j)
    } else {
        upto - 1
    }
}

/// A visible tile is shown.
proof fn lemma_tile_shown(windows: Seq<WindowItem>, desk: Desktop, upto: int, w: Window)
    requires
        0 <= upto <= windows.len(),
    ensures
        visible_tiles(windows, desk, upto).contains(w) <==> !desk.hidden(w) && exists|i: int|
            0 <= i < upto && (#[trigger] windows[i]).inner == w,
    decreases upto,
{
    if upto > 0 {
        lemma_tile_shown(windows, desk, upto - 1, w);
        let before = visible_tiles(windows, desk, upto - 1);
        let r = visible_tiles(windows, desk, upto);
        let v = windows[upto - 1].inner;
        lemma_push_contains(before, v, w);
        if exists|i: int| 0 <= i < upto - 1 && (#[trigger] windows[i]).inner == w {
            let i = choose|i: int| 0 <= i < upto - 1 && (#[trigger] windows[i]).inner == w;
            assert(0 <= i < upto && windows[i].inner == w);
        }
        if v == w {
            assert(windows[upto - 1].inner == w);
        }
    }
}

proof fn lemma_push_contains(s: Seq<Window>, v: Window, w: Window)
    ensures
        s.push(v).contains(w) <==> s.contains(w) || v == w,
{
    let r = s.push(v);
    if s.contains(w) {
        let k = choose|k: int| 0 <= k < s.len() && s[k] == w;
        assert(r[k] == w);
    }
    if v == w {
        assert(r[s.len() as int] == w);
    }
    if r.contains(w) {
        let k = choose|k: int| 0 <= k < r.len() && r[k] == w;
        if k < s.len() {
            assert(s[k] == w);
        }
    }
}

proof fn lemma_floating_shown(
    all: Seq<Window>,
    tiles: Seq<WindowItem>,
    desk: Desktop,
    hmonitor: i64,
    upto: int,
    w: Window,
)
    requires
        0 <= upto <= all.len(),
    ensures
        floating_windows(all, tiles, desk, hmonitor, upto).contains(w) <==> !is_tiled(tiles, w)
            && desk.monitor_of(w) == hmonitor && !desk.hidden(w) && exists|i: int|
            0 <= i < upto && #[trigger] all[i] == w,
    decreases upto,
{
    if upto > 0 {
        lemma_floating_shown(all, tiles, desk, hmonitor, upto - 1, w);
        let before = floating_windows(all, tiles, desk, hmonitor, upto - 1);
        let v = all[upto - 1];
        lemma_push_contains(before, v, w);
        if exists|i: int| 0 <= i < upto - 1 && #[trigger] all[i] == w {
            let i = choose|i: int| 0 <= i < upto - 1 && #[trigger] all[i] == w;
            assert(0 <= i < upto && all[i] == w);
        }
        if v == w {
            assert(all[upto - 1] == w);
        }
    }
}

/// The overview of a monitor shows the visible windows that belong there, and no
/// others: all tiles on the tiling monitor, and every other window that is to be
/// tiled on the monitor it is on.
pub proof fn law_overview_shows_the_windows_of_a_monitor(
    s: Strip,
    env: Surroundings,
    cfg: Config,
    hmonitor: i64,
    w: Window,
)
    ensures
        windows_shown(s, env, cfg, hmonitor).contains(w) <==> !env.desk.iconic(w)
            && !env.desk.cloaked(w) && if is_tiled(s.windows, w) {
            hmonitor_of(env, cfg) == Ok::<i64, MonitorError>(hmonitor)
        } else {
            env.enumerated && snapshot_windows(env, cfg).contains(w) && env.desk.monitor_of(w)
                == hmonitor
        },
{
    let all = snapshot_windows(env, cfg);
    let n = s.windows.len() as int;
    lemma_tile_shown(s.windows, env.desk, n, w);
    lemma_floating_shown(all, s.windows, env.desk, hmonitor, all.len() as int, w);
    let tiled = if hmonitor_of(env, cfg) == Ok::<i64, MonitorError>(hmonitor) {
        visible_tiles(s.windows, env.desk, n)
    } else {
        seq![]
    };
    let floating = floating_windows(all, s.windows, env.desk, hmonitor, all.len() as int);
    let both = tiled + floating;
    assert(both.contains(w) <==> tiled.contains(w) || floating.contains(w)) by {
        if tiled.contains(w) {
            let k = choose|k: int| 0 <= k < tiled.len() && tiled[k] == w;
            assert(both[k] == w);
        }
        if floating.contains(w) {
            let k = choose|k: int| 0 <= k < floating.len() && floating[k] == w;
            assert(both[tiled.len() + k] == w);
        }
        if both.contains(w) {
            let k = choose|k: int| 0 <= k < both.len() && both[k] == w;
            if k < tiled.len() {
                assert(tiled[k] == w);
            } else {
                assert(floating[k - tiled.len()] == w);
            }
        }
    }
    assert(is_tiled(s.windows, w) <==> exists|i: int|
        0 <= i < n && (#[trigger] s.windows[i]).inner == w);
    assert(all.contains(w) <==> exists|i: int| 0 <= i < all.len() && #[trigger] all[i] == w);
}

/// The thumbnail of a tile is scaled from the width of the tile; that of another
/// window from the size of its frame, and where that is not known, from 800 by
/// 600 pixels.
pub proof fn law_thumbnails_are_scaled_from_their_windows(
    s: Strip,
    desk: Desktop,
    w: Window,
    i: int,
)
    requires
        s.wf(),
    ensures
        data_of(s, desk, w).inner == w,
        0 <= i < s.windows.len() && s.windows[i].inner == w ==> data_of(s, desk, w).width
            == s.windows[i].width,
        !is_tiled(s.windows, w) ==> match desk.frame_of(w) {
            Some(f) => data_of(s, desk, w).width == (f.right - f.left) * 1000 && data_of(
                s,
                desk,
                w,
            ).height == (f.bottom - f.top) * 1000,
            None => data_of(s, desk, w).width == 800_000 && data_of(s, desk, w).height == 600_000,
        },
{
    let mask = tile_mask(s.windows, w);
    lemma_first_true(mask);
    if 0 <= i < s.windows.len() && s.windows[i].inner == w {
        assert(mask[i]);
        let j = crate::search::first_true(mask)->0;
        assert(mask[j]);
        assert(s.windows[j].inner == s.windows[i].inner);
        assert(i == j);
    }
    if !is_tiled(s.windows, w) {
        assert forall|k: int| 0 <= k < mask.len() implies !mask[k] by {
            assert(s.windows[k].inner != w);
        }
        lemma_first_miss(mask);
    }
}

/// Behind the overview every tile whose frame is known is put off the screen,
/// its right edge 100 pixels to the left of it.
pub proof fn law_tiles_go_off_the_screen(
    windows: Seq<WindowItem>,
    desk: Desktop,
    upto: int,
    k: int,
)
    requires
        0 <= upto <= windows.len(),
        0 <= k < offscreen_moves(windows, desk, upto).len(),
    ensures
        ({
            let m = offscreen_moves(windows, desk, upto)[k];
            &&& exists|i: int| 0 <= i < upto && (#[trigger] windows[i]).inner == m.window
            &&& desk.frame_of(m.window) matches Some(f) && (0 <= f.right - f.left <= 1_000_000
                ==> m.x + (f.right - f.left) == -100)
        }),
    decreases upto,
{
    let before = offscreen_moves(windows, desk, upto - 1);
    if k < before.len() {
        law_tiles_go_off_the_screen(windows, desk, upto - 1, k);
        let m = offscreen_moves(windows, desk, upto)[k];
        let i = choose|i: int| 0 <= i < upto - 1 && (#[trigger] windows[i]).inner == m.window;
        assert(0 <= i < upto && windows[i].inner == m.window);
    } else {
        assert(windows[upto - 1].inner == offscreen_moves(windows, desk, upto)[k].window);
        let f = desk.frame_of(windows[upto - 1].inner)->0;
        let d = f.right - f.left;
        assert(-(d * 1000 + 100 * 1000) == -1000 * (d + 100));
    }
}

/// Every tile whose frame is known is put off the screen.
pub proof fn law_no_tile_is_left_on_the_screen(
    windows: Seq<WindowItem>,
    desk: Desktop,
    upto: int,
    i: int,
) -> (k: int)
    requires
        0 <= i < upto <= windows.len(),
        desk.frame_of(windows[i].inner) is Some,
    ensures
        0 <= k < offscreen_moves(windows, desk, upto).len(),
        offscreen_moves(windows, desk, upto)[k].window == windows[i].inner,
    decreases upto,
{
    if i == upto - 1 {
        offscreen_moves(windows, desk, upto - 1).len() as int
    } else {
        law_no_tile_is_left_on_the_screen(windows, desk, upto - 1, i)
    }
}

/// After a drag in the overview every thumbnail of a window that is laid out is
/// where the layout has that window.
pub proof fn law_thumbnails_follow_the_layout(
    t: Thumbnail,
    windows: Seq<WindowData>,
    layouts: Seq<ThumbnailLayout>,
    i: int,
)
    requires
        windows.len() == layouts.len(),
        0 <= i < windows.len(),
        windows[i].inner == t.src,
        forall|k: int| 0 <= k < i ==> (#[trigger] windows[k]).inner != t.src,
    ensures
        replaced_rect(t, windows, layouts) == (Thumbnail { rect: layouts[i].rect, ..t }),
{
    lemma_first_hit(data_mask(windows, t.src), i);
}

/// The row of the overview holds the visible tiles in their order, each with its
/// width.
pub proof fn law_row_holds_the_visible_tiles(s: Strip, desk: Desktop, upto: int, i: int, j: int) -> (
r: (int, int))
    requires
        0 <= i <= j < upto <= s.windows.len(),
        !desk.hidden(s.windows[i].inner),
        !desk.hidden(s.windows[j].inner),
    ensures
        ({
            let row = strip_data(s, desk, upto);
            &&& 0 <= r.0 <= r.1 < row.len()
            &&& i < j ==> r.0 < r.1
            &&& row[r.0].inner == s.windows[i].inner
            &&& row[r.0].width == s.windows[i].width
            &&& row[r.1].inner == s.windows[j].inner
            &&& row[r.1].width == s.windows[j].width
        }),
    decreases upto,
{
    if j < upto - 1 {
        law_row_holds_the_visible_tiles(s, desk, upto - 1, i, j)
    } else if i == j {
        let at = strip_data(s, desk, upto - 1).len() as int;
        (at, at)
    } else {
        let (a, b) = law_row_holds_the_visible_tiles(s, desk, upto - 1, i, i);
        (a, strip_data(s, desk, upto - 1).len() as int)
    }
}

/// The first override whose text stands in the path of the executable, letter
/// case aside, names the thumbnail and gives it its icon.
pub proof fn law_first_override_names_the_thumbnail(
    label: ThumbnailLabel,
    cfg: Config,
    desk: Desktop,
    w: Window,
    path: Seq<char>,
    i: int,
)
    requires
        labels(label, cfg, desk, w),
        desk.path_of(w) == Some(path),
        0 <= i < cfg.app_overrides@.len(),
        occurs_in(lowercase(path), lowercase(cfg.app_overrides@[i].exe_path_contains@)),
        forall|k: int|
            0 <= k < i ==> !occurs_in(
                lowercase(path),
                lowercase((#[trigger] cfg.app_overrides@[k]).exe_path_contains@),
            ),
    ensures
        label.app_name@ == cfg.app_overrides@[i].display_name@,
        label.icon_path == cfg.app_overrides@[i].icon_path,
{
    let mask = override_mask(cfg.app_overrides@, path);
    assert(mask[i]);
    assert forall|k: int| 0 <= k < i implies !mask[k] by {
        assert(!occurs_in(lowercase(path), lowercase(cfg.app_overrides@[k].exe_path_contains@)));
    }
    lemma_first_hit(mask, i);
}

/// The label stands below its thumbnail and is no wider. The icon, if there is
/// one, is on its left, the name right of that, and the title below both.
pub proof fn law_label_stands_below_its_thumbnail(rect: ThumbnailRect, has_icon: bool)
    requires
        drawable(rect),
        rect.width >= 30_000,
        rect.height >= 0,
    ensures
        ({
            let l = label_of(rect, has_icon);
            let bottom = rect.y + rect.height;
            &&& l.icon is Some <==> has_icon
            &&& l.name_at.y > bottom
            &&& l.name_at.x + l.name_width == rect.x + rect.width
            &&& !has_icon ==> l.name_at.x == rect.x
            &&& has_icon ==> (l.icon matches Some(p) && p.x == rect.x && p.y > bottom && p.width
                == p.height && p.x + p.width < l.name_at.x && p.y + p.height < l.title_at.y)
            &&& l.title_at.x == rect.x
            &&& l.title_width == rect.width
            &&& l.title_at.y > l.name_at.y
        }),
{
}

/// On the tiling monitor the thumbnails stand in a row, ten pixels apart. On
/// another one they stand in a grid, sixteen pixels from the edges and from each
/// other, where there is room for that.
pub proof fn law_thumbnails_stand_in_a_row_or_a_grid(
    state: crate::app::State,
    env: Surroundings,
    cfg: Config,
    raw_handle: u64,
    m: Monitor,
    b: Binding,
    i: int,
)
    requires
        state.binds(env, cfg, raw_handle, m, b),
        data_ok(b.windows@),
        monitor_size(m).ok(),
        0 <= i < b.windows@.len(),
    ensures
        ({
            let r = b.layouts@;
            let wide = (m.work_area.right - m.work_area.left) * 1000;
            let high = (m.work_area.bottom - m.work_area.top) * 1000;
            let n = b.windows@.len() as int;
            let columns = grid_columns(n, monitor_size(m));
            &&& b.dest.hwnd == raw_handle
            &&& r.len() == b.windows@.len()
            &&& hmonitor_of(env, cfg) == Ok::<i64, MonitorError>(m.hmonitor) && i + 1 < n
                ==> r[i + 1].rect.x == r[i].rect.x + r[i].rect.width + 10_000 && r[i + 1].rect.y
                == r[i].rect.y
            &&& hmonitor_of(env, cfg) != Ok::<i64, MonitorError>(m.hmonitor) && 16_000 * (columns
                + 1) <= wide && 16_000 * (grid_rows(n, columns) + 1) <= high ==> 16_000
                <= r[i].rect.x && r[i].rect.x + r[i].rect.width <= wide - 16_000 && 16_000
                <= r[i].rect.y && r[i].rect.y + r[i].rect.height <= high - 16_000
        }),
{
    let size = monitor_size(m);
    if hmonitor_of(env, cfg) == Ok::<i64, MonitorError>(m.hmonitor) {
        if i + 1 < b.windows@.len() {
            law_thumbnails_stand_in_a_row(b.windows@, size, 10_000, i);
        }
    } else {
        let n = b.windows@.len() as int;
        let columns = grid_columns(n, size);
        if 16_000 * (columns + 1) <= size.width && 16_000 * (grid_rows(n, columns) + 1)
            <= size.height {
            law_grid_stays_on_the_screen(b.windows@, size, 16_000, i);
        }
    }
}

/// Closing the overview lets go of every thumbnail and closes every one of its
/// windows.
pub proof fn law_closing_lets_go_of_everything(
    monitors: Seq<MonitorOverview>,
    upto: int,
    i: int,
    k: int,
) -> (at: int)
    requires
        0 <= i < upto <= monitors.len(),
        0 <= k < monitors[i].thumbnails@.len(),
    ensures
        0 <= at < bound_ids(monitors, upto).len(),
        bound_ids(monitors, upto)[at] == monitors[i].thumbnails@[k].thumbnail_id,
        window_ids(monitors).len() == monitors.len(),
        window_ids(monitors)[i] == monitors[i].window_id,
    decreases upto,
{
    if i == upto - 1 {
        bound_ids(monitors, upto - 1).len() + k
    } else {
        law_closing_lets_go_of_everything(monitors, upto - 1, i, k)
    }
}

/// Going into the overview forgets where the tiles were put, so that they are put
/// there again, and changes nothing else about them.
pub proof fn law_overview_forgets_placements(
    before: crate::app::State,
    after: crate::app::State,
    i: int,
)
    requires
        before.wf(),
        !before.in_overview(),
        before.entered(after),
        0 <= i < before.tiler@.windows.len(),
    ensures
        after.in_overview(),
        !after.overview_opening,
        after.tiler@.windows.len() == before.tiler@.windows.len(),
        after.tiler@.windows[i].last_layout is None,
        after.tiler@.windows[i].same_tile(before.tiler@.windows[i]),
        after.tiler@.scroll_offset == before.tiler@.scroll_offset,
{
}

/// The window of an overview covers the work area of its monitor.
pub proof fn law_overview_covers_the_work_area(m: Monitor)
    requires
        m.ok(),
    ensures
        overview_window(m).hmonitor == m.hmonitor,
        overview_window(m).x == m.work_area.left,
        overview_window(m).y == m.work_area.top,
        overview_window(m).x + overview_window(m).width == m.work_area.right,
        overview_window(m).y + overview_window(m).height == m.work_area.bottom,
{
}

/// A window is moved to the first monitor with the given name, into the middle of
/// its work area, at most 1600 by 1200 pixels large and at most four fifths of
/// it.
pub proof fn law_window_moves_into_the_middle_of_the_monitor(
    env: Surroundings,
    w: Window,
    name: Seq<char>,
    i: int,
)
    requires
        0 <= i < env.monitors@.len(),
        env.monitors@[i].device_name@ == name,
        forall|k: int| 0 <= k < i ==> (#[trigger] env.monitors@[k]).device_name@ != name,
        env.desk.frame_of(w) is Some,
        env.desk.outer_of(w) is Some,
        env.monitors@[i].work_area.left <= env.monitors@[i].work_area.right,
        env.monitors@[i].work_area.top <= env.monitors@[i].work_area.bottom,
    ensures
        exists|pos: Position, size: Size|
            #![trigger padded_on(env.desk, w, pos, size)]
            ({
                let wa = env.monitors@[i].work_area;
                &&& monitor_move(env, w, name) == Ok::<PixelRect, MoveError>(
                    padded_on(env.desk, w, pos, size)->0,
                )
                &&& size.width <= 1_600_000 && 5 * size.width <= 4000 * (wa.right - wa.left)
                &&& size.width == 1_600_000 || 5 * size.width == 4000 * (wa.right - wa.left)
                &&& size.height <= 1_200_000 && 5 * size.height <= 4000 * (wa.bottom - wa.top)
                &&& size.height == 1_200_000 || 5 * size.height == 4000 * (wa.bottom - wa.top)
                &&& 0 <= (wa.right * 1000 - (pos.x + size.width)) - (pos.x - wa.left * 1000) <= 1
                &&& 0 <= (wa.bottom * 1000 - (pos.y + size.height)) - (pos.y - wa.top * 1000) <= 1
            }),
{
    let wa = env.monitors@[i].work_area;
    lemma_first_hit(name_mask(env.monitors@, name), i);
    law_moved_window_is_in_the_middle(wa.left as int, wa.right as int, 1600);
    law_moved_window_is_in_the_middle(wa.top as int, wa.bottom as int, 1200);
    let pos = Position {
        x: centered_start(wa.left as int, wa.right as int, 1600) as i64,
        y: centered_start(wa.top as int, wa.bottom as int, 1200) as i64,
    };
    let size = Size {
        width: centered_extent(wa.left as int, wa.right as int, 1600) as i64,
        height: centered_extent(wa.top as int, wa.bottom as int, 1200) as i64,
    };
    assert(padded_on(env.desk, w, pos, size) is Some);
}

/// A window cannot be moved to a monitor that is not there.
pub proof fn law_no_window_moves_to_a_missing_monitor(
    env: Surroundings,
    w: Window,
    name: Seq<char>,
)
    requires
        forall|k: int|
            0 <= k < env.monitors@.len() ==> (#[trigger] env.monitors@[k]).device_name@ != name,
    ensures
        monitor_move(env, w, name) == Err::<PixelRect, MoveError>(MoveError::NotAttached),
{
    lemma_first_miss(name_mask(env.monitors@, name));
}

/// Once all windows of a program have been ignored from the overview, the
/// configuration that is then saved lets none of them be tiled.
pub proof fn law_ignored_programs_are_tiled_no_more(
    cfg: Config,
    saved: Config,
    desk: Desktop,
    w: Window,
    process: Seq<char>,
)
    requires
        app_ignored(cfg, process, IgnoreStep::Save(saved)),
        desk.valid(w),
        desk.process_of(w) == Some(process),
    ensures
        tile_verdict(desk, w, saved) != Ok::<bool, QueryFailed>(true),
        saved.filter.ignored_classes@ == cfg.filter.ignored_classes@,
        saved.filter.ignored_window_titles@ == cfg.filter.ignored_window_titles@,
        saved.filter.ignored_processes@.drop_last() == cfg.filter.ignored_processes@,
{
    law_ordinary_windows_are_tiled(desk, w, saved);
    let list = saved.filter.ignored_processes@;
    assert(list[list.len() - 1] == list.last());
}

/// Once a window has been ignored from the overview, the configuration that is
/// then saved no longer lets it be tiled.
pub proof fn law_window_ignored_from_the_overview_is_tiled_no_more(
    cfg: Config,
    saved: Config,
    desk: Desktop,
    w: Window,
)
    requires
        desk.valid(w),
        window_ignored(
            cfg,
            desk,
            w.hwnd,
            Ok::<IgnoreStep, InvalidHandle>(IgnoreStep::Save(saved)),
        ),
    ensures
        tile_verdict(desk, w, saved) != Ok::<bool, QueryFailed>(true),
{
    law_ordinary_windows_are_tiled(desk, w, saved);
    let o = desk.facts(w)->0;
    let rules = saved.filter.ignored_window_titles@;
    let last = rules.len() - 1;
    assert(rules[last] == rules.last());
    assert(Window { hwnd: w.hwnd } == w);
    if ordinary(o) && unobjected(o, saved) {
        let rule = saved.filter.ignored_window_titles@[last];
        assert(rule.process@ == o.process->0@);
        assert(false);
    }
}

} // verus!
