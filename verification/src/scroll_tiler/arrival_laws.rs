//! Which windows get and lose tiles, and where.
use vstd::prelude::*;

use crate::geometry::magnitude;
use crate::scroll_tiler::command_laws::{has_focus, nothing_focused};
use crate::scroll_tiler::item::{new_item, WindowItem};
use crate::scroll_tiler::laws::{lemma_snapped_keeps, lemma_taken_in_wf};
use crate::scroll_tiler::snapshot::lemma_same_windows;
use crate::scroll_tiler::strip::{
    appended, count_true, distinct, drag_mask, focus_mask, is_tiled,
    keep_mask, lemma_selected, negated, seeded, selected, Strip, MAX_WINDOWS,
};
use crate::search::lemma_first_true;
use crate::window::{Desktop, Window};

verus! {

/// The tiles `r` are `base` with `n` new ones at `p`.
pub open spec fn opened_up(
    base: Seq<WindowItem>,
    r: Seq<WindowItem>,
    snapshot: Seq<Window>,
    desk: Desktop,
    tiling_hmonitor: i64,
    width: i64,
    p: int,
    n: int,
) -> bool {
    &&& 0 <= n
    &&& 0 <= p <= base.len()
    &&& r.len() == base.len() + n
    &&& forall|k: int| 0 <= k < p ==> #[trigger] r[k] == base[k]
    &&& forall|k: int| p + n <= k < r.len() ==> #[trigger] r[k] == base[k - n]
    &&& forall|k: int|
        p <= k < p + n ==> {
            let w = (#[trigger] r[k]).inner;
            &&& r[k] == new_item(desk, w, width)
            &&& !is_tiled(base, w)
            &&& snapshot.contains(w)
            &&& desk.monitor_of(w) == tiling_hmonitor
        }
}

/// New windows are let in together, at one place.
pub proof fn lemma_opened_up(
    base: Seq<WindowItem>,
    snapshot: Seq<Window>,
    desk: Desktop,
    tiling_hmonitor: i64,
    at: Option<int>,
    width: i64,
    upto: int,
) -> (n: int)
    requires
        0 <= upto <= snapshot.len(),
        at matches Some(i) ==> 0 <= i <= base.len(),
    ensures
        opened_up(
            base,
            appended(base, snapshot, desk, tiling_hmonitor, at, width, upto),
            snapshot,
            desk,
            tiling_hmonitor,
            width,
            match at {
                Some(i) => i,
                None => base.len() as int,
            },
            n,
        ),
    decreases upto,
{
    if upto <= 0 {
        0
    } else {
        let m = lemma_opened_up(base, snapshot, desk, tiling_hmonitor, at, width, upto - 1);
        let before = appended(base, snapshot, desk, tiling_hmonitor, at, width, upto - 1);
        let r = appended(base, snapshot, desk, tiling_hmonitor, at, width, upto);
        let w = snapshot[upto - 1];
        if is_tiled(before, w) || desk.monitor_of(w) != tiling_hmonitor {
            m
        } else {
            if is_tiled(base, w) {
                let a = choose|a: int| 0 <= a < base.len() && (#[trigger] base[a]).inner == w;
                let p = match at {
                    Some(i) => i,
                    None => base.len() as int,
                };
                if a < p {
                    assert(before[a].inner == w);
                } else {
                    assert(before[a + m].inner == w);
                }
            }
            assert(!is_tiled(base, w));
            m + 1
        }
    }
}

/// The tiles that a snapshot keeps, before new windows are let in.
#[verifier::opaque]
spec fn kept(s: Strip, snapshot: Seq<Window>, desk: Desktop, tiling_hmonitor: i64) -> Strip {
    s.retained(snapshot, desk).drag_settled(desk, tiling_hmonitor).diverged(desk).widths_updated(
        desk,
    )
}

/// The same windows have tiles, in the same order.
spec fn same_windows(a: Seq<WindowItem>, b: Seq<WindowItem>) -> bool {
    &&& a.len() == b.len()
    &&& forall|k: int| 0 <= k < a.len() ==> (#[trigger] a[k]).inner == b[k].inner
}

proof fn lemma_same_tiled(a: Seq<WindowItem>, b: Seq<WindowItem>, w: Window)
    requires
        same_windows(a, b),
    ensures
        is_tiled(a, w) == is_tiled(b, w),
{
    if is_tiled(a, w) {
        let k = choose|k: int| 0 <= k < a.len() && (#[trigger] a[k]).inner == w;
        assert(b[k].inner == w);
    }
    if is_tiled(b, w) {
        let k = choose|k: int| 0 <= k < b.len() && (#[trigger] b[k]).inner == w;
        assert(a[k].inner == w);
    }
}

proof fn lemma_selected_tiled(windows: Seq<WindowItem>, mask: Seq<bool>, w: Window)
    requires
        windows.len() == mask.len(),
        distinct(windows),
    ensures
        is_tiled(selected(windows, mask), w) <==> exists|i: int|
            0 <= i < windows.len() && mask[i] && (#[trigger] windows[i]).inner == w,
{
    lemma_selected(windows, mask);
    let r = selected(windows, mask);
    if is_tiled(r, w) {
        let k = choose|k: int| 0 <= k < r.len() && (#[trigger] r[k]).inner == w;
        let i = choose|i: int| 0 <= i < windows.len() && mask[i] && #[trigger] windows[i] == r[k];
        assert(windows[i].inner == w);
    }
    if exists|i: int| 0 <= i < windows.len() && mask[i] && (#[trigger] windows[i]).inner == w {
        let i = choose|i: int|
            0 <= i < windows.len() && mask[i] && (#[trigger] windows[i]).inner == w;
        let x = windows[i];
        let k = choose|k: int| 0 <= k < r.len() && #[trigger] r[k] == x;
        assert(r[k].inner == w);
    }
}

/// The drag has taken so many windows that none of them goes.
pub open spec fn too_many_dragged(
    s: Strip,
    snapshot: Seq<Window>,
    desk: Desktop,
    tiling_hmonitor: i64,
) -> bool {
    count_true(drag_mask(s.retained(snapshot, desk).windows, desk, tiling_hmonitor)) > 2
}

/// Of the steps of a snapshot only the first two take tiles away.
#[verifier::rlimit(40)]
proof fn lemma_kept_late(
    s: Strip,
    snapshot: Seq<Window>,
    desk: Desktop,
    tiling_hmonitor: i64,
    w: Window,
)
    ensures
        is_tiled(kept(s, snapshot, desk, tiling_hmonitor).windows, w) == is_tiled(
            s.retained(snapshot, desk).undragged(desk, tiling_hmonitor).windows,
            w,
        ),
{
    reveal(kept);
    let s1 = s.retained(snapshot, desk);
    let u = s1.undragged(desk, tiling_hmonitor);
    lemma_first_true(focus_mask(u.windows, desk));
    lemma_same_tiled(u.windows, u.left_resized(desk).windows, w);
    let s2 = s1.drag_settled(desk, tiling_hmonitor);
    let s3 = s2.diverged(desk);
    lemma_same_tiled(s2.windows, s3.windows, w);
    lemma_same_tiled(s3.windows, s3.widths_updated(desk).windows, w);
}

/// The first step keeps what the snapshot accounts for.
pub proof fn lemma_retained_tile(s: Strip, snapshot: Seq<Window>, desk: Desktop, i: int) -> (k: int)
    requires
        s.wf(),
        0 <= i < s.windows.len(),
    ensures
        ({
            let w = s.windows[i].inner;
            let s1 = s.retained(snapshot, desk);
            &&& distinct(s1.windows)
            &&& is_tiled(s1.windows, w) == (snapshot.contains(w) || desk.valid(w) && desk.cloaked(
                w,
            ))
            &&& is_tiled(s1.windows, w) ==> 0 <= k < s1.windows.len() && s1.windows[k]
                == s.windows[i].iconic_step(desk)
        }),
{
    let w = s.windows[i].inner;
    let x = s.windows[i];
    let mask = keep_mask(s.windows, snapshot, desk);
    lemma_selected(s.windows, mask);
    lemma_selected_tiled(s.windows, mask, w);
    let chosen = selected(s.windows, mask);
    let s1 = s.retained(snapshot, desk);
    assert forall|k: int| 0 <= k < chosen.len() implies (#[trigger] s1.windows[k]).inner
        == chosen[k].inner by {}
    lemma_same_tiled(chosen, s1.windows, w);
    lemma_same_windows(chosen, s1.windows);
    if mask[i] {
        let k = choose|k: int| 0 <= k < chosen.len() && #[trigger] chosen[k] == x;
        assert(s1.windows[k] == x.iconic_step(desk));
        assert(s1.windows[k].inner == w);
        k
    } else {
        if is_tiled(chosen, w) {
            let j = choose|j: int|
                0 <= j < s.windows.len() && mask[j] && (#[trigger] s.windows[j]).inner == w;
            assert(s.windows[j].inner == s.windows[i].inner);
            assert(j == i);
        }
        0
    }
}

/// Of the tiles with distinct windows, the marked ones are taken.
proof fn lemma_marked_tile(windows: Seq<WindowItem>, mask: Seq<bool>, k: int)
    requires
        windows.len() == mask.len(),
        distinct(windows),
        0 <= k < windows.len(),
    ensures
        is_tiled(selected(windows, mask), windows[k].inner) == mask[k],
{
    let w = windows[k].inner;
    lemma_selected_tiled(windows, mask, w);
    if mask[k] {
        assert(windows[k].inner == w);
    } else if is_tiled(selected(windows, mask), w) {
        let j = choose|j: int|
            0 <= j < windows.len() && mask[j] && (#[trigger] windows[j]).inner == w;
        assert(windows[j].inner == windows[k].inner);
        assert(j == k);
    }
}

/// Which windows keep their tiles.
#[verifier::rlimit(40)]
proof fn lemma_kept(s: Strip, snapshot: Seq<Window>, desk: Desktop, tiling_hmonitor: i64, i: int)
    requires
        s.wf(),
        0 <= i < s.windows.len(),
    ensures
        ({
            let w = s.windows[i].inner;
            is_tiled(kept(s, snapshot, desk, tiling_hmonitor).windows, w) == ((snapshot.contains(w)
                || desk.valid(w) && desk.cloaked(w)) && !(s.drag_ended(desk) && !too_many_dragged(
                s,
                snapshot,
                desk,
                tiling_hmonitor,
            ) && s.windows[i].iconic_step(desk).dragged_away(desk, tiling_hmonitor)))
        }),
{
    let w = s.windows[i].inner;
    let k = lemma_retained_tile(s, snapshot, desk, i);
    lemma_kept_late(s, snapshot, desk, tiling_hmonitor, w);
    let s1 = s.retained(snapshot, desk);
    let drag = drag_mask(s1.windows, desk, tiling_hmonitor);
    let rest = selected(s1.windows, negated(drag));
    if is_tiled(s1.windows, w) {
        assert(s1.windows[k].inner == w);
        lemma_marked_tile(s1.windows, negated(drag), k);
        assert(negated(drag)[k] == !s.windows[i].iconic_step(desk).dragged_away(
            desk,
            tiling_hmonitor,
        ));
    } else {
        lemma_selected_tiled(s1.windows, negated(drag), w);
        if is_tiled(rest, w) {
            let j = choose|j: int|
                0 <= j < s1.windows.len() && negated(drag)[j] && (#[trigger] s1.windows[j]).inner
                    == w;
            assert(s1.windows[j].inner == w);
        }
    }
}

/// What is kept was there.
proof fn lemma_kept_was_there(
    s: Strip,
    snapshot: Seq<Window>,
    desk: Desktop,
    tiling_hmonitor: i64,
    w: Window,
)
    requires
        s.wf(),
        is_tiled(kept(s, snapshot, desk, tiling_hmonitor).windows, w),
    ensures
        is_tiled(s.windows, w),
{
    lemma_kept_late(s, snapshot, desk, tiling_hmonitor, w);
    let mask = keep_mask(s.windows, snapshot, desk);
    lemma_selected(s.windows, mask);
    let chosen = selected(s.windows, mask);
    let s1 = s.retained(snapshot, desk);
    assert forall|k: int| 0 <= k < chosen.len() implies (#[trigger] s1.windows[k]).inner
        == chosen[k].inner by {}
    lemma_same_tiled(chosen, s1.windows, w);
    lemma_same_windows(chosen, s1.windows);
    let drag = drag_mask(s1.windows, desk, tiling_hmonitor);
    lemma_selected_tiled(s1.windows, negated(drag), w);
    if is_tiled(selected(s1.windows, negated(drag)), w) {
        let j = choose|j: int|
            0 <= j < s1.windows.len() && negated(drag)[j] && (#[trigger] s1.windows[j]).inner == w;
        assert(s1.windows[j].inner == w);
    }
    assert(is_tiled(chosen, w));
    lemma_selected_tiled(s.windows, mask, w);
    let i = choose|i: int|
        0 <= i < s.windows.len() && mask[i] && (#[trigger] s.windows[i]).inner == w;
    assert(s.windows[i].inner == w);
}

/// The strip after a snapshot is what was kept, with the new tiles together in
/// one place.
#[verifier::rlimit(40)]
proof fn lemma_arrivals(s: Strip, snapshot: Seq<Window>, desk: Desktop, tiling_hmonitor: i64) -> (r:
    (int, int))
    requires
        s.wf(),
        s.windows.len() + snapshot.len() <= MAX_WINDOWS,
    ensures
        ({
            let base = kept(s, snapshot, desk, tiling_hmonitor);
            let t = s.taken_in(snapshot, desk, tiling_hmonitor);
            let after = s.snapped(snapshot, desk, tiling_hmonitor);
            &&& opened_up(
                base.windows,
                t.windows,
                snapshot,
                desk,
                tiling_hmonitor,
                s.default_size() as i64,
                r.0,
                r.1,
            )
            &&& r.0 == (match base.append_at(desk) {
                Some(i) => i,
                None => base.windows.len() as int,
            })
            &&& after.windows.len() == t.windows.len()
            &&& after.wf()
            &&& base.previously_focused_window_index == s.previously_focused_window_index
            &&& forall|k: int|
                0 <= k < t.windows.len() ==> (#[trigger] after.windows[k]).same_tile(t.windows[k])
        }),
{
    reveal(kept);
    let base = kept(s, snapshot, desk, tiling_hmonitor);
    let t = s.taken_in(snapshot, desk, tiling_hmonitor);
    lemma_taken_in_wf(s, snapshot, desk, tiling_hmonitor);
    lemma_snapped_keeps(t, desk);
    lemma_first_true(focus_mask(base.windows, desk));
    let n = lemma_opened_up(
        base.windows,
        snapshot,
        desk,
        tiling_hmonitor,
        base.append_at(desk),
        base.default_size() as i64,
        snapshot.len() as int,
    );
    let p = match base.append_at(desk) {
        Some(i) => i,
        None => base.windows.len() as int,
    };
    (p, n)
}

/// Whether a tile that is there after a snapshot was there before.
#[verifier::rlimit(40)]
proof fn lemma_new_or_kept(
    s: Strip,
    snapshot: Seq<Window>,
    desk: Desktop,
    tiling_hmonitor: i64,
    k: int,
) -> (r: (int, int))
    requires
        s.wf(),
        s.windows.len() + snapshot.len() <= MAX_WINDOWS,
        0 <= k < s.snapped(snapshot, desk, tiling_hmonitor).windows.len(),
    ensures
        ({
            let base = kept(s, snapshot, desk, tiling_hmonitor);
            let after = s.snapped(snapshot, desk, tiling_hmonitor);
            let w = after.windows[k].inner;
            &&& r.0 == (match base.append_at(desk) {
                Some(i) => i,
                None => base.windows.len() as int,
            })
            &&& 0 <= r.0 <= base.windows.len()
            &&& 0 <= r.1
            &&& after.wf()
            &&& base.previously_focused_window_index == s.previously_focused_window_index
            &&& after.windows.len() == base.windows.len() + r.1
            &&& is_tiled(s.windows, w) == is_tiled(base.windows, w)
            &&& !is_tiled(s.windows, w) == (r.0 <= k < r.0 + r.1)
            &&& !is_tiled(s.windows, w) ==> after.windows[k].width == s.default_size()
                && snapshot.contains(w) && desk.monitor_of(w) == tiling_hmonitor
            &&& k < r.0 ==> w == base.windows[k].inner
            &&& k >= r.0 + r.1 ==> w == base.windows[k - r.1].inner
        }),
{
    let (p, n) = lemma_arrivals(s, snapshot, desk, tiling_hmonitor);
    let base = kept(s, snapshot, desk, tiling_hmonitor);
    let t = s.taken_in(snapshot, desk, tiling_hmonitor);
    let after = s.snapped(snapshot, desk, tiling_hmonitor);
    let w = after.windows[k].inner;
    assert(after.windows[k].same_tile(t.windows[k]));
    if p <= k < p + n {
        assert(!is_tiled(base.windows, w));
        if is_tiled(s.windows, w) {
            let i = choose|i: int| 0 <= i < s.windows.len() && (#[trigger] s.windows[i]).inner == w;
            lemma_kept(s, snapshot, desk, tiling_hmonitor, i);
        }
    } else {
        if k < p {
            assert(t.windows[k] == base.windows[k]);
        } else {
            assert(t.windows[k] == base.windows[k - n]);
        }
        assert(is_tiled(base.windows, w));
        lemma_kept_was_there(s, snapshot, desk, tiling_hmonitor, w);
    }
    (p, n)
}

/// A window gets a tile only where the snapshot shows it on the tiling monitor.
/// Its tile is, but for what does not divide, a quarter of the screen wide with
/// its gaps.
pub proof fn law_only_windows_of_the_monitor_get_tiles(
    s: Strip,
    snapshot: Seq<Window>,
    desk: Desktop,
    tiling_hmonitor: i64,
    k: int,
)
    requires
        s.wf(),
        s.windows.len() + snapshot.len() <= MAX_WINDOWS,
        0 <= k < s.snapped(snapshot, desk, tiling_hmonitor).windows.len(),
        !is_tiled(s.windows, s.snapped(snapshot, desk, tiling_hmonitor).windows[k].inner),
    ensures
        ({
            let x = s.snapped(snapshot, desk, tiling_hmonitor).windows[k];
            &&& snapshot.contains(x.inner)
            &&& desk.monitor_of(x.inner) == tiling_hmonitor
            &&& 0 <= s.screen_size.width - 4 * (x.width + 2 * s.padding) < 4
        }),
{
    let r = lemma_new_or_kept(s, snapshot, desk, tiling_hmonitor, k);
}

/// New tiles stand together. Where a tile that was there before has the focus,
/// they stand right behind it: none is in front of it, and none of the other
/// tiles is between.
pub proof fn law_new_tiles_stand_behind_the_focused_one(
    s: Strip,
    snapshot: Seq<Window>,
    desk: Desktop,
    tiling_hmonitor: i64,
    f: int,
    k: int,
    j: int,
)
    requires
        s.wf(),
        s.windows.len() + snapshot.len() <= MAX_WINDOWS,
        ({
            let r = s.snapped(snapshot, desk, tiling_hmonitor);
            &&& has_focus(r, desk, f)
            &&& is_tiled(s.windows, r.windows[f].inner)
            &&& 0 <= k < r.windows.len()
            &&& !is_tiled(s.windows, r.windows[k].inner)
            &&& f < j < k
        }),
    ensures
        f < k,
        !is_tiled(s.windows, s.snapped(snapshot, desk, tiling_hmonitor).windows[j].inner),
{
    lemma_behind(s, snapshot, desk, tiling_hmonitor, f, k);
    let a = lemma_new_or_kept(s, snapshot, desk, tiling_hmonitor, k);
    let b = lemma_new_or_kept(s, snapshot, desk, tiling_hmonitor, j);
    let c = lemma_new_or_kept(s, snapshot, desk, tiling_hmonitor, f);
}

/// No new tile stands in front of the focused one, if that was there before.
pub proof fn law_no_new_tile_stands_before_the_focused_one(
    s: Strip,
    snapshot: Seq<Window>,
    desk: Desktop,
    tiling_hmonitor: i64,
    f: int,
    k: int,
)
    requires
        s.wf(),
        s.windows.len() + snapshot.len() <= MAX_WINDOWS,
        ({
            let r = s.snapped(snapshot, desk, tiling_hmonitor);
            &&& has_focus(r, desk, f)
            &&& is_tiled(s.windows, r.windows[f].inner)
            &&& 0 <= k < r.windows.len()
            &&& !is_tiled(s.windows, r.windows[k].inner)
        }),
    ensures
        f < k,
{
    lemma_behind(s, snapshot, desk, tiling_hmonitor, f, k);
}

#[verifier::rlimit(40)]
proof fn lemma_behind(
    s: Strip,
    snapshot: Seq<Window>,
    desk: Desktop,
    tiling_hmonitor: i64,
    f: int,
    k: int,
)
    requires
        s.wf(),
        s.windows.len() + snapshot.len() <= MAX_WINDOWS,
        ({
            let r = s.snapped(snapshot, desk, tiling_hmonitor);
            &&& has_focus(r, desk, f)
            &&& is_tiled(s.windows, r.windows[f].inner)
            &&& 0 <= k < r.windows.len()
            &&& !is_tiled(s.windows, r.windows[k].inner)
        }),
    ensures
        f < k,
        kept(s, snapshot, desk, tiling_hmonitor).append_at(desk) == Some(f + 1),
{
    let (p, n) = lemma_new_or_kept(s, snapshot, desk, tiling_hmonitor, k);
    let (p2, n2) = lemma_new_or_kept(s, snapshot, desk, tiling_hmonitor, f);
    let base = kept(s, snapshot, desk, tiling_hmonitor);
    let r = s.snapped(snapshot, desk, tiling_hmonitor);
    let w = r.windows[f].inner;
    let at = if f < p {
        f
    } else {
        f - n
    };
    assert(base.windows[at].inner == w);
    let mask = focus_mask(base.windows, desk);
    lemma_first_true(mask);
    assert(mask[at]);
    let j = base.focus_index(desk)->0;
    assert(mask[j]);
    assert(base.windows[j].inner == w);
    // No window has two tiles, so the focused one is where its tile is.
    if j < p {
        let x = lemma_new_or_kept(s, snapshot, desk, tiling_hmonitor, j);
        assert(r.windows[j].inner == w);
        assert(j == f);
    } else {
        let x = lemma_new_or_kept(s, snapshot, desk, tiling_hmonitor, j + n);
        assert(r.windows[j + n].inner == w);
        assert(j + n == f);
    }
}

/// Where no tile has the focus, new tiles stand right behind the place of the
/// tile that had it last; where no tile ever had it, or there is no such place
/// any more, at the end.
pub proof fn law_new_tiles_stand_behind_the_remembered_one(
    s: Strip,
    snapshot: Seq<Window>,
    desk: Desktop,
    tiling_hmonitor: i64,
    k: int,
    j: int,
)
    requires
        s.wf(),
        s.windows.len() + snapshot.len() <= MAX_WINDOWS,
        ({
            let r = s.snapped(snapshot, desk, tiling_hmonitor);
            &&& nothing_focused(r, desk)
            &&& 0 <= k < r.windows.len()
            &&& !is_tiled(s.windows, r.windows[k].inner)
            &&& 0 <= j < r.windows.len()
            &&& is_tiled(s.windows, r.windows[j].inner)
        }),
    ensures
        match s.previously_focused_window_index {
            Some(b) => j < k <==> j <= b,
            None => j < k,
        },
{
    let (p, n) = lemma_new_or_kept(s, snapshot, desk, tiling_hmonitor, k);
    let (p2, n2) = lemma_new_or_kept(s, snapshot, desk, tiling_hmonitor, j);
    let base = kept(s, snapshot, desk, tiling_hmonitor);
    let r = s.snapped(snapshot, desk, tiling_hmonitor);
    assert(base.focus_index(desk) is None) by {
        let mask = focus_mask(base.windows, desk);
        lemma_first_true(mask);
        if base.focus_index(desk) is Some {
            let i = base.focus_index(desk)->0;
            assert(mask[i]);
            let at = if i < p {
                i
            } else {
                i + n
            };
            let x = lemma_new_or_kept(s, snapshot, desk, tiling_hmonitor, at);
            assert(has_focus(r, desk, at));
        }
    }
}

/// At the end of a mouse drag a window that is off the tiling monitor and more
/// than 50 pixels from where it was put loses its tile, if at most one other
/// window is off the monitor. One that is on the monitor keeps its tile.
#[verifier::rlimit(40)]
pub proof fn law_windows_dragged_away_lose_their_tiles(
    s: Strip,
    snapshot: Seq<Window>,
    desk: Desktop,
    tiling_hmonitor: i64,
    i: int,
    other: int,
)
    requires
        s.wf(),
        s.windows.len() + snapshot.len() <= MAX_WINDOWS,
        s.was_mouse_held_last_snapshot,
        !desk.mouse_held,
        0 <= i < s.windows.len(),
        !s.windows[i].was_iconic_last_tick,
        desk.monitor_of(s.windows[i].inner) != tiling_hmonitor,
        !desk.cloaked(s.windows[i].inner),
        s.windows[i].last_layout is Some,
        desk.frame_of(s.windows[i].inner) is Some,
        ({
            let p = s.windows[i].last_layout->0;
            let f = desk.frame_of(s.windows[i].inner)->0;
            magnitude(f.left * 1000 - p.x) > 50_000 || magnitude(f.top * 1000 - p.y) > 50_000
        }),
        forall|k: int|
            0 <= k < s.windows.len() && k != i && k != other ==> desk.monitor_of(
                (#[trigger] s.windows[k]).inner,
            ) == tiling_hmonitor,
    ensures
        !is_tiled(s.snapped(snapshot, desk, tiling_hmonitor).windows, s.windows[i].inner),
{
    let w = s.windows[i].inner;
    let s1 = s.retained(snapshot, desk);
    let drag = drag_mask(s1.windows, desk, tiling_hmonitor);
    let mask = keep_mask(s.windows, snapshot, desk);
    let chosen = selected(s.windows, mask);
    lemma_selected(s.windows, mask);
    lemma_same_windows(chosen, s1.windows);
    let v = if 0 <= other < s.windows.len() {
        s.windows[other].inner
    } else {
        w
    };
    assert forall|k: int| 0 <= k < drag.len() && #[trigger] drag[k] implies s1.windows[k].inner == w
        || s1.windows[k].inner == v by {
        assert(s1.windows[k].inner == chosen[k].inner);
        let a = choose|a: int| 0 <= a < s.windows.len() && mask[a] && #[trigger] s.windows[a]
            == chosen[k];
        assert(desk.monitor_of(s.windows[a].inner) != tiling_hmonitor);
    }
    lemma_few_marked(s1.windows, drag, w, v);
    lemma_kept(s, snapshot, desk, tiling_hmonitor, i);
    let r = s.snapped(snapshot, desk, tiling_hmonitor);
    if is_tiled(r.windows, w) {
        let k = choose|k: int| 0 <= k < r.windows.len() && (#[trigger] r.windows[k]).inner == w;
        let x = lemma_new_or_kept(s, snapshot, desk, tiling_hmonitor, k);
    }
}

proof fn lemma_few_marked(windows: Seq<WindowItem>, mask: Seq<bool>, w: Window, v: Window)
    requires
        windows.len() == mask.len(),
        distinct(windows),
        forall|k: int|
            0 <= k < mask.len() && #[trigger] mask[k] ==> windows[k].inner == w || windows[k].inner
                == v,
    ensures
        count_true(mask) <= (if is_tiled(windows, w) {
            1int
        } else {
            0
        }) + (if is_tiled(windows, v) {
            1int
        } else {
            0
        }),
    decreases windows.len(),
{
    if windows.len() > 0 {
        let init = windows.drop_last();
        let mi = mask.drop_last();
        assert(distinct(init)) by {
            assert forall|a: int, b: int| 0 <= a < b < init.len() implies (#[trigger]
            init[a]).inner != (#[trigger] init[b]).inner by {
                assert(windows[a].inner != windows[b].inner);
            }
        }
        assert forall|k: int| 0 <= k < mi.len() && #[trigger] mi[k] implies init[k].inner == w
            || init[k].inner == v by {
            assert(mask[k]);
        }
        lemma_few_marked(init, mi, w, v);
        let last = windows.last().inner;
        assert forall|x: Window| is_tiled(init, x) implies is_tiled(windows, x) by {
            let a = choose|a: int| 0 <= a < init.len() && (#[trigger] init[a]).inner == x;
            assert(windows[a].inner == x);
        }
        assert(!is_tiled(init, last)) by {
            if is_tiled(init, last) {
                let a = choose|a: int| 0 <= a < init.len() && (#[trigger] init[a]).inner == last;
                assert(windows[a].inner != windows[windows.len() - 1].inner);
            }
        }
        if mask.last() {
            assert(mask[mask.len() - 1]);
            assert(windows[windows.len() - 1].inner == last);
            assert(is_tiled(windows, last));
        }
    }
}

/// A window on the tiling monitor is never taken for one that was dragged away.
#[verifier::rlimit(40)]
pub proof fn law_windows_on_the_monitor_keep_their_tiles(
    s: Strip,
    snapshot: Seq<Window>,
    desk: Desktop,
    tiling_hmonitor: i64,
    i: int,
)
    requires
        s.wf(),
        s.windows.len() + snapshot.len() <= MAX_WINDOWS,
        0 <= i < s.windows.len(),
        snapshot.contains(s.windows[i].inner),
        desk.monitor_of(s.windows[i].inner) == tiling_hmonitor,
    ensures
        is_tiled(s.snapped(snapshot, desk, tiling_hmonitor).windows, s.windows[i].inner),
{
    let w = s.windows[i].inner;
    lemma_kept(s, snapshot, desk, tiling_hmonitor, i);
    let base = kept(s, snapshot, desk, tiling_hmonitor);
    let r = s.snapped(snapshot, desk, tiling_hmonitor);
    let a = choose|a: int| 0 <= a < base.windows.len() && (#[trigger] base.windows[a]).inner == w;
    let (p, n) = lemma_arrivals(s, snapshot, desk, tiling_hmonitor);
    let t = s.taken_in(snapshot, desk, tiling_hmonitor);
    let k = if a < p {
        a
    } else {
        a + n
    };
    assert(t.windows[k] == base.windows[a]);
    assert(r.windows[k].same_tile(t.windows[k]));
}

/// The tiles from `from` up to `to` belong to windows that come later in the
/// snapshot the further right they are, or the further left where `turned`.
spec fn in_order_of_sight(
    r: Seq<WindowItem>,
    snapshot: Seq<Window>,
    from: int,
    to: int,
    turned: bool,
) -> bool {
    forall|j: int, k: int, a: int, b: int|
        from <= j < k < to && 0 <= a < snapshot.len() && 0 <= b < snapshot.len() && (#[trigger]
        r[j]).inner == #[trigger] snapshot[a] && (#[trigger] r[k]).inner == #[trigger] snapshot[b]
            ==> if turned {
            b < a
        } else {
            a < b
        }
}

/// The tiles from `from` up to `to` belong to windows seen before the `upto`th.
spec fn seen_before(
    r: Seq<WindowItem>,
    snapshot: Seq<Window>,
    from: int,
    to: int,
    upto: int,
) -> bool {
    forall|k: int, a: int|
        from <= k < to && 0 <= a < snapshot.len() && (#[trigger] r[k]).inner == #[trigger]
            snapshot[a] ==> a < upto
}

proof fn lemma_arrival_order(
    base: Seq<WindowItem>,
    snapshot: Seq<Window>,
    desk: Desktop,
    tiling_hmonitor: i64,
    at: Option<int>,
    width: i64,
    upto: int,
)
    requires
        0 <= upto <= snapshot.len(),
        at matches Some(i) ==> 0 <= i <= base.len(),
        snapshot.no_duplicates(),
    ensures
        ({
            let r = appended(base, snapshot, desk, tiling_hmonitor, at, width, upto);
            let n = r.len() - base.len();
            let p = match at {
                Some(i) => i,
                None => base.len() as int,
            };
            &&& n >= 0
            &&& seen_before(r, snapshot, p, p + n, upto)
            &&& in_order_of_sight(r, snapshot, p, p + n, at is Some)
        }),
    decreases upto,
{
    if upto > 0 {
        lemma_arrival_order(base, snapshot, desk, tiling_hmonitor, at, width, upto - 1);
        let before = appended(base, snapshot, desk, tiling_hmonitor, at, width, upto - 1);
        let r = appended(base, snapshot, desk, tiling_hmonitor, at, width, upto);
        let w = snapshot[upto - 1];
        let n = r.len() - base.len();
        let m = before.len() - base.len();
        let p = match at {
            Some(i) => i,
            None => base.len() as int,
        };
        if !(is_tiled(before, w) || desk.monitor_of(w) != tiling_hmonitor) {
            // The newest stands at `new`, the others as before, moved on where need be.
            let new = if at is Some {
                p
            } else {
                p + m
            };
            let old = |k: int|
                if at is Some {
                    k - 1
                } else {
                    k
                };
            assert(r[new].inner == w);
            assert forall|k: int, a: int|
                p <= k < p + n && 0 <= a < snapshot.len() && (#[trigger] r[k]).inner == #[trigger]
                    snapshot[a] implies a < upto && (k != new ==> a < upto - 1) by {
                if k != new {
                    assert(r[k] == before[old(k)]);
                } else {
                    assert(snapshot[a] == snapshot[upto - 1]);
                }
            }
            assert forall|j: int, k: int, a: int, b: int|
                p <= j < k < p + n && 0 <= a < snapshot.len() && 0 <= b < snapshot.len() && (
                #[trigger] r[j]).inner == #[trigger] snapshot[a] && (#[trigger] r[k]).inner
                    == #[trigger] snapshot[b] implies if at is Some {
                b < a
            } else {
                a < b
            } by {
                if j == new {
                    assert(snapshot[a] == snapshot[upto - 1]);
                } else if k == new {
                    assert(snapshot[b] == snapshot[upto - 1]);
                } else {
                    assert(r[j] == before[old(j)] && r[k] == before[old(k)]);
                }
            }
        }
    }
}

/// New tiles behind a tile stand in the order opposite to that in which their
/// windows are seen: the one seen last is next to that tile.
#[verifier::rlimit(40)]
pub proof fn law_window_seen_last_stands_first(
    s: Strip,
    snapshot: Seq<Window>,
    desk: Desktop,
    tiling_hmonitor: i64,
    f: int,
    j: int,
    k: int,
    a: int,
    b: int,
)
    requires
        s.wf(),
        s.windows.len() + snapshot.len() <= MAX_WINDOWS,
        snapshot.no_duplicates(),
        0 <= a < snapshot.len(),
        0 <= b < snapshot.len(),
        ({
            let r = s.snapped(snapshot, desk, tiling_hmonitor).windows;
            &&& has_focus(s.snapped(snapshot, desk, tiling_hmonitor), desk, f)
            &&& is_tiled(s.windows, r[f].inner)
            &&& 0 <= j < k < r.len()
            &&& !is_tiled(s.windows, r[j].inner)
            &&& !is_tiled(s.windows, r[k].inner)
            &&& r[j].inner == snapshot[a]
            &&& r[k].inner == snapshot[b]
        }),
    ensures
        b < a,
{
    lemma_behind(s, snapshot, desk, tiling_hmonitor, f, k);
    let x = lemma_new_or_kept(s, snapshot, desk, tiling_hmonitor, j);
    let y = lemma_new_or_kept(s, snapshot, desk, tiling_hmonitor, k);
    let z = lemma_arrivals(s, snapshot, desk, tiling_hmonitor);
    let base = kept(s, snapshot, desk, tiling_hmonitor);
    let t = s.taken_in(snapshot, desk, tiling_hmonitor);
    let r = s.snapped(snapshot, desk, tiling_hmonitor);
    assert(r.windows[j].same_tile(t.windows[j]) && r.windows[k].same_tile(t.windows[k]));
    reveal(kept);
    lemma_arrival_order(
        base.windows,
        snapshot,
        desk,
        tiling_hmonitor,
        base.append_at(desk),
        base.default_size() as i64,
        snapshot.len() as int,
    );
    assert(t.windows[j].inner == snapshot[a] && t.windows[k].inner == snapshot[b]);
}

proof fn lemma_seeded(
    base: Seq<WindowItem>,
    snapshot: Seq<Window>,
    desk: Desktop,
    width: i64,
    upto: int,
)
    requires
        0 <= upto <= snapshot.len(),
        snapshot.no_duplicates(),
    ensures
        ({
            let r = seeded(base, snapshot, desk, width, upto);
            let n = base.len() as int;
            &&& n <= r.len()
            &&& forall|k: int| n <= k < r.len() ==> #[trigger] r[k].width == width
            &&& forall|k: int| n <= k < r.len() ==> snapshot.contains((#[trigger] r[k]).inner)
            &&& seen_before(r, snapshot, n, r.len() as int, upto)
            &&& in_order_of_sight(r, snapshot, n, r.len() as int, false)
        }),
    decreases upto,
{
    if upto > 0 {
        lemma_seeded(base, snapshot, desk, width, upto - 1);
        let before = seeded(base, snapshot, desk, width, upto - 1);
        let r = seeded(base, snapshot, desk, width, upto);
        let w = snapshot[upto - 1];
        let n = base.len() as int;
        if !is_tiled(before, w) {
            let new = before.len() as int;
            assert(r[new].inner == w);
            assert forall|k: int, a: int|
                n <= k < r.len() && 0 <= a < snapshot.len() && (#[trigger] r[k]).inner == #[trigger]
                    snapshot[a] implies a < upto && (k != new ==> a < upto - 1) by {
                if k != new {
                    assert(r[k] == before[k]);
                } else {
                    assert(snapshot[a] == snapshot[upto - 1]);
                }
            }
            assert forall|j: int, k: int, a: int, b: int|
                n <= j < k < r.len() && 0 <= a < snapshot.len() && 0 <= b < snapshot.len() && (
                #[trigger] r[j]).inner == #[trigger] snapshot[a] && (#[trigger] r[k]).inner
                    == #[trigger] snapshot[b] implies a < b by {
                if k == new {
                    assert(r[j] == before[j]);
                    assert(snapshot[b] == snapshot[upto - 1]);
                } else {
                    assert(r[j] == before[j] && r[k] == before[k]);
                }
            }
        }
    }
}

/// The first update puts the windows into the strip in the order in which they
/// are seen, each a quarter of the screen wide with its gaps, but for what does
/// not divide.
pub proof fn law_first_update_keeps_the_order_of_sight(
    s: Strip,
    snapshot: Seq<Window>,
    desk: Desktop,
    j: int,
    k: int,
    a: int,
    b: int,
)
    requires
        s.wf(),
        snapshot.no_duplicates(),
        0 <= a < snapshot.len(),
        0 <= b < snapshot.len(),
        s.windows.len() <= j < k < s.bulk_seeded(snapshot, desk).windows.len(),
        s.bulk_seeded(snapshot, desk).windows[j].inner == snapshot[a],
        s.bulk_seeded(snapshot, desk).windows[k].inner == snapshot[b],
    ensures
        a < b,
        0 <= s.screen_size.width - 4 * (s.bulk_seeded(snapshot, desk).windows[k].width + 2
            * s.padding) < 4,
{
    lemma_seeded(
        s.windows,
        snapshot,
        desk,
        s.default_size() as i64,
        snapshot.len() as int,
    );
}

/// A tile that is new after a snapshot was put nowhere before it is laid out.
#[verifier::rlimit(40)]
pub proof fn lemma_arrived(
    s: Strip,
    snapshot: Seq<Window>,
    desk: Desktop,
    tiling_hmonitor: i64,
    k: int,
)
    requires
        s.wf(),
        s.windows.len() + snapshot.len() <= MAX_WINDOWS,
        0 <= k < s.snapped(snapshot, desk, tiling_hmonitor).windows.len(),
        !is_tiled(s.windows, s.snapped(snapshot, desk, tiling_hmonitor).windows[k].inner),
    ensures
        ({
            let t = s.taken_in(snapshot, desk, tiling_hmonitor);
            &&& t.windows.len() == s.snapped(snapshot, desk, tiling_hmonitor).windows.len()
            &&& t.windows[k].inner == s.snapped(snapshot, desk, tiling_hmonitor).windows[k].inner
            &&& t.windows[k].last_layout is None
            &&& t.throttle_slow_apps == s.throttle_slow_apps
        }),
{
    let r = lemma_new_or_kept(s, snapshot, desk, tiling_hmonitor, k);
    let (p, n) = lemma_arrivals(s, snapshot, desk, tiling_hmonitor);
    let t = s.taken_in(snapshot, desk, tiling_hmonitor);
    let after = s.snapped(snapshot, desk, tiling_hmonitor);
    assert(after.windows[k].same_tile(t.windows[k]));
    assert(t.windows[k] == new_item(desk, t.windows[k].inner, s.default_size() as i64));
}

} // verus!
