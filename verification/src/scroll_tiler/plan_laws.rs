//! What is asked of the window system agrees with what is on record.
use vstd::prelude::*;

use crate::geometry::{magnitude, Position, Size};
use crate::scroll_tiler::arrival_laws::lemma_arrived;
use crate::scroll_tiler::item::Placement;
use crate::scroll_tiler::laws::{lemma_advanced_wf, lemma_taken_in_wf};
use crate::scroll_tiler::layout::{lemma_begun, LayoutPlan};
use crate::scroll_tiler::layout_laws::{law_windows_out_of_place_are_moved, lemma_moves_from};
use crate::scroll_tiler::snapshot::SnapshotPlan;
use crate::scroll_tiler::snapshot_laws::lemma_followed_wf;
use crate::scroll_tiler::strip::{is_tiled, lemma_position_bounds, Strip, MAX_WINDOWS};
use crate::window::{padded_on, BatchMove, Desktop, Window};

verus! {

/// The move puts the window of tile `i` where the strip has it on record.
pub open spec fn puts_tile(s: Strip, desk: Desktop, m: BatchMove, i: int) -> bool {
    &&& 0 <= i < s.windows.len()
    &&& s.windows[i].inner == m.window
    &&& s.windows[i].last_layout matches Some(p) && padded_on(
        desk,
        m.window,
        Position { x: p.x, y: p.y },
        Size { width: p.width, height: p.height },
    ) == Some(m.rect)
}

/// The move puts some window where the strip has it on record.
pub open spec fn puts_some_tile(s: Strip, desk: Desktop, m: BatchMove) -> bool {
    exists|i: int| #[trigger] puts_tile(s, desk, m, i)
}

/// So does every move of the plan.
pub open spec fn leads_to(plan: LayoutPlan, s: Strip, desk: Desktop) -> bool {
    forall|k: int|
        0 <= k < plan.moves@.len() ==> puts_some_tile(s, desk, #[trigger] plan.moves@[k])
}

/// The two places are more than half a pixel apart on some side.
pub open spec fn elsewhere(was: Option<Placement>, is: Option<Placement>) -> bool {
    match (was, is) {
        (Some(a), Some(b)) => magnitude(a.x - b.x) > 500 || magnitude(a.y - b.y) > 500 || magnitude(
            a.width - b.width,
        ) > 500 || magnitude(a.height - b.height) > 500,
        (None, Some(_)) => true,
        _ => false,
    }
}

/// The plan moves the window.
pub open spec fn moves_window(plan: LayoutPlan, w: Window) -> bool {
    exists|k: int| 0 <= k < plan.moves@.len() && (#[trigger] plan.moves@[k]).window == w
}

/// The moves that a layout asks for put windows where they are on record after
/// it.
pub proof fn law_layout_plan_leads_to_the_record(
    s: Strip,
    pos: Seq<i64>,
    desk: Desktop,
    plan: LayoutPlan,
)
    requires
        s.wf(),
        s.layout_plan(pos, desk, plan),
    ensures
        leads_to(plan, s.laid(pos, desk), desk),
{
    lemma_begun(s, desk);
    let b = s.begun(desk);
    let r = s.laid(pos, desk);
    assert forall|k: int| 0 <= k < plan.moves@.len() implies puts_some_tile(
        r,
        desk,
        #[trigger] plan.moves@[k],
    ) by {
        let i = lemma_moves_from(b, pos, desk, s.windows.len() as int, k);
        assert(r.windows[i] == b.laid_item(pos, desk, i));
        assert(puts_tile(r, desk, plan.moves@[k], i));
    }
}

/// What scrolling and frames of animations ask for puts windows where they are on
/// record then.
pub proof fn law_scroll_plans_lead_to_the_record(
    s: Strip,
    offset: i64,
    duration_ms: u32,
    desk: Desktop,
    plan: LayoutPlan,
)
    requires
        s.wf(),
    ensures
        s.sent_plan(offset, desk, plan) ==> leads_to(plan, s.sent_to(offset, desk), desk),
        s.timed_plan(offset, duration_ms, desk, plan) ==> leads_to(
            plan,
            s.timed_to(offset, duration_ms, desk),
            desk,
        ),
        s.tick_plan(desk, plan) ==> leads_to(plan, s.ticked(desk), desk),
{
    if s.sent_plan(offset, desk, plan) && !s.smooth_scroll_enabled {
        let t = s.at_offset(offset);
        law_layout_plan_leads_to_the_record(t, t.positions(desk), desk, plan);
        lemma_same_record(plan, t.laid(t.positions(desk), desk), s.sent_to(offset, desk), desk);
    }
    if s.timed_plan(offset, duration_ms, desk, plan) && duration_ms == 0 {
        let t = Strip { scroll_target: None, ..s }.at_offset(offset);
        law_layout_plan_leads_to_the_record(t, t.positions(desk), desk, plan);
        lemma_same_record(
            plan,
            t.laid(t.positions(desk), desk),
            s.timed_to(offset, duration_ms, desk),
            desk,
        );
    }
    if s.tick_plan(desk, plan) && s.animating() {
        lemma_advanced_wf(s, desk.now);
        let t = s.advanced(desk.now);
        law_layout_plan_leads_to_the_record(t, t.positions(desk), desk, plan);
        lemma_same_record(plan, t.laid(t.positions(desk), desk), s.ticked(desk), desk);
    }
}

/// Only what is on record matters.
proof fn lemma_same_record(plan: LayoutPlan, a: Strip, b: Strip, desk: Desktop)
    requires
        leads_to(plan, a, desk),
        a.windows == b.windows,
    ensures
        leads_to(plan, b, desk),
{
    assert forall|k: int| 0 <= k < plan.moves@.len() implies puts_some_tile(
        b,
        desk,
        #[trigger] plan.moves@[k],
    ) by {
        assert(puts_some_tile(a, desk, plan.moves@[k]));
        let i = choose|i: int| #[trigger] puts_tile(a, desk, plan.moves@[k], i);
        assert(puts_tile(b, desk, plan.moves@[k], i));
    }
}

/// A jump moves every visible window that is then on record somewhere else than
/// before, and whose borders are known. The layout must take place and no window
/// sit it out.
pub proof fn law_jump_moves_every_window(
    s: Strip,
    offset: i64,
    desk: Desktop,
    plan: LayoutPlan,
    i: int,
)
    requires
        s.wf(),
        !s.smooth_scroll_enabled,
        !desk.mouse_held,
        !s.at_offset(offset).animating() || !s.throttle_slow_apps,
        s.sent_plan(offset, desk, plan),
        0 <= i < s.windows.len(),
        !desk.hidden(s.windows[i].inner),
        desk.frame_of(s.windows[i].inner) is Some,
        desk.outer_of(s.windows[i].inner) is Some,
        elsewhere(s.windows[i].last_layout, s.sent_to(offset, desk).windows[i].last_layout),
    ensures
        moves_window(plan, s.windows[i].inner),
{
    let t = s.at_offset(offset);
    lemma_out_of_place(t, desk, plan, i);
}

proof fn lemma_out_of_place(t: Strip, desk: Desktop, plan: LayoutPlan, i: int)
    requires
        t.wf(),
        !desk.mouse_held,
        !t.animating() || !t.throttle_slow_apps,
        t.layout_plan(t.positions(desk), desk, plan),
        0 <= i < t.windows.len(),
        !desk.hidden(t.windows[i].inner),
        desk.frame_of(t.windows[i].inner) is Some,
        desk.outer_of(t.windows[i].inner) is Some,
        elsewhere(
            t.windows[i].last_layout,
            t.laid(t.positions(desk), desk).windows[i].last_layout,
        ),
    ensures
        moves_window(plan, t.windows[i].inner),
{
    let pos = t.positions(desk);
    assert forall|k: int| 0 <= k < pos.len() implies crate::geometry::position_ok(
        #[trigger] pos[k],
    ) by {
        lemma_position_bounds(t.windows, desk, t.padding as int, k);
    }
    law_windows_out_of_place_are_moved(t, pos, desk, i);
    let moves = t.layout_moves(pos, desk);
    let w = t.windows[i].inner;
    if exists|k: int| 0 <= k < moves.len() && (#[trigger] moves[k]).window == w {
        let k = choose|k: int| 0 <= k < moves.len() && (#[trigger] moves[k]).window == w;
        assert(plan.moves@[k].window == w);
    }
}

/// What a snapshot asks for at the end puts windows where they are on record then.
pub proof fn law_snapshot_plan_leads_to_the_record(
    s: Strip,
    snapshot: Seq<Window>,
    desk: Desktop,
    tiling_hmonitor: i64,
    plan: SnapshotPlan,
)
    requires
        s.wf(),
        s.windows.len() + snapshot.len() <= MAX_WINDOWS,
        s.snapshot_plan(snapshot, desk, tiling_hmonitor, plan),
    ensures
        leads_to(plan.layout, s.snapped(snapshot, desk, tiling_hmonitor), desk),
{
    let t = s.taken_in(snapshot, desk, tiling_hmonitor);
    lemma_taken_in_wf(s, snapshot, desk, tiling_hmonitor);
    lemma_followed_wf(t, desk);
    let f = t.focus_followed(desk);
    law_layout_plan_leads_to_the_record(f, t.positions(desk), desk, plan.layout);
    lemma_same_record(
        plan.layout,
        f.laid(t.positions(desk), desk),
        s.snapped(snapshot, desk, tiling_hmonitor),
        desk,
    );
}

/// A window that has got its tile from a snapshot is moved by what the snapshot
/// asks for, if it is visible and its borders are known. The layout must take
/// place and no window sit it out.
#[verifier::rlimit(40)]
pub proof fn law_new_windows_are_moved_into_the_strip(
    s: Strip,
    snapshot: Seq<Window>,
    desk: Desktop,
    tiling_hmonitor: i64,
    plan: SnapshotPlan,
    k: int,
)
    requires
        s.wf(),
        s.windows.len() + snapshot.len() <= MAX_WINDOWS,
        s.snapshot_plan(snapshot, desk, tiling_hmonitor, plan),
        !desk.mouse_held,
        !s.throttle_slow_apps,
        0 <= k < s.snapped(snapshot, desk, tiling_hmonitor).windows.len(),
        ({
            let w = s.snapped(snapshot, desk, tiling_hmonitor).windows[k].inner;
            &&& !is_tiled(s.windows, w)
            &&& !desk.hidden(w)
            &&& desk.frame_of(w) is Some
            &&& desk.outer_of(w) is Some
        }),
    ensures
        ({
            let w = s.snapped(snapshot, desk, tiling_hmonitor).windows[k].inner;
            moves_window(plan.recenter, w) || moves_window(plan.layout, w)
        }),
{
    let t = s.taken_in(snapshot, desk, tiling_hmonitor);
    lemma_taken_in_wf(s, snapshot, desk, tiling_hmonitor);
    lemma_followed_wf(t, desk);
    lemma_arrived(s, snapshot, desk, tiling_hmonitor, k);
    let w = t.windows[k].inner;
    let pos = t.positions(desk);
    assert(t.windows[k].last_layout is None);
    if t.jumps(desk) && !t.smooth_scroll_enabled {
        let u = t.at_offset(t.focus_offset(desk));
        lemma_always_placed(u, u.positions(desk), desk, k);
        lemma_out_of_place(u, desk, plan.recenter, k);
    } else {
        let f = t.focus_followed(desk);
        assert(f.windows == t.windows);
        assert(f.positions(desk) == pos);
        lemma_always_placed(f, pos, desk, k);
        lemma_out_of_place(f, desk, plan.layout, k);
    }
}

/// Where no window sits the layout out, every visible tile has a place on record
/// after it.
proof fn lemma_always_placed(s: Strip, pos: Seq<i64>, desk: Desktop, i: int)
    requires
        s.wf(),
        !desk.mouse_held,
        !s.throttle_slow_apps,
        0 <= i < s.windows.len(),
        !desk.hidden(s.windows[i].inner),
    ensures
        s.laid(pos, desk).windows[i].last_layout is Some,
{
    lemma_begun(s, desk);
    let b = s.begun(desk);
    assert(s.laid(pos, desk).windows[i] == b.laid_item(pos, desk, i));
}

} // verus!
