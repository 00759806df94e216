//! What keys, commands and the published state come to.
use vstd::prelude::*;

use crate::api::types::{ApiCommand, NamedAction};
use crate::api::ApiState;
use crate::app::action::{shortcut, Action, Held, Key, OverviewAction, TilerAction};
use crate::app::messages::{action_of, Effect, GlobalMessage, Message};
use crate::app::overview::laws::law_closing_lets_go_of_everything;
use crate::app::overview::{ReleaseOutcome, ThumbnailMove};
use crate::app::tiling::{
    hmonitor_of, monitor_text, published_state, seeded_strip, snapshot_windows, updatable, TilerUpdate,
};
use crate::app::{border_opacity, info_texts, title_text, Mode, State, Surroundings};
use crate::config::Config;
use crate::geometry::{magnitude, Rect};
use crate::monitor::{handle_mask, MonitorError};
use crate::scroll_tiler::command_laws::{
    has_focus, law_focus_steps_to_the_nearest_visible_tile,
    law_focused_tile_is_that_of_the_focused_window, law_named_widths_fill_the_screen,
    law_resize_steps_by_the_increment, law_swap_exchanges_neighbours, nearest_visible,
    none_visible, nothing_focused, steps_from,
};
use crate::scroll_tiler::commands::Direction;
use crate::scroll_tiler::laws::{
    accounted_for, law_first_update_tiles_every_window, law_strip_follows_the_snapshot,
};
use crate::scroll_tiler::item::WindowItem;
use crate::scroll_tiler::layout::lemma_laid_wf;
use crate::scroll_tiler::motion_laws::{
    heading, law_frames_keep_the_heading, law_new_width_is_for_one_tile,
};
use crate::scroll_tiler::snapshot::lemma_bulk_seeded;
use crate::scroll_tiler::snapshot_laws::{
    bound_for, law_newly_focused_tile_comes_into_view, law_snapshot_remembers_the_focused_tile,
    lemma_snapped_settings, whole_on_screen_at,
};
use crate::scroll_tiler::strip::{
    cursor, hwnd_mask, is_tiled, lemma_position_bounds, tile_mask, Strip, MAX_WINDOWS,
};
use crate::search::{lemma_first_hit, lemma_first_miss};
use crate::window::filter::{law_ordinary_windows_are_tiled, tile_verdict, QueryFailed};
use crate::window::{Desktop, Window};

verus! {

/// The keys that do what an action on the wire does.
pub open spec fn keys_for(named: NamedAction) -> (Held, Key) {
    let win = Held { win: true, control: false, shift: false, alt: false };
    let control = Held { control: true, ..win };
    let shift = Held { shift: true, ..win };
    match named {
        NamedAction::FocusPrev => (win, Key::Left),
        NamedAction::FocusNext => (win, Key::Right),
        NamedAction::SwapPrev => (control, Key::Left),
        NamedAction::SwapNext => (control, Key::Right),
        NamedAction::ResizeFullscreen => (win, Key::F),
        NamedAction::ResizeHalfscreen => (win, Key::C),
        NamedAction::WidthIncrement => (shift, Key::Right),
        NamedAction::WidthDecrement => (shift, Key::Left),
        NamedAction::Refresh => (win, Key::R),
        NamedAction::CenterFocused => (win, Key::H),
        NamedAction::OpenOverview => (win, Key::Up),
        NamedAction::CloseOverview => (win, Key::Down),
        NamedAction::OpenSettings => (win, Key::Comma),
        NamedAction::Exit => (win, Key::Escape),
    }
}

/// An action on the wire does what its keys do.
pub proof fn law_wire_names_do_what_keys_do(named: NamedAction)
    ensures
        shortcut(keys_for(named).0, keys_for(named).1) == Some(action_of(named)),
{
}

/// No key does anything without the Windows key, or with Alt. Different keys do
/// different things.
pub proof fn law_keys_do_different_things(a: Held, x: Key, b: Held, y: Key)
    ensures
        !a.win || a.alt ==> shortcut(a, x) is None,
        shortcut(a, x) is Some && shortcut(a, x) == shortcut(b, y) ==> a == b && x == y,
{
}

/// Tile `i` would be in the middle of a screen scrolled to `at` if it were
/// `width` wide, but for what does not divide.
pub open spec fn centered_at(s: Strip, x: int, width: int, at: int) -> bool {
    magnitude(2 * (x - at) + width - s.screen_size.width) <= 2
}

/// Only the strip changes, and of it neither the tiles nor their widths.
pub open spec fn only_scrolls(before: State, after: State) -> bool {
    &&& after == (State { tiler: after.tiler, ..before })
    &&& after.tiler@.windows.len() == before.tiler@.windows.len()
    &&& forall|k: int|
        0 <= k < after.tiler@.windows.len() ==> (
        #[trigger] after.tiler@.windows[k]).same_tile(before.tiler@.windows[k])
}

/// A command to scroll makes the strip head for the offset that it names, or for
/// the one that lies by the named distance from where the strip heads, or, over
/// time, from where it is. No tile changes its window or its width.
pub proof fn law_scroll_commands_lead_where_they_say(
    state: State,
    command: ApiCommand,
    env: Surroundings,
    after: State,
    effect: Effect,
)
    requires
        state.wf(),
        state.tiling(),
        command is SetScrollOffset || command is ScrollBy,
        state.commanded(command, env, after, effect),
    ensures
        ({
            let s = state.tiler@;
            let r = after.tiler@;
            &&& only_scrolls(state, after)
            &&& effect is Layout
            &&& command matches ApiCommand::SetScrollOffset { offset, animate_ms } ==> heading(r)
                == offset && (animate_ms == 0 ==> r.scroll_offset == offset) && (animate_ms > 0
                ==> r.scroll_offset == s.scroll_offset)
            &&& command matches ApiCommand::ScrollBy { delta, animate_ms } ==> {
                &&& animate_ms == 0 && (s.smooth_scroll_enabled || s.scroll_target is None)
                    && i64::MIN <= bound_for(s) + delta <= i64::MAX ==> r.scroll_offset
                    == bound_for(s) + delta
                &&& animate_ms > 0 && i64::MIN <= s.scroll_offset + delta <= i64::MAX
                    ==> heading(r) == s.scroll_offset + delta && r.scroll_offset
                    == s.scroll_offset
            }
        }),
{
    let s = state.tiler@;
    let o = match command {
        ApiCommand::SetScrollOffset { offset, .. } => offset,
        ApiCommand::ScrollBy { delta, animate_ms } => (if animate_ms == 0 {
            s.offset_by(delta as int)
        } else {
            crate::geometry::scroll_clamped(s.scroll_offset + delta)
        }) as i64,
        _ => 0,
    };
    let still = Strip { scroll_target: None, ..s }.at_offset(o);
    lemma_laid_wf(still, still.positions(env.desk), env.desk);
    assert forall|k: int| 0 <= k < after.tiler@.windows.len() implies (
    #[trigger] after.tiler@.windows[k]).same_tile(s.windows[k]) by {
        assert(still.laid(still.positions(env.desk), env.desk).windows[k].same_tile(
            still.windows[k],
        ));
    }
}

/// Tile `i` changes its width to `width`, at once or over time; no other tile
/// changes.
pub open spec fn resizes_one(
    s: Strip,
    r: Strip,
    i: int,
    width: int,
    animate_ms: u32,
    now: u64,
) -> bool {
    &&& r.windows.len() == s.windows.len()
    &&& forall|k: int|
        0 <= k < s.windows.len() && k != i ==> (#[trigger] r.windows[k]).same_tile(s.windows[k])
    &&& r.windows[i].inner == s.windows[i].inner
    &&& if animate_ms == 0 {
        r.windows[i].width == width && r.windows[i].width_animation is None
    } else {
        r.windows[i].width == s.windows[i].width && (r.windows[i].width_animation matches Some(a)
            && a.target_width == width && a.start_width == s.windows[i].width && a.start_time == now
            && a.duration == animate_ms * 1_000_000)
    }
}

/// A command to resize changes the width of the tile that it names, to what it
/// says but at least to 50 pixels and at most to the widest a tile may be. Where
/// the tile is to be centered, the strip heads for the offset at which it is in
/// the middle once it has that width; else it does not scroll.
pub proof fn law_resize_command_changes_one_tile(
    state: State,
    hwnd: u64,
    target_width: i64,
    animate_ms: u32,
    center: bool,
    env: Surroundings,
    after: State,
    effect: Effect,
    i: int,
)
    requires
        state.wf(),
        state.tiling(),
        0 <= i < state.tiler@.windows.len(),
        state.tiler@.windows[i].inner.hwnd == hwnd,
        50_000 <= state.tiler@.screen_size.width - 2 * state.tiler@.padding - 1000,
        state.tiler@.smooth_scroll_enabled || state.tiler@.scroll_target is None,
        state.commanded(
            ApiCommand::ResizeWindow { hwnd, target_width, animate_ms, center },
            env,
            after,
            effect,
        ),
    ensures
        ({
            let s = state.tiler@;
            let r = after.tiler@;
            let widest = s.screen_size.width - 2 * s.padding - 1000;
            let width = if target_width < 50_000 {
                50_000
            } else if target_width > widest {
                widest
            } else {
                target_width as int
            };
            &&& after == (State { tiler: after.tiler, ..state })
            &&& resizes_one(s, r, i, width, animate_ms, env.desk.now)
            &&& center ==> centered_at(s, s.positions(env.desk)[i] as int, width, heading(r))
            &&& !center ==> r.scroll_offset == s.scroll_offset && r.scroll_target
                == s.scroll_target && r.scroll_animation == s.scroll_animation
        }),
{
    let s = state.tiler@;
    let r = after.tiler@;
    let desk = env.desk;
    let mask = hwnd_mask(s.windows, hwnd);
    assert(mask[i]);
    assert forall|k: int| 0 <= k < i implies !mask[k] by {
        if mask[k] {
            assert(s.windows[k].inner == s.windows[i].inner);
        }
    }
    lemma_first_hit(mask, i);
    let width = state.wire_width(target_width) as i64;
    let resized = s.width_sent(hwnd, width, animate_ms, desk.now);
    assert(s.windows[i].ok());
    assert forall|k: int| 0 <= k < s.windows.len() && k != i implies (
    #[trigger] resized.windows[k]) == s.windows[k] by {
        law_new_width_is_for_one_tile(s, hwnd, width, animate_ms, desk.now, k);
        assert(s.windows[k].inner != s.windows[i].inner);
    }
    law_new_width_is_for_one_tile(s, hwnd, width, animate_ms, desk.now, i);
    lemma_width_sent_wf(s, hwnd, width, animate_ms, desk.now, i);
    assert(resized.positions(desk)[i] == s.positions(desk)[i]) by {
        lemma_cursor_before(s.windows, resized.windows, desk, s.padding as int, i);
    }
    lemma_position_bounds(s.windows, desk, s.padding as int, i);
    if center && !s.smooth_scroll_enabled {
        let o = resized.centering_offset(resized.positions(desk)[i] as int, width as int) as i64;
        let t = resized.at_offset(o);
        lemma_laid_wf(t, t.positions(desk), desk);
        assert forall|k: int| 0 <= k < r.windows.len() implies (#[trigger] r.windows[k]).same_tile(
            resized.windows[k],
        ) by {
            assert(t.laid(t.positions(desk), desk).windows[k].same_tile(t.windows[k]));
        }
    }
}

proof fn lemma_width_sent_wf(
    s: Strip,
    hwnd: u64,
    width: i64,
    animate_ms: u32,
    now: u64,
    i: int,
)
    requires
        s.wf(),
        crate::geometry::width_ok(width),
        s.tile_of(hwnd) == Some(i),
        0 <= i < s.windows.len(),
    ensures
        s.width_sent(hwnd, width, animate_ms, now).wf(),
{
    let r = s.width_sent(hwnd, width, animate_ms, now);
    assert forall|k: int| 0 <= k < r.windows.len() implies (#[trigger] r.windows[k]).ok()
        && r.windows[k].inner == s.windows[k].inner by {
        assert(s.windows[k].ok());
    }
    crate::scroll_tiler::snapshot::lemma_same_windows(s.windows, r.windows);
}

proof fn lemma_cursor_before(
    a: Seq<WindowItem>,
    b: Seq<WindowItem>,
    desk: Desktop,
    padding: int,
    upto: int,
)
    requires
        0 <= upto <= a.len(),
        a.len() == b.len(),
        forall|k: int| 0 <= k < upto ==> #[trigger] a[k] == b[k],
    ensures
        cursor(a, desk, padding, upto) == cursor(b, desk, padding, upto),
    decreases upto,
{
    if upto > 0 {
        lemma_cursor_before(a, b, desk, padding, upto - 1);
        assert(a[upto - 1] == b[upto - 1]);
    }
}

/// A command on a window that has no tile comes to nothing, and so does one
/// without a handle.
pub proof fn law_commands_need_a_window(
    state: State,
    command: ApiCommand,
    env: Surroundings,
    after: State,
    effect: Effect,
)
    requires
        state.commanded(command, env, after, effect),
        match command {
            ApiCommand::ResizeWindow { hwnd, .. } => forall|k: int|
                0 <= k < state.tiler@.windows.len() ==> (
                #[trigger] state.tiler@.windows[k]).inner.hwnd != hwnd,
            ApiCommand::Focus(hwnd) => hwnd == 0,
            ApiCommand::WakeWindow { hwnd } => hwnd == 0,
            ApiCommand::MoveToMonitor { hwnd, .. } => hwnd == 0,
            _ => false,
        },
    ensures
        after.tiler@ == state.tiler@,
        after == (State { tiler: after.tiler, ..state }),
        effect is Nothing,
{
    match command {
        ApiCommand::ResizeWindow { hwnd, .. } => {
            lemma_first_miss(hwnd_mask(state.tiler@.windows, hwnd));
        },
        _ => {},
    }
}

/// `effect` gives the focus to the nearest visible tile on one side of `b`, or to
/// none where there is none.
pub open spec fn focuses_nearest(
    s: Strip,
    desk: Desktop,
    b: int,
    side: Direction,
    effect: Effect,
) -> bool {
    match effect {
        Effect::Focus(w) => exists|j: int| #[trigger]
            nearest_visible(s, desk, b, side, j) && s.windows[j].inner == w,
        Effect::Nothing => none_visible(s, desk, b, side),
        _ => false,
    }
}

/// Stepping the focus by key goes to the nearest visible tile on that side, or
/// nowhere, and changes nothing else.
pub proof fn law_focus_keys_step_to_the_nearest_tile(
    state: State,
    env: Surroundings,
    cfg: Config,
    after: State,
    effect: Effect,
    b: int,
)
    requires
        state.wf(),
        steps_from(state.tiler@, env.desk, b),
        b <= state.tiler@.windows.len(),
    ensures
        state.tiler_acted(TilerAction::MoveFocusNext, env, cfg, after, effect) ==> after == state
            && focuses_nearest(state.tiler@, env.desk, b, Direction::Right, effect),
        state.tiler_acted(TilerAction::MoveFocusPrevious, env, cfg, after, effect) ==> after
            == state && focuses_nearest(state.tiler@, env.desk, b, Direction::Left, effect),
{
    let s = state.tiler@;
    law_focus_steps_to_the_nearest_visible_tile(s, env.desk, Direction::Right, b);
    law_focus_steps_to_the_nearest_visible_tile(s, env.desk, Direction::Left, b);
}

/// Swapping by key exchanges the focused tile with its neighbour on that side.
pub proof fn law_swap_keys_exchange_neighbours(
    state: State,
    next: bool,
    env: Surroundings,
    cfg: Config,
    after: State,
    effect: Effect,
    i: int,
)
    requires
        state.wf(),
        state.tiler_acted(
            if next {
                TilerAction::SwapWithNext
            } else {
                TilerAction::SwapWithPrevious
            },
            env,
            cfg,
            after,
            effect,
        ),
        has_focus(state.tiler@, env.desk, i),
    ensures
        ({
            let s = state.tiler@.windows;
            let r = after.tiler@.windows;
            let j = if next {
                i + 1
            } else {
                i - 1
            };
            &&& effect is Refresh
            &&& r.len() == s.len()
            &&& 0 <= j < s.len() ==> r[i] == s[j] && r[j] == s[i] && forall|k: int|
                0 <= k < r.len() && k != i && k != j ==> #[trigger] r[k] == s[k]
            &&& !(0 <= j < s.len()) ==> r =~= s
        }),
{
    let side = if next {
        Direction::Right
    } else {
        Direction::Left
    };
    law_swap_exchanges_neighbours(state.tiler@, env.desk, side, i);
}

/// The keys for widths ask for one of the focused tile alone: the widest, which
/// leaves a pixel of the screen, half the screen with its gaps, or one a step
/// away from what it has, as far as a tile may be that narrow or wide.
pub proof fn law_width_keys_ask_for_widths(
    state: State,
    action: TilerAction,
    env: Surroundings,
    cfg: Config,
    after: State,
    effect: Effect,
    i: int,
)
    requires
        state.wf(),
        0 <= state.tiler@.max_screen_width(),
        action == TilerAction::ResizeToFullscreen || action == TilerAction::ResizeToHalfScreen
            || action == TilerAction::IncrementWidth || action == TilerAction::DecrementWidth,
        state.tiler_acted(action, env, cfg, after, effect),
        has_focus(state.tiler@, env.desk, i),
    ensures
        ({
            let s = state.tiler@;
            let r = after.tiler@.windows;
            let screen = s.screen_size.width;
            let widest = screen - 2 * s.padding - 1000;
            let step = s.resize_increment;
            let old_width = s.windows[i].width;
            &&& effect is Refresh
            &&& r.len() == s.windows.len()
            &&& forall|k: int| 0 <= k < r.len() && k != i ==> #[trigger] r[k] == s.windows[k]
            &&& r[i].requested_width matches Some(w) && match action {
                TilerAction::ResizeToFullscreen => w == widest,
                TilerAction::ResizeToHalfScreen => 0 <= screen - 2 * (w + 2 * s.padding) < 2,
                TilerAction::IncrementWidth => (0 <= old_width + step <= widest ==> w == old_width
                    + step) && 0 <= w <= widest,
                _ => (0 <= old_width - step <= widest ==> w == old_width - step) && 0 <= w
                    <= widest,
            }
        }),
{
    let s = state.tiler@;
    law_focused_tile_is_that_of_the_focused_window(s, env.desk, i);
    law_named_widths_fill_the_screen(s);
    law_resize_steps_by_the_increment(s, env.desk, i, true);
    law_resize_steps_by_the_increment(s, env.desk, i, false);
    assert(s.windows[i].ok());
}

/// The key for centering makes the strip head for the offset at which the
/// focused tile is in the middle of the screen.
pub proof fn law_centering_key_centers_the_focused_tile(
    state: State,
    env: Surroundings,
    cfg: Config,
    after: State,
    effect: Effect,
    i: int,
)
    requires
        state.wf(),
        state.tiler@.smooth_scroll_enabled || state.tiler@.scroll_target is None,
        state.tiler_acted(TilerAction::CenterFocused, env, cfg, after, effect),
    ensures
        ({
            let s = state.tiler@;
            &&& has_focus(s, env.desk, i) ==> centered_at(
                s,
                s.positions(env.desk)[i] as int,
                s.windows[i].width as int,
                heading(after.tiler@),
            )
            &&& nothing_focused(s, env.desk) ==> after.tiler@ == s
        }),
{
    let s = state.tiler@;
    law_focused_tile_is_that_of_the_focused_window(s, env.desk, i);
    if has_focus(s, env.desk, i) {
        lemma_position_bounds(s.windows, env.desk, s.padding as int, i);
        assert(s.windows[i].ok());
    }
}

/// The key for closing asks the focused window to close, and no other.
pub proof fn law_closing_key_closes_the_focused_window(
    state: State,
    env: Surroundings,
    cfg: Config,
    after: State,
    effect: Effect,
    i: int,
)
    requires
        state.wf(),
        state.tiler_acted(TilerAction::CloseCurrent, env, cfg, after, effect),
    ensures
        after == state,
        has_focus(state.tiler@, env.desk, i) ==> effect == Effect::CloseWindow(
            state.tiler@.windows[i].inner,
        ),
        nothing_focused(state.tiler@, env.desk) ==> effect is Nothing,
{
    law_focused_tile_is_that_of_the_focused_window(state.tiler@, env.desk, i);
}

/// The wheel makes the strip head so much further than it did, while the program
/// is tiling; at other times it does nothing.
pub proof fn law_wheel_scrolls_the_strip(
    state: State,
    delta: i64,
    env: Surroundings,
    after: State,
    effect: Effect,
)
    requires
        state.wf(),
        state.global_handled(GlobalMessage::HorizontalScroll { delta }, env, after, effect),
        state.tiler@.scroll_animation is None,
        state.tiler@.smooth_scroll_enabled || state.tiler@.scroll_target is None,
        i64::MIN <= heading(state.tiler@) + delta <= i64::MAX,
    ensures
        state.tiling() ==> heading(after.tiler@) == heading(state.tiler@) + delta,
        !state.tiling() ==> after == state && effect is Nothing,
{
}

/// The border is hidden for half a second after a motion and then fades in
/// evenly within a quarter of one. Where nothing ever moved it shows in full.
pub proof fn law_border_fades_in(t: u64)
    ensures
        border_opacity(None) == 1_000_000,
        t < 500_000_000 ==> border_opacity(Some(t)) == 0,
        t >= 750_000_000 ==> border_opacity(Some(t)) == 1_000_000,
        500_000_000 <= t < 750_000_000 ==> 250 * border_opacity(Some(t)) <= t - 500_000_000 < 250
            * (border_opacity(Some(t)) + 1),
{
}

/// What is published agrees with the strip: the window with the focus is the
/// focused one, the tiles come in their order with the places and widths that
/// they have, and exactly the monitor that is tiled on is marked so.
pub proof fn law_published_state_agrees_with_the_strip(
    state: State,
    env: Surroundings,
    cfg: Config,
    api: ApiState,
    i: int,
    m: int,
)
    requires
        state.wf(),
        published_state(state.mode, state.tiler@, env, cfg, api),
        0 <= i < state.tiler@.windows.len(),
        0 <= m < env.monitors@.len(),
    ensures
        ({
            let s = state.tiler@;
            &&& api.windows@.len() == s.windows.len()
            &&& api.windows@[i].id == s.windows[i].inner.hwnd
            &&& api.windows@[i].width == s.windows[i].width
            &&& api.windows@[i].x == s.positions(env.desk)[i]
            &&& api.windows@[i].minimized == env.desk.iconic(s.windows[i].inner)
            &&& has_focus(s, env.desk, i) ==> api.focused_window_id == Some(
                s.windows[i].inner.hwnd,
            )
            &&& nothing_focused(s, env.desk) ==> api.focused_window_id is None
            &&& api.scroll_offset == s.scroll_offset
            &&& api.screen_width == s.screen_size.width
            &&& api.screen_height == s.screen_size.height
            &&& api.monitors@.len() == env.monitors@.len()
            &&& api.monitors@[m].index == m
            &&& api.monitors@[m].device_name@ == env.monitors@[m].device_name@
            &&& api.monitors@[m].is_tiling <==> hmonitor_of(env, cfg) == Ok::<i64, MonitorError>(
                env.monitors@[m].hmonitor,
            )
        }),
{
    law_focused_tile_is_that_of_the_focused_window(state.tiler@, env.desk, i);
    assert(crate::app::tiling::published_window(state.tiler@, env, i, api.windows@[i]));
    assert(crate::app::tiling::published_monitor(env, cfg, m, api.monitors@[m]));
}

/// Once the focused window has been ignored by key, the configuration that is
/// then saved no longer lets it be tiled, and differs in nothing but one rule.
pub proof fn law_ignored_window_is_tiled_no_more(
    state: State,
    env: Surroundings,
    cfg: Config,
    after: State,
    effect: Effect,
    w: Window,
    saved: Config,
)
    requires
        state.tiler_acted(TilerAction::IgnoreFocusedWindow, env, cfg, after, effect),
        env.desk.foreground == Some(w),
        env.desk.valid(w),
        effect == Effect::Save(saved),
    ensures
        tile_verdict(env.desk, w, saved) != Ok::<bool, QueryFailed>(true),
        saved.filter.ignored_window_titles@.drop_last() == cfg.filter.ignored_window_titles@,
        saved.filter.ignored_classes@ == cfg.filter.ignored_classes@,
        saved.filter.ignored_processes@ == cfg.filter.ignored_processes@,
        saved.tiling == cfg.tiling,
{
    law_ordinary_windows_are_tiled(env.desk, w, saved);
    let o = env.desk.facts(w)->0;
    let rules = saved.filter.ignored_window_titles@;
    let last = rules.len() - 1;
    assert(rules[last] == rules.last());
    if crate::window::filter::ordinary(o) && crate::window::filter::unobjected(o, saved) {
        let rule = saved.filter.ignored_window_titles@[last];
        assert(rule.process@ == o.process->0@);
        assert(false);
    }
}

/// The strip before an update takes the desktop in is valid and has room for it.
proof fn lemma_update_base(state: State, env: Surroundings, cfg: Config)
    requires
        state.wf(),
        updatable(state, env, cfg),
        state.tiling(),
        env.enumerated,
        hmonitor_of(env, cfg) is Ok,
    ensures
        ({
            let s = seeded_strip(state, env, cfg);
            let windows = snapshot_windows(env, cfg);
            &&& s.wf()
            &&& s.windows.len() + windows.len() <= MAX_WINDOWS
            &&& s.previously_focused_window_index == state.tiler@.previously_focused_window_index
            &&& s.scroll_target == state.tiler@.scroll_target
            &&& s.scroll_animation == state.tiler@.scroll_animation
            &&& s.smooth_scroll_enabled == state.tiler@.smooth_scroll_enabled
            &&& s.was_mouse_held_last_snapshot == state.tiler@.was_mouse_held_last_snapshot
            &&& s.screen_size == state.tiler@.screen_size
            &&& s.padding == state.tiler@.padding
            &&& state.pending_initial_consolidation ==> forall|k: int|
                0 <= k < windows.len() ==> is_tiled(s.windows, #[trigger] windows[k])
        }),
{
    let windows = snapshot_windows(env, cfg);
    let s = seeded_strip(state, env, cfg);
    if state.pending_initial_consolidation {
        lemma_bulk_seeded(state.tiler@, windows, env.desk);
        let b = state.tiler@.bulk_seeded(windows, env.desk);
        lemma_laid_wf(b, b.positions(env.desk), env.desk);
        law_first_update_tiles_every_window(state.tiler@, windows, env.desk);
        assert forall|k: int| 0 <= k < windows.len() implies is_tiled(
            s.windows,
            #[trigger] windows[k],
        ) by {
            assert(is_tiled(b.windows, windows[k]));
            let a = choose|a: int|
                0 <= a < b.windows.len() && (#[trigger] b.windows[a]).inner == windows[k];
            assert(b.laid(b.positions(env.desk), env.desk).windows[a].same_tile(b.windows[a]));
            assert(s.windows[a].inner == windows[k]);
        }
    }
}

/// An update that works leaves a tile for every window that is to be tiled and is
/// on the tiling monitor, and none for a window that is neither to be tiled nor on
/// another virtual desktop. The first one leaves a tile for every window that is
/// to be tiled, whatever monitor it is on, unless a drag has just ended. An update
/// that does not work changes nothing.
pub proof fn law_update_brings_the_strip_up_to_date(
    state: State,
    env: Surroundings,
    cfg: Config,
    after: State,
    r: TilerUpdate,
    w: Window,
)
    requires
        state.wf(),
        updatable(state, env, cfg),
        state.tiler_updated(env, cfg, after, r),
    ensures
        ({
            let wanted = snapshot_windows(env, cfg).contains(w);
            let there = is_tiled(after.tiler@.windows, w);
            if state.tiling() && env.enumerated && hmonitor_of(env, cfg) is Ok {
                &&& r is Updated
                &&& !after.pending_initial_consolidation
                &&& wanted && env.desk.monitor_of(w) == hmonitor_of(env, cfg)->Ok_0 ==> there
                &&& there ==> wanted || env.desk.valid(w) && env.desk.cloaked(w)
                &&& wanted && state.pending_initial_consolidation && !state.tiler@.drag_ended(
                    env.desk,
                ) ==> there
            } else {
                after == state && r !is Updated
            }
        }),
{
    if state.tiling() && env.enumerated && hmonitor_of(env, cfg) is Ok {
        let s = seeded_strip(state, env, cfg);
        let windows = snapshot_windows(env, cfg);
        let hmonitor = hmonitor_of(env, cfg)->Ok_0;
        lemma_update_base(state, env, cfg);
        law_strip_follows_the_snapshot(s, windows, env.desk, hmonitor);
        let t = s.snapped(windows, env.desk, hmonitor);
        if windows.contains(w) {
            let k = choose|k: int| 0 <= k < windows.len() && windows[k] == w;
            assert(windows[k] == w);
            if state.pending_initial_consolidation && !state.tiler@.drag_ended(env.desk) {
                assert(is_tiled(s.windows, windows[k]));
                let i = choose|i: int|
                    0 <= i < s.windows.len() && (#[trigger] s.windows[i]).inner == w;
                assert(accounted_for(windows, env.desk, s.windows[i].inner));
                assert(is_tiled(t.windows, s.windows[i].inner));
            }
        }
        if is_tiled(t.windows, w) {
            let i = choose|i: int|
                0 <= i < t.windows.len() && (#[trigger] t.windows[i]).inner == w;
            assert(accounted_for(windows, env.desk, t.windows[i].inner));
        }
    }
}

/// The border is drawn around `frame`.
pub open spec fn bordered(mode: Mode, frame: Rect) -> bool {
    mode matches Mode::Tiler(m) && (m.current_border_bounds matches Some(b) && b.left == frame.left
        * 1000 && b.top == frame.top * 1000 && b.right == frame.right * 1000 && b.bottom
        == frame.bottom * 1000)
}

/// After an update the tile that has newly got the focus is, or will be, wholly on
/// the screen, and the border is drawn around the focused window. Left out are
/// tiles wider than a tile may be, and the case that smoothing was turned off
/// while the strip was on its way somewhere.
pub proof fn law_update_shows_the_focused_window(
    state: State,
    env: Surroundings,
    cfg: Config,
    after: State,
    r: TilerUpdate,
    i: int,
)
    requires
        state.wf(),
        updatable(state, env, cfg),
        state.tiler_updated(env, cfg, after, r),
        r is Updated,
        has_focus(after.tiler@, env.desk, i),
    ensures
        ({
            let t = after.tiler@;
            let f = env.desk.frame_of(t.windows[i].inner);
            &&& state.tiler@.previously_focused_window_index != Some(i as usize)
                && t.windows[i].width <= t.screen_size.width - 2 * t.padding - 1000 && (
            t.smooth_scroll_enabled || state.tiler@.scroll_target is None) ==> whole_on_screen_at(
                t,
                env.desk,
                i,
                bound_for(t),
            )
            &&& f is Some ==> bordered(after.mode, f->0)
        }),
{
    let s = seeded_strip(state, env, cfg);
    let windows = snapshot_windows(env, cfg);
    let hmonitor = hmonitor_of(env, cfg)->Ok_0;
    let t = after.tiler@;
    lemma_update_base(state, env, cfg);
    law_snapshot_remembers_the_focused_tile(s, windows, env.desk, hmonitor, i);
    lemma_snapped_settings(s, windows, env.desk, hmonitor);
    law_focused_tile_is_that_of_the_focused_window(t, env.desk, i);
    if state.tiler@.previously_focused_window_index != Some(i as usize) && t.windows[i].width
        <= t.screen_size.width - 2 * t.padding - 1000 && (t.smooth_scroll_enabled
        || state.tiler@.scroll_target is None) {
        law_newly_focused_tile_comes_into_view(s, windows, env.desk, hmonitor, i);
    }
}

/// Releasing the mouse button while a menu is open closes the menus and does
/// nothing else.
pub proof fn law_release_with_a_menu_open_closes_it(
    state: State,
    window_id: u64,
    env: Surroundings,
    cfg: Config,
    after: State,
    effect: Effect,
)
    requires
        state.menu_open(),
        state.mouse_released(window_id, env, cfg, after, effect),
    ensures
        !after.menu_open(),
        effect is Nothing,
        after.tiler == state.tiler,
        after.in_overview(),
{
}

/// The settings list every tile whose program and class are known, by both of
/// them, in the order of the strip and with its title.
pub proof fn law_settings_list_the_tiles(
    desk: Desktop,
    windows: Seq<WindowItem>,
    upto: int,
    i: int,
    j: int,
) -> (r: (int, int))
    requires
        0 <= i <= j < upto <= windows.len(),
        desk.process_of(windows[i].inner) is Some,
        desk.class_of(windows[i].inner) is Some,
        desk.process_of(windows[j].inner) is Some,
        desk.class_of(windows[j].inner) is Some,
    ensures
        ({
            let all = info_texts(desk, windows, upto);
            let t = title_text(desk, windows[j].inner);
            &&& 0 <= r.0 <= r.1 < all.len()
            &&& i < j ==> r.0 < r.1
            &&& all[r.0].process == desk.process_of(windows[i].inner)->0
            &&& all[r.1].process == desk.process_of(windows[j].inner)->0
            &&& all[r.1].class == desk.class_of(windows[j].inner)->0
            &&& t.len() <= 70 ==> all[r.1].title == t
            &&& t.len() > 70 ==> all[r.1].title.len() == 70 && all[r.1].title.take(69) == t.take(69)
        }),
    decreases upto,
{
    let t = title_text(desk, windows[j].inner);
    crate::text::law_long_texts_end_in_an_ellipsis(t, 70);
    let all = info_texts(desk, windows, upto);
    let before = info_texts(desk, windows, upto - 1);
    if j < upto - 1 {
        let r = law_settings_list_the_tiles(desk, windows, upto - 1, i, j);
        assert(all[r.0] == before[r.0] && all[r.1] == before[r.1]);
        r
    } else {
        let at = before.len() as int;
        assert(all[at].process == desk.process_of(windows[j].inner)->0);
        if t.len() > 70 {
            assert(all[at].title.take(69) =~= t.take(69));
        }
        if i == j {
            (at, at)
        } else {
            let r = law_settings_list_the_tiles(desk, windows, upto - 1, i, i);
            assert(all[r.0] == before[r.0]);
            (r.0, at)
        }
    }
}

/// The title of a window is what was observed of it; a window without a title has
/// an empty one.
pub proof fn law_title_is_what_was_observed(desk: Desktop, w: Window)
    requires
        desk.valid(w),
    ensures
        match desk.facts(w)->0.title {
            Some(Some(t)) => title_text(desk, w) == t@,
            _ => title_text(desk, w).len() == 0,
        },
{
}

/// The name published for the monitor of a window is that of the first monitor
/// with the handle that the window is on; where there is none, it is empty.
pub proof fn law_published_monitor_is_the_one_a_window_is_on(
    env: Surroundings,
    w: Window,
    i: int,
)
    requires
        i64::MIN <= env.desk.monitor_of(w) <= i64::MAX,
    ensures
        0 <= i < env.monitors@.len() && env.monitors@[i].hmonitor == env.desk.monitor_of(w) && (
        forall|k: int|
            0 <= k < i ==> (#[trigger] env.monitors@[k]).hmonitor != env.desk.monitor_of(w))
            ==> monitor_text(env, w) == env.monitors@[i].device_name@,
        (forall|k: int|
            0 <= k < env.monitors@.len() ==> (#[trigger] env.monitors@[k]).hmonitor
                != env.desk.monitor_of(w)) ==> monitor_text(env, w).len() == 0,
{
    let mask = handle_mask(env.monitors@, env.desk.monitor_of(w) as i64);
    if 0 <= i < env.monitors@.len() && env.monitors@[i].hmonitor == env.desk.monitor_of(w) && (
    forall|k: int|
        0 <= k < i ==> (#[trigger] env.monitors@[k]).hmonitor != env.desk.monitor_of(w)) {
        lemma_first_hit(mask, i);
    }
    if forall|k: int|
        0 <= k < env.monitors@.len() ==> (#[trigger] env.monitors@[k]).hmonitor
            != env.desk.monitor_of(w) {
        lemma_first_miss(mask);
    }
}

/// Closing the overview leads back to tiling and lets go of all its thumbnails and
/// windows; jumping to a window does that and then gives the window the focus.
/// Where no overview is open, neither does anything. The strip is left alone.
pub proof fn law_closing_the_overview_leads_back_to_tiling(
    state: State,
    jump: Option<Window>,
    env: Surroundings,
    cfg: Config,
    new_id: u64,
    after: State,
    effect: Effect,
    o: crate::app::overview::State,
    i: int,
    k: int,
)
    requires
        state.acted(
            Action::Overview(
                match jump {
                    Some(w) => OverviewAction::JumpTo(w),
                    None => OverviewAction::CloseOverview,
                },
            ),
            env,
            cfg,
            new_id,
            after,
            effect,
        ),
    ensures
        after.tiler == state.tiler,
        !state.in_overview() ==> after == state && effect is Nothing,
        state.mode == Mode::Overview(o) ==> after.tiling() && effect is CloseOverview
            && effect->jump == jump,
        state.mode == Mode::Overview(o) && 0 <= i < o.monitors@.len() ==> effect->closing.windows@[i]
            == o.monitors@[i].window_id,
        state.mode == Mode::Overview(o) && 0 <= i < o.monitors@.len() && 0 <= k
            < o.monitors@[i].thumbnails@.len() ==> effect->closing.thumbnails@.contains(
            o.monitors@[i].thumbnails@[k].thumbnail_id,
        ),
{
    if state.mode == Mode::Overview(o) && 0 <= i < o.monitors@.len() && 0 <= k
        < o.monitors@[i].thumbnails@.len() {
        let at = law_closing_lets_go_of_everything(
            o.monitors@,
            o.monitors@.len() as int,
            i,
            k,
        );
        assert(effect->closing.thumbnails@[at] == o.monitors@[i].thumbnails@[k].thumbnail_id);
    }
}

/// A click on a thumbnail jumps to its window, if no menu is open.
pub proof fn law_click_jumps_to_the_window(
    state: State,
    window_id: u64,
    env: Surroundings,
    cfg: Config,
    after: State,
    effect: Effect,
    w: Window,
)
    requires
        !state.menu_open(),
        state.release_meaning(window_id) == Some(ReleaseOutcome::Click(w)),
        state.mouse_released(window_id, env, cfg, after, effect),
    ensures
        effect == Effect::Dispatch(Action::Overview(OverviewAction::JumpTo(w))),
        after.tiler == state.tiler,
{
}

/// Dragging a thumbnail to another puts its tile into the place of the other: the
/// tile that was dragged is where the other one was.
pub proof fn law_drag_puts_a_tile_into_the_place_of_another(
    state: State,
    src: Window,
    dst: Window,
    env: Surroundings,
    cfg: Config,
    after: State,
    moves: Seq<ThumbnailMove>,
    s: int,
    d: int,
)
    requires
        state.wf(),
        state.reordered_to(src, dst, env, cfg, after, moves),
        0 <= s < state.tiler@.windows.len(),
        0 <= d < state.tiler@.windows.len(),
        state.tiler@.windows[s].inner == src,
        state.tiler@.windows[d].inner == dst,
    ensures
        after.tiler@.windows.len() == state.tiler@.windows.len(),
        after.tiler@.windows[d] == state.tiler@.windows[s],
        s < d ==> forall|k: int|
            s < k <= d ==> after.tiler@.windows[k - 1] == #[trigger] state.tiler@.windows[k],
        d < s ==> forall|k: int|
            d <= k < s ==> after.tiler@.windows[k + 1] == #[trigger] state.tiler@.windows[k],
        after.tiler@.scroll_offset == state.tiler@.scroll_offset,
{
    let windows = state.tiler@.windows;
    let ms = tile_mask(windows, src);
    let md = tile_mask(windows, dst);
    assert(ms[s]);
    assert forall|k: int| 0 <= k < s implies !ms[k] by {
        if ms[k] {
            assert(windows[k].inner == windows[s].inner);
        }
    }
    lemma_first_hit(ms, s);
    assert(md[d]);
    assert forall|k: int| 0 <= k < d implies !md[k] by {
        if md[k] {
            assert(windows[k].inner == windows[d].inner);
        }
    }
    lemma_first_hit(md, d);
}

/// A frame changes nothing but the strip, and does not change where that heads.
/// A window that was closed is the settings' no more, and nothing else changes.
pub proof fn law_frames_and_closed_windows(
    state: State,
    id: u64,
    env: Surroundings,
    cfg: Config,
    new_id: u64,
    after: State,
    effect: Effect,
)
    requires
        state.wf(),
    ensures
        state.answered(Message::AnimationTick, env, cfg, new_id, after, effect) ==> after == (
        State { tiler: after.tiler, ..state }) && (state.tiler@.windows.len() > 0 ==> heading(
            after.tiler@,
        ) == heading(state.tiler@)),
        state.answered(Message::WindowClosed(id), env, cfg, new_id, after, effect)
            ==> effect is Nothing && after.settings_window_id != Some(id) && after.tiler
            == state.tiler && after.mode == state.mode && (state.settings_window_id != Some(id)
            ==> after == state),
{
    if state.tiler@.windows.len() > 0 {
        law_frames_keep_the_heading(state.tiler@, env.desk, 0);
    }
}

} // verus!
