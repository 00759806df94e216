//! Where scrolling and animations lead.
use vstd::prelude::*;

use crate::geometry::magnitude;
use crate::scroll_tiler::layout::lemma_laid_wf;
use crate::scroll_tiler::motion::{
    eased, eased_share, lemma_eased_share, lemma_scaled, lemma_smoothed, progress, smoothed, EASE_STEPS,
    MILLISECOND,
};
use crate::scroll_tiler::strip::{hwnd_mask, Strip};
use crate::search::{first_true, lemma_first_true};
use crate::window::Desktop;

verus! {

/// The offset that the strip is at, or on its way to.
pub open spec fn heading(s: Strip) -> int {
    match (s.scroll_target, s.scroll_animation) {
        (Some(t), _) => t as int,
        (None, Some(a)) => a.target_offset as int,
        (None, None) => s.scroll_offset as int,
    }
}

/// Sending the strip to an offset makes it head there and nowhere else: on its
/// way where scrolling is smoothed, at once where not.
pub proof fn law_strip_heads_where_it_is_sent(s: Strip, offset: i64, desk: Desktop)
    requires
        s.wf(),
        s.smooth_scroll_enabled || s.scroll_target is None,
    ensures
        heading(s.sent_to(offset, desk)) == offset,
        s.sent_to(offset, desk).scroll_animation is None,
        s.sent_to(offset, desk).last_motion == Some(desk.now),
        if s.smooth_scroll_enabled {
            s.sent_to(offset, desk).scroll_offset == s.scroll_offset && s.sent_to(
                offset,
                desk,
            ).scroll_target == Some(offset)
        } else {
            s.sent_to(offset, desk).scroll_offset == offset && s.sent_to(
                offset,
                desk,
            ).scroll_target is None
        },
{
}

/// Scrolling by a distance makes the strip head that much further than it did,
/// to the right for positive distances.
pub proof fn law_scrolling_adds_to_where_the_strip_heads(s: Strip, delta: int, desk: Desktop)
    requires
        s.wf(),
        s.scroll_animation is None,
        s.smooth_scroll_enabled || s.scroll_target is None,
        i64::MIN <= heading(s) + delta <= i64::MAX,
    ensures
        heading(s.sent_to(s.offset_by(delta) as i64, desk)) == heading(s) + delta,
{
}

/// A timed scroll heads for its offset and takes its time; one without time is
/// there at once.
pub proof fn law_timed_scroll_heads_for_its_offset(
    s: Strip,
    offset: i64,
    duration_ms: u32,
    desk: Desktop,
)
    requires
        s.wf(),
    ensures
        ({
            let r = s.timed_to(offset, duration_ms, desk);
            &&& heading(r) == offset
            &&& r.scroll_target is None
            &&& duration_ms == 0 ==> r.scroll_offset == offset && r.scroll_animation is None
            &&& duration_ms > 0 ==> r.scroll_offset == s.scroll_offset && (
            r.scroll_animation matches Some(a) && a.start_offset == s.scroll_offset && a.start_time
                == desk.now && a.duration == duration_ms * 1_000_000)
        }),
{
    assert(duration_ms * MILLISECOND <= u32::MAX * 1_000_000) by (nonlinear_arith)
        requires
            0 <= duration_ms <= u32::MAX,
            MILLISECOND == 1_000_000,
    ;
}

/// Frames do not change where the strip heads, and no tile changes its width
/// that has no width change in progress.
pub proof fn law_frames_keep_the_heading(s: Strip, desk: Desktop, i: int)
    requires
        s.wf(),
        0 <= i < s.windows.len(),
    ensures
        heading(s.ticked(desk)) == heading(s),
        s.windows[i].width_animation is None ==> s.ticked(desk).windows[i].width
            == s.windows[i].width,
        !s.animating() ==> s.ticked(desk) == s,
{
    if s.animating() {
        let a = s.advanced(desk.now);
        crate::scroll_tiler::laws::lemma_advanced_wf(s, desk.now);
        lemma_laid_wf(a, a.positions(desk), desk);
    }
}

/// Each frame of smoothing covers the share of the way that the factor gives in
/// thousandths, and the last half pixel at once.
pub proof fn law_smoothing_covers_its_share(offset: int, target: int, factor: int)
    requires
        50 <= factor <= 1000,
    ensures
        magnitude(target - offset) < 500 ==> smoothed(offset, target, factor) == target,
        magnitude(target - offset) >= 500 && target >= offset ==> 0 <= factor * (target - offset)
            - 1000 * (smoothed(offset, target, factor) - offset) < 1000,
        magnitude(target - offset) >= 500 && target < offset ==> 0 <= factor * (offset - target)
            - 1000 * (offset - smoothed(offset, target, factor)) < 1000,
{
    let d = target - offset;
    let m = magnitude(d);
    assert(m * factor == factor * m) by (nonlinear_arith);
    assert(0 <= m * factor) by (nonlinear_arith)
        requires
            0 <= m,
            0 <= factor,
    ;
    if d < 0 {
        assert(-(d * factor) == m * factor) by (nonlinear_arith)
            requires
                m == -d,
        ;
    }
}

/// A value on its way is at its start when it sets out and at its target once
/// its time has passed. It never turns back, and is never behind one that moves
/// evenly.
pub proof fn law_eased_moves_on(start: int, target: int, earlier: int, later: int, duration: int)
    requires
        start <= target,
        0 <= earlier <= later,
        MILLISECOND <= duration,
    ensures
        eased(start, target, 0, duration) == start,
        later >= duration ==> eased(start, target, later, duration) == target,
        eased(start, target, earlier, duration) <= eased(start, target, later, duration),
        later <= duration ==> (eased(start, target, later, duration) - start + 1) * EASE_STEPS >= (
        target - start) * (later * EASE_STEPS / duration),
{
    let n = EASE_STEPS as int;
    let cube = EASE_STEPS * EASE_STEPS * EASE_STEPS;
    let way = target - start;
    lemma_progress(0, duration);
    lemma_progress(earlier, duration);
    lemma_progress(later, duration);
    let p = progress(earlier, duration);
    let q = progress(later, duration);
    assert(p <= q) by {
        assert(earlier * n <= later * n) by (nonlinear_arith)
            requires
                earlier <= later,
                0 <= n,
        ;
        vstd::arithmetic::div_mod::lemma_div_is_ordered(earlier * n, later * n, duration);
    }
    lemma_eased_share(p);
    lemma_eased_share(q);
    lemma_eased_share(0);
    lemma_eased_share(n);
    assert(eased_share(p) <= eased_share(q)) by {
        let a = n - q;
        let b = n - p;
        assert(a * a * a <= b * b * b) by (nonlinear_arith)
            requires
                0 <= a <= b,
        ;
    }
    assert(0 <= way * eased_share(p) <= way * eased_share(q)) by (nonlinear_arith)
        requires
            0 <= way,
            0 <= eased_share(p) <= eased_share(q),
    ;
    vstd::arithmetic::div_mod::lemma_div_is_ordered(
        way * eased_share(p),
        way * eased_share(q),
        cube,
    );
    assert(eased_share(0) == 0) by (nonlinear_arith)
        requires
            eased_share(0) == EASE_STEPS * EASE_STEPS * EASE_STEPS - (EASE_STEPS - 0) * (EASE_STEPS
                - 0) * (EASE_STEPS - 0),
    ;
    assert(way * eased_share(0) == 0) by (nonlinear_arith)
        requires
            eased_share(0) == 0,
    ;
    if later >= duration {
        assert(q == n);
        assert(eased_share(n) == cube) by (nonlinear_arith)
            requires
                eased_share(n) == EASE_STEPS * EASE_STEPS * EASE_STEPS - (EASE_STEPS - n) * (
                EASE_STEPS - n) * (EASE_STEPS - n),
                n == EASE_STEPS,
                cube == EASE_STEPS * EASE_STEPS * EASE_STEPS,
        ;
        lemma_scaled(way, cube, cube);
    }
    if later <= duration {
        let covered = way * eased_share(q) / cube;
        assert(q == later * n / duration);
        let r = n - q;
        assert(eased_share(q) >= q * n * n) by (nonlinear_arith)
            requires
                0 <= r <= n,
                q == n - r,
                eased_share(q) == n * n * n - r * r * r,
        ;
        vstd::arithmetic::div_mod::lemma_fundamental_div_mod(way * eased_share(q), cube);
        assert((covered + 1) * n >= way * q) by (nonlinear_arith)
            requires
                way * eased_share(q) == cube * covered + (way * eased_share(q)) % cube,
                (way * eased_share(q)) % cube < cube,
                eased_share(q) >= q * n * n,
                0 <= way,
                cube == n * n * n,
                n == 1_000_000,
        ;
    }
}

proof fn lemma_progress(elapsed: int, duration: int)
    requires
        0 <= elapsed,
        MILLISECOND <= duration,
    ensures
        0 <= progress(elapsed, duration) <= EASE_STEPS,
        elapsed <= duration ==> progress(elapsed, duration) == elapsed * EASE_STEPS / duration,
        elapsed >= duration ==> progress(elapsed, duration) == EASE_STEPS,
        elapsed == 0 ==> progress(elapsed, duration) == 0,
{
    let n = EASE_STEPS as int;
    assert(0 <= elapsed * n) by (nonlinear_arith)
        requires
            0 <= elapsed,
            n == 1_000_000,
    ;
    assert((n * duration) / duration == n) by (nonlinear_arith)
        requires
            duration > 0,
    ;
    assert(n * duration == duration * n) by (nonlinear_arith);
    vstd::arithmetic::div_mod::lemma_div_pos_is_pos(elapsed * n, duration);
    if elapsed <= duration {
        assert(elapsed * n <= duration * n) by (nonlinear_arith)
            requires
                elapsed <= duration,
                n == 1_000_000,
        ;
        vstd::arithmetic::div_mod::lemma_div_is_ordered(elapsed * n, n * duration, duration);
    }
    if elapsed >= duration {
        assert(elapsed * n >= duration * n) by (nonlinear_arith)
            requires
                elapsed >= duration,
                n == 1_000_000,
        ;
        vstd::arithmetic::div_mod::lemma_div_is_ordered(n * duration, elapsed * n, duration);
    }
    if elapsed == 0 {
        assert(elapsed * n == 0) by (nonlinear_arith)
            requires
                elapsed == 0,
        ;
        vstd::arithmetic::div_mod::lemma_div_basics(duration);
    }
}

/// When a part of the time is left, the cube of that part of the way is left:
/// quick at first, slow at the end.
pub proof fn law_rest_of_the_way_is_the_cube_of_the_rest_of_the_time(
    start: int,
    target: int,
    elapsed: int,
    duration: int,
    steps: int,
)
    requires
        start <= target,
        MILLISECOND <= duration,
        0 <= steps <= 1_000_000,
        elapsed * 1_000_000 == steps * duration,
        0 <= elapsed,
    ensures
        0 <= (target - eased(start, target, elapsed, duration)) * 1_000_000_000_000_000_000 - (
        target - start) * ((1_000_000 - steps) * (1_000_000 - steps) * (1_000_000 - steps))
            < 1_000_000_000_000_000_000,
{
    let n: int = 1_000_000;
    let way = target - start;
    let rest = n - steps;
    assert((steps * duration) / duration == steps) by (nonlinear_arith)
        requires
            duration > 0,
    ;
    assert(elapsed <= duration) by (nonlinear_arith)
        requires
            elapsed * 1_000_000 == steps * duration,
            steps <= 1_000_000,
            duration > 0,
    ;
    lemma_progress(elapsed, duration);
    assert(progress(elapsed, duration) == steps);
    lemma_eased_share(steps);
    let share = eased_share(steps);
    let cube: int = 1_000_000_000_000_000_000;
    assert(share == cube - rest * rest * rest);
    assert(0 <= way * share) by (nonlinear_arith)
        requires
            0 <= way,
            0 <= share,
    ;
    vstd::arithmetic::div_mod::lemma_fundamental_div_mod(way * share, cube);
    let covered = way * share / cube;
    let left = rest * rest * rest;
    assert(0 <= (way - covered) * cube - way * left < cube) by (nonlinear_arith)
        requires
            way * share == cube * covered + (way * share) % cube,
            0 <= (way * share) % cube < cube,
            share == cube - left,
    ;
}

/// A new width for a tile is taken at once where there is no time for it, and
/// otherwise approached from the width the tile has. No other tile changes, and
/// a window without a tile changes nothing.
pub proof fn law_new_width_is_for_one_tile(
    s: Strip,
    hwnd: u64,
    width: i64,
    duration_ms: u32,
    now: u64,
    i: int,
)
    requires
        s.wf(),
        0 <= i < s.windows.len(),
    ensures
        ({
            let r = s.width_sent(hwnd, width, duration_ms, now).windows;
            &&& r.len() == s.windows.len()
            &&& s.windows[i].inner.hwnd != hwnd ==> r[i] == s.windows[i]
            &&& s.windows[i].inner.hwnd == hwnd ==> r[i].inner == s.windows[i].inner && if duration_ms
                == 0 {
                r[i].width == width && r[i].requested_width == Some(width)
                    && r[i].width_animation is None
            } else {
                r[i].width == s.windows[i].width && (r[i].width_animation matches Some(a)
                    && a.start_width == s.windows[i].width && a.target_width == width
                    && a.start_time == now && a.duration == duration_ms * 1_000_000)
            }
        }),
{
    let mask = hwnd_mask(s.windows, hwnd);
    lemma_first_true(mask);
    assert(duration_ms * MILLISECOND <= u32::MAX * 1_000_000) by (nonlinear_arith)
        requires
            0 <= duration_ms <= u32::MAX,
            MILLISECOND == 1_000_000,
    ;
    if s.windows[i].inner.hwnd == hwnd {
        assert(mask[i]);
        let j = first_true(mask)->0;
        assert(mask[j]);
        assert(s.windows[j].inner == s.windows[i].inner);
        assert(i == j);
    }
}

/// Smoothing is over with the frame that finds the strip within half a pixel of
/// its target, and the strip is then there; until that it goes on.
pub proof fn law_smoothing_ends_at_its_target(s: Strip, desk: Desktop, t: i64)
    requires
        s.wf(),
        s.scroll_target == Some(t),
    ensures
        ({
            let r = s.ticked(desk);
            &&& magnitude(t - s.scroll_offset) < 500 ==> r.scroll_target is None && r.scroll_offset
                == t
            &&& magnitude(t - s.scroll_offset) >= 500 ==> r.scroll_target == Some(t)
                && magnitude(t - r.scroll_offset) < magnitude(t - s.scroll_offset)
            &&& r.last_motion == Some(desk.now)
        }),
{
    if s.scroll_offset != t {
        crate::scroll_tiler::laws::law_smoothing_gets_closer(
            s.scroll_offset as int,
            t as int,
            s.smooth_scroll_factor as int,
        );
    }
    lemma_smoothed(s.scroll_offset as int, t as int, s.smooth_scroll_factor as int);
}

/// A strip that was just made has no tiles, is at its beginning, and is at rest.
pub proof fn law_fresh_strip_is_at_rest(
    padding: i64,
    resize_increment: i64,
    screen_size: crate::geometry::Size,
    mouse_held: bool,
)
    ensures
        ({
            let s = Strip::fresh(padding, resize_increment, screen_size, mouse_held);
            &&& s.windows.len() == 0
            &&& heading(s) == 0 && s.scroll_offset == 0
            &&& !s.animating()
            &&& s.padding == padding && s.resize_increment == resize_increment && s.screen_size
                == screen_size
            &&& s.previously_focused_window_index is None && s.last_motion is None
            &&& s.was_mouse_held_last_snapshot == mouse_held
        }),
{
}

} // verus!
