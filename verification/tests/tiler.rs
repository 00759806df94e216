use winri::geometry::{Position, Rect, Size};
use winri::scroll_tiler::profile::{EmitCount, ScrollProfile};
use winri::scroll_tiler::commands::Direction;
use winri::scroll_tiler::item::{frame_throttle_for, Clip, Placement, WindowItem};
use winri::scroll_tiler::layout::{ClipCommand, LayoutPlan, PARK};
use winri::scroll_tiler::snapshot::SnapshotPlan;
use winri::scroll_tiler::{is_left_mouse_held, ScrollTiler};
use winri::window::{BatchMove, Desktop, Observed, PixelRect, Window};

const SCREEN: Size = Size { width: 1920_000, height: 1080_000 };

fn win(hwnd: u64) -> Window {
    Window { hwnd }
}

/// A plain window of 400 by 1060 pixels on monitor 1, without borders.
fn seen(hwnd: u64) -> Observed {
    Observed {
        window: win(hwnd),
        valid: Some(true),
        visible: Some(true),
        cloaked: Some(false),
        ancestor: Some(win(hwnd)),
        style: Some(0),
        ex_style: Some(0),
        has_owner: Some(false),
        title: Some(Some("title".to_string())),
        class: Some("Klass".to_string()),
        process: Some("app.exe".to_string()),
        exe_path: Some("C:/app.exe".to_string()),
        iconic: false,
        monitor: 1,
        frame: Some(Rect { left: 0, top: 10, right: 400, bottom: 1070 }),
        outer: Some(Rect { left: 0, top: 10, right: 400, bottom: 1070 }),
        desktop_id: None,
    }
}

fn slow(hwnd: u64) -> Observed {
    let mut o: Observed = seen(hwnd);
    o.process = Some("explorer.exe".to_string());
    o
}

fn desk(observed: Vec<Observed>, focus: u64, now: u64) -> Desktop {
    Desktop { observed, foreground: Some(win(focus)), mouse_held: false, now }
}

fn three(focus: u64) -> Desktop {
    desk(vec![seen(1), seen(2), seen(3)], focus, 0)
}

/// Three tiles of 400 pixels, on a screen of 1920 by 1080 pixels with gaps of
/// 10 pixels.
fn tiler() -> ScrollTiler {
    let mut t: ScrollTiler = ScrollTiler::new(10_000, 20_000, SCREEN, false);
    let _ = t.bulk_seed(&vec![win(1), win(2), win(3)], &three(1));
    t.windows[0].width = 400_000;
    t.windows[1].width = 400_000;
    t.windows[2].width = 400_000;
    t.windows[0].requested_width = None;
    t.windows[1].requested_width = None;
    t.windows[2].requested_width = None;
    let _ = t.relayout(&three(1));
    t
}

fn order(t: &ScrollTiler) -> Vec<u64> {
    t.windows().iter().map(|w| w.inner.hwnd).collect()
}

fn widths(t: &ScrollTiler) -> Vec<i64> {
    t.windows().iter().map(|w| w.width).collect()
}

fn moved(plan: &LayoutPlan) -> Vec<u64> {
    plan.moves.iter().map(|m| m.window.hwnd).collect()
}

#[test]
fn a_new_tiler_is_empty_and_still() {
    let t: ScrollTiler = ScrollTiler::new(10_000, 20_000, SCREEN, true);
    assert!(t.windows().is_empty());
    assert_eq!(t.scroll_offset(), 0);
    assert_eq!(t.padding(), 10_000);
    assert_eq!(t.screen_size(), SCREEN);
    assert!(!t.is_animating());
    assert!(t.was_mouse_held_last_snapshot);
    assert_eq!(t.smooth_scroll_factor, 250);
    assert_eq!(t.time_since_motion(5), None);
    assert!(!t.wants_redraw(5));
    assert_eq!(t.total_strip_width(&three(1)), 0);
}

#[test]
fn the_smoothing_factor_is_kept_within_limits() {
    let mut t: ScrollTiler = ScrollTiler::new(0, 0, SCREEN, false);
    t.set_smoothing(true, 1);
    assert_eq!(t.smooth_scroll_factor, 50);
    t.set_smoothing(true, 5_000);
    assert_eq!(t.smooth_scroll_factor, 1000);
    t.set_smoothing(false, 300);
    assert_eq!(t.smooth_scroll_factor, 300);
    assert!(!t.smooth_scroll_enabled);
}

#[test]
fn slow_executables_are_known() {
    assert_eq!(frame_throttle_for("Explorer.EXE"), 3);
    assert_eq!(frame_throttle_for("chrome.exe"), 1);
}

#[test]
fn the_top_bit_says_that_the_button_is_down() {
    assert!(is_left_mouse_held(-32768));
    assert!(is_left_mouse_held(-1));
    assert!(!is_left_mouse_held(1));
}

#[test]
fn tiles_are_packed_from_the_left() {
    let t: ScrollTiler = tiler();
    assert_eq!(t.windows_positions(&three(1)), vec![10_000, 430_000, 850_000]);
    assert_eq!(t.total_strip_width(&three(1)), 1_260_000);
}

#[test]
fn hidden_tiles_take_no_room() {
    let t: ScrollTiler = tiler();
    let mut minimized: Observed = seen(1);
    minimized.iconic = true;
    let mut elsewhere: Observed = seen(2);
    elsewhere.cloaked = Some(true);
    let d: Desktop = desk(vec![minimized, elsewhere, seen(3)], 3, 0);
    assert_eq!(t.windows_positions(&d), vec![0, 0, 10_000]);
}

#[test]
fn sizes_follow_from_the_screen() {
    let t: ScrollTiler = tiler();
    assert_eq!(t.max_screen_width(), 1_899_000);
    assert_eq!(t.default_size(), 460_000);
}

#[test]
fn seeding_tiles_everything_once_at_the_default_width() {
    let mut t: ScrollTiler = ScrollTiler::new(10_000, 20_000, SCREEN, false);
    let mut far: Observed = seen(2);
    far.monitor = 7;
    let d: Desktop = desk(vec![seen(1), far], 1, 4);
    let plan: LayoutPlan = t.bulk_seed(&vec![win(1), win(2)], &d);
    assert_eq!(order(&t), vec![1, 2]);
    assert_eq!(widths(&t), vec![460_000, 460_000]);
    assert_eq!(t.windows()[0].requested_width, Some(460_000));
    assert_eq!(
        plan.moves,
        vec![
            BatchMove {
                window: win(1),
                rect: PixelRect { x: 10, y: 10, width: 460, height: 1060 }
            },
            BatchMove {
                window: win(2),
                rect: PixelRect { x: 490, y: 10, width: 460, height: 1060 }
            },
        ]
    );
    assert_eq!(t.time_since_motion(9), Some(5));
    let again: LayoutPlan = t.bulk_seed(&vec![win(1), win(2)], &d);
    assert_eq!(order(&t), vec![1, 2]);
    assert!(again.moves.is_empty());
}

#[test]
fn a_layout_repeated_at_rest_does_nothing() {
    let mut t: ScrollTiler = tiler();
    let plan: LayoutPlan = t.relayout(&three(1));
    assert!(plan.moves.is_empty());
    assert!(plan.clips.is_empty());
    assert!(plan.profile.is_none());
}

#[test]
fn forgotten_placements_are_made_anew() {
    let mut t: ScrollTiler = tiler();
    t.invalidate_last_layouts();
    assert!(t.windows()[0].last_layout.is_none());
    assert_eq!(moved(&t.relayout(&three(1))), vec![1, 2, 3]);
}

#[test]
fn a_held_button_stops_the_layout() {
    let mut t: ScrollTiler = tiler();
    t.invalidate_last_layouts();
    let mut d: Desktop = three(1);
    d.mouse_held = true;
    let plan: LayoutPlan = t.relayout(&d);
    assert!(plan.moves.is_empty() && plan.clips.is_empty());
    assert!(t.windows()[0].last_layout.is_none());
}

#[test]
fn borders_are_added_around_the_visible_frame() {
    let mut o: Observed = seen(1);
    o.frame = Some(Rect { left: 7, top: 0, right: 393, bottom: 593 });
    o.outer = Some(Rect { left: 0, top: 0, right: 400, bottom: 600 });
    let d: Desktop = desk(vec![o], 1, 0);
    assert_eq!(
        win(1).padded_rect(
            Position { x: 100_900, y: 10_000 },
            Size { width: 500_000, height: 300_000 },
            &d
        ),
        Some(PixelRect { x: 93, y: 10, width: 514, height: 307 })
    );
}

#[test]
fn tiles_off_the_screen_are_parked() {
    let mut t: ScrollTiler = tiler();
    let plan: LayoutPlan = t.set_scroll_offset(500_000, &three(1));
    assert_eq!(
        t.windows()[0].last_layout,
        Some(Placement { x: PARK, y: PARK, width: 400_000, height: 1_060_000 })
    );
    assert_eq!(plan.moves[0].rect.x, 25_000);
    assert_eq!(plan.moves[0].rect.y, 25_000);
    assert_eq!(t.windows()[2].last_layout.unwrap().x, 350_000);
    assert!(t.windows()[0].last_clip.is_none());
}

#[test]
fn tiles_partly_off_the_screen_are_clipped_to_it() {
    let mut t: ScrollTiler = tiler();
    let plan: LayoutPlan = t.set_scroll_offset(100_000, &three(1));
    let clip: Clip = Clip { left: 90, top: 0, right: 400, bottom: 1060 };
    assert_eq!(t.windows()[0].last_clip, Some(clip));
    assert_eq!(plan.clips.len(), 1);
    assert!(matches!(
        plan.clips[0],
        ClipCommand::Apply { window, clip: c, previous: None } if window == win(1) && c == clip
    ));
    let back: LayoutPlan = t.set_scroll_offset(0, &three(1));
    assert!(matches!(back.clips[0], ClipCommand::Clear { window } if window == win(1)));
    assert!(t.windows()[0].last_clip.is_none());
}

#[test]
fn a_refused_region_is_taken_back() {
    let mut t: ScrollTiler = tiler();
    let _ = t.set_scroll_offset(100_000, &three(1));
    let clip: Clip = t.windows()[0].last_clip.unwrap();
    t.clip_rejected(win(1), clip, None);
    assert!(t.windows()[0].last_clip.is_none());
}

#[test]
fn unsafe_windows_are_never_clipped() {
    let mut t: ScrollTiler = ScrollTiler::new(10_000, 20_000, SCREEN, false);
    let mut chrome: Observed = seen(1);
    chrome.class = Some("Chrome_WidgetWin_1".to_string());
    let d: Desktop = desk(vec![chrome], 1, 0);
    let _ = t.bulk_seed(&vec![win(1)], &d);
    assert!(t.windows()[0].skip_clipping);
    let plan: LayoutPlan = t.set_scroll_offset(100_000, &d);
    assert!(plan.clips.is_empty());
    assert!(t.windows()[0].last_clip.is_none());
}

#[test]
fn clips_go_while_smoothing_is_under_way() {
    let mut t: ScrollTiler = tiler();
    let _ = t.set_scroll_offset(100_000, &three(1));
    assert!(t.windows()[0].last_clip.is_some());
    t.set_smoothing(true, 250);
    let _ = t.scroll_by(100_000, &three(1));
    let (running, plan): (bool, LayoutPlan) = t.tick_animation(&three(1));
    assert!(running);
    assert!(matches!(plan.clips[0], ClipCommand::Clear { window } if window == win(1)));
}

#[test]
fn without_smoothing_a_scroll_is_made_at_once() {
    let mut t: ScrollTiler = tiler();
    let mut d: Desktop = three(1);
    d.now = 77;
    let _ = t.scroll_by(-30_000, &d);
    assert_eq!(t.scroll_offset(), -30_000);
    assert!(!t.is_animating());
    assert_eq!(t.last_motion, Some(77));
}

#[test]
fn smoothing_covers_a_part_of_the_way_and_then_snaps() {
    let mut t: ScrollTiler = tiler();
    t.set_smoothing(true, 250);
    let _ = t.scroll_by(100_000, &three(1));
    let _ = t.scroll_by(100_000, &three(1));
    assert_eq!(t.scroll_target, Some(200_000));
    assert_eq!(t.scroll_offset(), 0);
    let (running, _): (bool, LayoutPlan) = t.tick_animation(&three(1));
    assert!(running);
    assert_eq!(t.scroll_offset(), 50_000);
    let _ = t.tick_animation(&three(1));
    assert_eq!(t.scroll_offset(), 87_500);
    let mut last: i64 = 200_000 - t.scroll_offset();
    let mut frames: u32 = 0;
    while t.is_animating() {
        let _ = t.tick_animation(&three(1));
        let left: i64 = 200_000 - t.scroll_offset();
        assert!(left < last);
        last = left;
        frames += 1;
        assert!(frames < 100);
    }
    assert_eq!(t.scroll_offset(), 200_000);
    assert_eq!(t.scroll_target, None);
}

#[test]
fn a_timed_scroll_eases_out_and_arrives() {
    let mut t: ScrollTiler = tiler();
    let _ = t.animate_scroll_to(800_000, 200, &three(1));
    assert!(t.is_animating());
    assert_eq!(t.scroll_offset(), 0);
    let mut d: Desktop = three(1);
    d.now = 100_000_000;
    let _ = t.tick_animation(&d);
    // Half the time covers seven eighths of the way.
    assert_eq!(t.scroll_offset(), 700_000);
    d.now = 200_000_000;
    let (running, _): (bool, LayoutPlan) = t.tick_animation(&d);
    assert!(!running);
    assert_eq!(t.scroll_offset(), 800_000);
}

#[test]
fn a_timed_scroll_of_no_duration_snaps() {
    let mut t: ScrollTiler = tiler();
    let _ = t.animate_scroll_to(800_000, 200, &three(1));
    let plan: LayoutPlan = t.animate_scroll_to(50_000, 0, &three(1));
    assert_eq!(t.scroll_offset(), 50_000);
    assert!(!t.is_animating());
    assert_eq!(moved(&plan), vec![1, 2, 3]);
}

#[test]
fn one_kind_of_scrolling_ends_the_other() {
    let mut t: ScrollTiler = tiler();
    t.set_smoothing(true, 250);
    let _ = t.animate_scroll_to(800_000, 200, &three(1));
    let _ = t.scroll_by(10_000, &three(1));
    assert!(t.scroll_animation.is_none());
    assert_eq!(t.scroll_target, Some(10_000));
    let _ = t.animate_scroll_to(800_000, 200, &three(1));
    assert!(t.scroll_target.is_none());
    assert!(t.scroll_animation.is_some());
}

#[test]
fn a_width_change_eases_and_arrives() {
    let mut t: ScrollTiler = tiler();
    assert!(t.animate_window_width(2, 800_000, 100, 0));
    assert!(t.is_animating());
    let mut d: Desktop = three(1);
    d.now = 50_000_000;
    let _ = t.tick_animation(&d);
    assert_eq!(widths(&t), vec![400_000, 750_000, 400_000]);
    d.now = 100_000_000;
    let (running, _): (bool, LayoutPlan) = t.tick_animation(&d);
    assert!(!running);
    assert_eq!(widths(&t), vec![400_000, 800_000, 400_000]);
    assert_eq!(t.windows()[1].requested_width, Some(800_000));
}

#[test]
fn a_requested_width_is_kept_within_limits() {
    let mut t: ScrollTiler = tiler();
    assert!(t.animate_window_width(1, 1, 0, 0));
    assert_eq!(t.windows()[0].width, 50_000);
    assert!(t.animate_window_width(1, 9_000_000, 0, 0));
    assert_eq!(t.windows()[0].width, 1_899_000);
    assert!(!t.animate_window_width(9, 100_000, 0, 0));
}

#[test]
fn the_focused_window_is_centered() {
    let mut t: ScrollTiler = tiler();
    let _ = t.center_focused_window(&three(3));
    // 850 + 200 - 960 pixels.
    assert_eq!(t.scroll_offset(), 90_000);
    let plan: LayoutPlan = t.center_focused_window(&three(9));
    assert_eq!(t.scroll_offset(), 90_000);
    assert!(plan.moves.is_empty());
}

#[test]
fn a_window_is_centered_at_the_width_it_will_have() {
    let mut t: ScrollTiler = tiler();
    let (found, _): (bool, LayoutPlan) = t.center_window_at_width(2, 1_000_000, &three(1));
    assert!(found);
    assert_eq!(t.scroll_offset(), 430_000 + 500_000 - 960_000);
    let (missing, plan): (bool, LayoutPlan) = t.center_window_at_width(9, 1_000_000, &three(1));
    assert!(!missing);
    assert!(plan.moves.is_empty());
}

#[test]
fn slow_windows_sit_out_frames_of_an_animation() {
    let mut t: ScrollTiler = ScrollTiler::new(10_000, 20_000, SCREEN, false);
    let mut slow: Observed = seen(1);
    slow.process = Some("explorer.exe".to_string());
    let d: Desktop = desk(vec![slow, seen(2)], 1, 0);
    let _ = t.bulk_seed(&vec![win(1), win(2)], &d);
    assert_eq!(t.windows()[0].scroll_frame_throttle, 3);
    t.set_smoothing(true, 250);
    let _ = t.scroll_by(400_000, &d);
    assert_eq!(moved(&t.tick_animation(&d).1), vec![2]);
    assert_eq!(moved(&t.tick_animation(&d).1), vec![2]);
    assert_eq!(moved(&t.tick_animation(&d).1), vec![1, 2]);
    t.set_throttle_slow_apps(false);
    assert_eq!(moved(&t.tick_animation(&d).1), vec![1, 2]);
}

#[test]
fn a_slow_window_is_recognised_later_too() {
    let mut t: ScrollTiler = ScrollTiler::new(10_000, 20_000, SCREEN, false);
    let mut unknown: Observed = seen(1);
    unknown.process = None;
    let d: Desktop = desk(vec![unknown], 1, 0);
    let _ = t.bulk_seed(&vec![win(1)], &d);
    assert_eq!(t.windows()[0].scroll_frame_throttle, 1);
    let mut slow: Observed = seen(1);
    slow.process = Some("explorer.exe".to_string());
    let d2: Desktop = desk(vec![slow], 1, 0);
    let _ = t.animate_scroll_to(100_000, 100, &d2);
    let _ = t.tick_animation(&d2);
    assert_eq!(t.windows()[0].scroll_frame_throttle, 3);
}

#[test]
fn a_finished_animation_is_reported() {
    let mut t: ScrollTiler = tiler();
    t.set_smoothing(true, 1000);
    let mut d: Desktop = three(1);
    d.now = 1_000;
    let _ = t.scroll_by(100_000, &d);
    let (running, first): (bool, LayoutPlan) = t.tick_animation(&d);
    assert!(running);
    assert!(first.profile.is_none());
    d.now = 4_000;
    let (still, second): (bool, LayoutPlan) = t.tick_animation(&d);
    assert!(!still);
    let report = second.profile.unwrap();
    assert_eq!(report.duration, 3_000);
    assert_eq!(report.frame_count, 1);
    assert_eq!(report.counts.len(), 3);
    assert_eq!(report.counts[0].count, 1);
    let lines = t.profile_report(&report, &d);
    assert_eq!(lines.len(), 3);
    assert_eq!(lines[0].process, "app.exe");
    assert_eq!(lines[0].frame_count, 1);
}

#[test]
fn reordering_takes_the_slot_of_the_destination() {
    let mut t: ScrollTiler = tiler();
    t.reorder(win(3), win(1));
    assert_eq!(order(&t), vec![3, 1, 2]);
    t.reorder(win(3), win(2));
    assert_eq!(order(&t), vec![1, 2, 3]);
    t.reorder(win(1), win(2));
    assert_eq!(order(&t), vec![2, 1, 3]);
    t.reorder(win(9), win(1));
    t.reorder(win(1), win(1));
    t.reorder(win(1), win(9));
    assert_eq!(order(&t), vec![2, 1, 3]);
}

#[test]
fn swapping_there_and_back_restores_the_order() {
    let mut t: ScrollTiler = tiler();
    t.swap_current_right(&three(1));
    assert_eq!(order(&t), vec![2, 1, 3]);
    t.swap_current_left(&three(1));
    assert_eq!(order(&t), vec![1, 2, 3]);
    t.swap_current_left(&three(1));
    t.swap_current_right(&three(3));
    t.swap_current_right(&three(9));
    assert_eq!(order(&t), vec![1, 2, 3]);
}

#[test]
fn the_focus_steps_over_hidden_windows() {
    let t: ScrollTiler = tiler();
    assert_eq!(t.focus_right(&three(1)), Some(win(2)));
    assert_eq!(t.focus_left(&three(1)), None);
    let mut elsewhere: Observed = seen(2);
    elsewhere.cloaked = Some(true);
    let d: Desktop = desk(vec![seen(1), elsewhere, seen(3)], 1, 0);
    assert_eq!(t.focus_right(&d), Some(win(3)));
    assert_eq!(t.next_visible_index(2, Direction::Left, &d), Some(0));
    assert_eq!(t.next_visible_index(2, Direction::Right, &d), None);
}

#[test]
fn the_focus_steps_from_where_it_was() {
    let mut t: ScrollTiler = tiler();
    assert_eq!(t.focus_right(&three(9)), Some(win(2)));
    t.previously_focused_window_index = Some(1);
    assert_eq!(t.focus_right(&three(9)), Some(win(3)));
    assert_eq!(t.focused_window(&three(9)), None);
    assert_eq!(t.focused_window(&three(2)), Some(win(2)));
    assert_eq!(t.focus_index(&three(2)), Some(1));
}

#[test]
fn widths_are_requested_for_the_focused_window() {
    let mut t: ScrollTiler = tiler();
    t.set_current_window_fullscreen(&three(2));
    assert_eq!(t.windows()[1].requested_width, Some(1_899_000));
    t.set_current_window_halfscreen(&three(2));
    assert_eq!(t.windows()[1].requested_width, Some(940_000));
    t.increment_current_window_width(&three(2));
    assert_eq!(t.windows()[1].requested_width, Some(420_000));
    t.decrement_current_window_width(&three(2));
    assert_eq!(t.windows()[1].requested_width, Some(380_000));
    t.set_current_window_fullscreen(&three(9));
    assert_eq!(t.windows()[0].requested_width, None);
}

#[test]
fn a_snapshot_takes_requested_widths() {
    let mut t: ScrollTiler = tiler();
    t.set_current_window_halfscreen(&three(1));
    t.update_widths(&three(1));
    assert_eq!(t.windows()[0].width, 940_000);
    assert_eq!(t.windows()[0].requested_width, None);
}

#[test]
fn a_width_far_from_the_tile_is_not_believed() {
    let mut t: ScrollTiler = tiler();
    let mut wide: Observed = seen(1);
    wide.frame = Some(Rect { left: 0, top: 10, right: 651, bottom: 1070 });
    let mut near: Observed = seen(2);
    near.frame = Some(Rect { left: 0, top: 10, right: 650, bottom: 1070 });
    let mut d: Desktop = desk(vec![wide, near, seen(3)], 1, 0);
    t.update_widths(&d);
    assert_eq!(widths(&t), vec![400_000, 650_000, 400_000]);
    d.mouse_held = true;
    t.update_widths(&d);
    assert_eq!(widths(&t), vec![651_000, 650_000, 400_000]);
}

#[test]
fn windows_that_are_gone_lose_their_tiles() {
    let mut t: ScrollTiler = tiler();
    let _: SnapshotPlan = t.handle_window_snapshot(&vec![win(1), win(3)], &three(1), 1);
    assert_eq!(order(&t), vec![1, 3]);
}

#[test]
fn tiles_of_other_desktops_survive() {
    let mut t: ScrollTiler = tiler();
    let mut elsewhere: Observed = seen(2);
    elsewhere.cloaked = Some(true);
    let d: Desktop = desk(vec![seen(1), elsewhere, seen(3)], 1, 0);
    let _ = t.handle_window_snapshot(&vec![win(1), win(3)], &d, 1);
    assert_eq!(order(&t), vec![1, 2, 3]);
    assert_eq!(t.windows()[1].width, 400_000);
}

#[test]
fn a_restored_window_gets_its_width_back() {
    let mut t: ScrollTiler = tiler();
    let mut minimized: Observed = seen(2);
    minimized.iconic = true;
    minimized.frame = Some(Rect { left: 0, top: 0, right: 160, bottom: 28 });
    let d: Desktop = desk(vec![seen(1), minimized, seen(3)], 1, 0);
    let all: Vec<Window> = vec![win(1), win(2), win(3)];
    let _ = t.handle_window_snapshot(&all, &d, 1);
    assert_eq!(t.windows()[1].pre_minimize_width, Some(400_000));
    let mut sliver: Observed = seen(2);
    sliver.frame = Some(Rect { left: 0, top: 10, right: 200, bottom: 1070 });
    let d2: Desktop = desk(vec![seen(1), sliver, seen(3)], 1, 0);
    let plan: SnapshotPlan = t.handle_window_snapshot(&all, &d2, 1);
    assert_eq!(t.windows()[1].width, 400_000);
    assert_eq!(t.windows()[1].pre_minimize_width, None);
    assert!(moved(&plan.layout).contains(&2));
}

#[test]
fn a_window_dragged_to_another_monitor_is_let_go() {
    let mut t: ScrollTiler = tiler();
    t.was_mouse_held_last_snapshot = true;
    let mut dragged: Observed = seen(2);
    dragged.monitor = 2;
    dragged.frame = Some(Rect { left: 2000, top: 10, right: 2400, bottom: 1070 });
    let d: Desktop = desk(vec![seen(1), dragged, seen(3)], 9, 0);
    let _ = t.handle_window_snapshot(&vec![win(1), win(2), win(3)], &d, 1);
    assert_eq!(order(&t), vec![1, 3]);
    assert!(!t.was_mouse_held_last_snapshot);
}

#[test]
fn a_window_that_hardly_drifted_keeps_its_tile() {
    let mut t: ScrollTiler = tiler();
    t.was_mouse_held_last_snapshot = true;
    let mut near: Observed = seen(2);
    near.monitor = 2;
    near.frame = Some(Rect { left: 480, top: 10, right: 880, bottom: 1070 });
    let d: Desktop = desk(vec![seen(1), near, seen(3)], 9, 0);
    let _ = t.handle_window_snapshot(&vec![win(1), win(2), win(3)], &d, 1);
    assert_eq!(order(&t), vec![1, 2, 3]);
}

#[test]
fn many_drifted_windows_keep_their_tiles() {
    let mut t: ScrollTiler = tiler();
    t.was_mouse_held_last_snapshot = true;
    let mut all: Vec<Observed> = vec![seen(1), seen(2), seen(3)];
    for o in all.iter_mut() {
        o.monitor = 2;
        o.frame = Some(Rect { left: 5000, top: 10, right: 5400, bottom: 1070 });
    }
    let d: Desktop = desk(all, 9, 0);
    let _ = t.handle_window_snapshot(&vec![win(1), win(2), win(3)], &d, 1);
    assert_eq!(order(&t), vec![1, 2, 3]);
}

#[test]
fn a_dragged_left_edge_keeps_the_right_edge() {
    let mut t: ScrollTiler = tiler();
    t.was_mouse_held_last_snapshot = true;
    t.previously_focused_window_index = Some(1);
    // Tile 2 stands at 430 and ends at 830 pixels.
    let mut wider: Observed = seen(2);
    wider.frame = Some(Rect { left: 330, top: 10, right: 830, bottom: 1070 });
    let d: Desktop = desk(vec![seen(1), wider, seen(3)], 2, 0);
    let _ = t.handle_window_snapshot(&vec![win(1), win(2), win(3)], &d, 1);
    assert_eq!(t.windows()[1].width, 500_000);
    assert_eq!(t.scroll_offset(), 100_000);
    let p: Placement = t.windows()[1].last_layout.unwrap();
    assert_eq!(p.x + p.width, 830_000);
}

#[test]
fn a_left_edge_dragged_too_far_stops_at_the_narrowest_tile() {
    let mut t: ScrollTiler = tiler();
    t.was_mouse_held_last_snapshot = true;
    t.previously_focused_window_index = Some(1);
    let mut narrow: Observed = seen(2);
    narrow.frame = Some(Rect { left: 730, top: 10, right: 830, bottom: 1070 });
    let d: Desktop = desk(vec![seen(1), narrow, seen(3)], 2, 0);
    let _ = t.handle_window_snapshot(&vec![win(1), win(2), win(3)], &d, 1);
    assert_eq!(t.windows()[1].width, 200_000);
    let p: Placement = t.windows()[1].last_layout.unwrap();
    assert_eq!(p.x + p.width, 830_000);
}

#[test]
fn a_window_that_moved_away_is_put_back_once() {
    let mut t: ScrollTiler = tiler();
    let all: Vec<Window> = vec![win(1), win(2), win(3)];
    let mut at: Observed = seen(2);
    at.frame = Some(Rect { left: 430, top: 10, right: 830, bottom: 1070 });
    let _ = t.handle_window_snapshot(&all, &desk(vec![seen(1), at, seen(3)], 1, 0), 1);
    let mut off: Observed = seen(2);
    off.frame = Some(Rect { left: 440, top: 10, right: 840, bottom: 1070 });
    let d: Desktop = desk(vec![seen(1), off, seen(3)], 1, 0);
    let first: SnapshotPlan = t.handle_window_snapshot(&all, &d, 1);
    assert_eq!(moved(&first.layout), vec![2]);
    let second: SnapshotPlan = t.handle_window_snapshot(&all, &d, 1);
    assert!(second.layout.moves.is_empty());
}

#[test]
fn new_windows_go_behind_the_focused_one() {
    let mut t: ScrollTiler = tiler();
    let d: Desktop = desk(vec![seen(1), seen(2), seen(3), seen(4)], 1, 0);
    t.append_new_windows(&vec![win(1), win(2), win(3), win(4)], &d, 1);
    assert_eq!(order(&t), vec![1, 4, 2, 3]);
    assert_eq!(t.windows()[1].width, 460_000);
}

#[test]
fn new_windows_go_behind_the_one_focused_before() {
    let mut t: ScrollTiler = tiler();
    t.previously_focused_window_index = Some(1);
    let d: Desktop = desk(vec![seen(1), seen(2), seen(3), seen(4)], 9, 0);
    t.append_new_windows(&vec![win(4)], &d, 1);
    assert_eq!(order(&t), vec![1, 2, 4, 3]);
}

#[test]
fn without_a_focus_new_windows_go_to_the_end() {
    let mut t: ScrollTiler = tiler();
    let d: Desktop = desk(vec![seen(1), seen(2), seen(3), seen(4)], 9, 0);
    t.append_new_windows(&vec![win(4)], &d, 1);
    assert_eq!(order(&t), vec![1, 2, 3, 4]);
}

#[test]
fn windows_on_other_monitors_stay_floating() {
    let mut t: ScrollTiler = tiler();
    let mut far: Observed = seen(4);
    far.monitor = 2;
    let d: Desktop = desk(vec![seen(1), seen(2), seen(3), far], 1, 0);
    t.append_new_windows(&vec![win(4)], &d, 1);
    assert_eq!(order(&t), vec![1, 2, 3]);
}

#[test]
fn the_strip_follows_the_focus_just_far_enough() {
    let mut t: ScrollTiler = ScrollTiler::new(10_000, 20_000, SCREEN, false);
    let d: Desktop = desk(vec![seen(1), seen(2)], 1, 0);
    let _ = t.bulk_seed(&vec![win(1), win(2)], &d);
    t.windows[0].width = 1_200_000;
    t.windows[1].width = 1_200_000;
    // Tile 2 begins at 1230 and ends at 2430; with its gaps it ends at 2440.
    t.ajust_scroll(&desk(vec![seen(1), seen(2)], 2, 0));
    assert_eq!(t.scroll_offset(), 520_000);
    t.ajust_scroll(&desk(vec![seen(1), seen(2)], 2, 0));
    assert_eq!(t.scroll_offset(), 520_000);
    t.ajust_scroll(&desk(vec![seen(1), seen(2)], 1, 0));
    assert_eq!(t.scroll_offset(), 0);
    t.set_smoothing(true, 250);
    t.ajust_scroll(&desk(vec![seen(1), seen(2)], 2, 0));
    assert_eq!(t.scroll_offset(), 0);
    assert_eq!(t.scroll_target, Some(520_000));
}

#[test]
fn the_strip_jumps_to_a_focus_far_off() {
    let mut t: ScrollTiler = tiler();
    let _ = t.set_scroll_offset(5_000_000, &three(1));
    let all: Vec<Window> = vec![win(1), win(2), win(3)];
    let plan: SnapshotPlan = t.handle_window_snapshot(&all, &three(3), 1);
    assert_eq!(t.scroll_offset(), 90_000);
    assert_eq!(moved(&plan.recenter), vec![1, 2, 3]);
    assert!(plan.layout.moves.is_empty());
    assert_eq!(t.previously_focused_window_index, Some(2));
}

#[test]
fn an_unchanged_focus_leaves_the_scroll_alone() {
    let mut t: ScrollTiler = tiler();
    t.previously_focused_window_index = Some(2);
    let _ = t.set_scroll_offset(5_000_000, &three(3));
    let _ = t.handle_window_snapshot(&vec![win(1), win(2), win(3)], &three(3), 1);
    assert_eq!(t.scroll_offset(), 5_000_000);
}

#[test]
fn redraws_are_wanted_until_the_border_has_faded_in() {
    let mut t: ScrollTiler = tiler();
    let _ = t.scroll_by(1_000, &three(1));
    assert!(t.wants_redraw(749_999_999));
    assert!(!t.wants_redraw(750_000_000));
}

#[test]
fn a_tile_remembers_what_it_is_made_of() {
    let item: WindowItem = WindowItem::new(win(1), 300_000, &three(1));
    assert_eq!(item.requested_width, Some(300_000));
    assert_eq!(item.width, 300_000);
    assert!(item.last_layout.is_none());
    assert!(!item.skip_clipping);
    assert_eq!(item.scroll_frame_throttle, 1);
}

#[test]
fn the_later_of_two_timed_scrolls_wins() {
    let mut t: ScrollTiler = tiler();
    let mut u: ScrollTiler = tiler();
    let _ = t.animate_scroll_to(700_000, 400, &three(1));
    let later: Desktop = desk(vec![seen(1), seen(2), seen(3)], 1, 50_000_000);
    let _ = t.animate_scroll_to(-300_000, 100, &later);
    let _ = u.animate_scroll_to(-300_000, 100, &later);
    assert_eq!(t.scroll_animation, u.scroll_animation);
    assert_eq!(t.scroll_offset(), u.scroll_offset());
    let done: Desktop = desk(vec![seen(1), seen(2), seen(3)], 1, 150_000_000);
    let _ = t.tick_animation(&done);
    assert_eq!(t.scroll_offset(), -300_000);
    assert!(!t.is_animating());
}

#[test]
fn the_later_of_two_width_changes_wins() {
    let mut t: ScrollTiler = tiler();
    let mut u: ScrollTiler = tiler();
    assert!(t.animate_window_width(2, 900_000, 400, 0));
    assert!(t.animate_window_width(2, 600_000, 100, 50_000_000));
    assert!(u.animate_window_width(2, 600_000, 100, 50_000_000));
    assert_eq!(t.windows()[1].width_animation, u.windows()[1].width_animation);
    let done: Desktop = desk(vec![seen(1), seen(2), seen(3)], 1, 150_000_000);
    let _ = t.tick_animation(&done);
    assert_eq!(widths(&t), vec![400_000, 600_000, 400_000]);
}

#[test]
fn a_slow_window_gets_its_final_move_at_rest() {
    let mut t: ScrollTiler = ScrollTiler::new(10_000, 20_000, SCREEN, false);
    let d: Desktop = desk(vec![slow(1), seen(2)], 1, 0);
    let _ = t.bulk_seed(&vec![win(1), win(2)], &d);
    let put = t.windows()[0].last_layout;
    let _ = t.animate_scroll_to(100_000, 100, &d);
    let half: Desktop = desk(vec![slow(1), seen(2)], 1, 50_000_000);
    assert_eq!(moved(&t.tick_animation(&half).1), vec![2]);
    assert!(t.windows()[0].move_owed);
    assert_eq!(t.windows()[0].last_layout, put);
    let done: Desktop = desk(vec![slow(1), seen(2)], 1, 100_000_000);
    let (_, plan) = t.tick_animation(&done);
    assert_eq!(moved(&plan), vec![1, 2]);
    assert_eq!(plan.moves[0].rect.x, -90);
    assert!(!t.windows()[0].move_owed);
    assert!(moved(&t.relayout(&done)).is_empty());
}

#[test]
fn an_animation_is_reported_with_its_frames_and_moves() {
    let mut p: ScrollProfile = ScrollProfile::new();
    assert!(p.finish(5).is_none());
    p.record(9);
    p.start(100);
    for hwnd in [1, 2, 3, 2, 3, 3] {
        p.tick_frame();
        p.record(hwnd);
    }
    let report = p.finish(140).unwrap();
    assert_eq!(report.duration, 40);
    assert_eq!(report.frame_count, 6);
    assert_eq!(
        report.counts,
        vec![
            EmitCount { hwnd: 3, count: 3 },
            EmitCount { hwnd: 2, count: 2 },
            EmitCount { hwnd: 1, count: 1 },
        ]
    );
    assert!(p.finish(150).is_none());
}

#[test]
fn an_offset_is_kept_however_far_it_is() {
    let far: i64 = 2_000_000_000_000_000_000;
    let mut t: ScrollTiler = tiler();
    let _ = t.set_scroll_offset(far, &three(1));
    assert_eq!(t.scroll_offset(), far);
    let _ = t.scroll_by(-1, &three(1));
    assert_eq!(t.scroll_offset(), far - 1);
    let _ = t.set_scroll_offset(i64::MIN, &three(1));
    assert_eq!(t.scroll_offset(), i64::MIN);
    assert_eq!(t.windows()[0].last_layout.unwrap().x, PARK);
    let _ = t.scroll_by(-5, &three(1));
    assert_eq!(t.scroll_offset(), i64::MIN);
    let _ = t.animate_scroll_to(i64::MAX, 100, &three(1));
    let _ = t.tick_animation(&desk(vec![seen(1), seen(2), seen(3)], 1, 100_000_000));
    assert_eq!(t.scroll_offset(), i64::MAX);
}

#[test]
fn a_window_minimized_for_several_looks_gets_its_width_back() {
    let all: Vec<Window> = vec![win(1), win(2), win(3)];
    let mut t: ScrollTiler = tiler();
    for now in 0..4 {
        let mut minimized: Observed = seen(2);
        minimized.iconic = true;
        minimized.frame = Some(Rect { left: 0, top: 0, right: 160, bottom: 28 });
        let _ = t.handle_window_snapshot(&all, &desk(vec![seen(1), minimized, seen(3)], 1, now), 1);
    }
    let mut back: Observed = seen(2);
    back.frame = Some(Rect { left: 0, top: 0, right: 555, bottom: 300 });
    let _ = t.handle_window_snapshot(&all, &desk(vec![seen(1), back, seen(3)], 1, 5), 1);
    assert_eq!(widths(&t), vec![400_000, 400_000, 400_000]);
    assert_eq!(order(&t), vec![1, 2, 3]);
}

#[test]
fn a_lone_tile_on_another_desktop_survives() {
    let mut t: ScrollTiler = tiler();
    let mut away: Observed = seen(2);
    away.cloaked = Some(true);
    let d: Desktop = desk(vec![away], 9, 0);
    let _ = t.handle_window_snapshot(&vec![], &d, 1);
    assert_eq!(order(&t), vec![2]);
    assert_eq!(widths(&t), vec![400_000]);
}
