use keyboard_types::Modifiers;
use winri::config::{Config, IgnoredWindowTitle};
use winri::geometry::{
    abs_diff, clamp, floor_div, scroll_clamp, to_pixels, trunc_div, Bounds, Position, Rect, Size,
};
use winri::hook::{mouse_proc, Coalescer, TimerStep, WM_MOUSEWHEEL};
use winri::icon::{
    fetch_hicon_step, fetch_icon_rgba, hicon_to_rgba, next_icon_source, IconBitmap, IconSource,
    IconStep, GCLP_HICON, GCLP_HICONSM, ICON_BIG, ICON_SMALL, ICON_SMALL2,
};
use winri::monitor::{
    described, find_by_device_name, find_by_handle, read_wide_nul_terminated,
    resolve_tiling_monitor, Monitor, MonitorError,
};
use winri::pixels::{downsample_rgba_nearest, has_alpha, make_opaque, swap_red_blue};
use winri::system::{
    current_modifiers, highlight_color, misplaced, restore_windows, screen_size, KeyStates, Rgb,
};
use winri::app::action::{Action, TilerAction};
use winri::tray::{build_icon, menu_action, retry_send, MenuEntry};
use winri::virtual_desktop::DesktopNumbers;
use winri::window::filter::{in_list, opened_windows, should_be_tiled, QueryFailed};
use winri::window::{
    Desktop, FocusSteps, FramePadding, InvalidHandle, Observed, PixelRect, Window, WS_DLGFRAME,
    WS_EX_TOOLWINDOW, WS_POPUP,
};

fn plain(hwnd: u64) -> Observed {
    Observed {
        window: Window { hwnd },
        valid: Some(true),
        visible: Some(true),
        cloaked: Some(false),
        ancestor: Some(Window { hwnd }),
        style: Some(0),
        ex_style: Some(0),
        has_owner: Some(false),
        title: Some(Some("Document".to_string())),
        class: Some("Klass".to_string()),
        process: Some("app.exe".to_string()),
        exe_path: Some("C:/apps/app.exe".to_string()),
        iconic: false,
        monitor: 1,
        frame: Some(Rect { left: 7, top: 0, right: 393, bottom: 593 }),
        outer: Some(Rect { left: 0, top: 0, right: 400, bottom: 600 }),
        desktop_id: Some(1),
    }
}

fn desk_of(observed: Vec<Observed>) -> Desktop {
    Desktop { observed, foreground: Some(Window { hwnd: 1 }), mouse_held: false, now: 0 }
}

fn verdict_on(change: fn(&mut Observed), cfg: &Config) -> Result<bool, QueryFailed> {
    let mut o: Observed = plain(1);
    change(&mut o);
    should_be_tiled(Window { hwnd: 1 }, &desk_of(vec![o]), cfg)
}

fn monitor_named(hmonitor: i64, name: &str, is_primary: bool) -> Monitor {
    Monitor {
        hmonitor,
        device_name: name.to_string(),
        work_area: Rect { left: 0, top: 0, right: 1920, bottom: 1040 },
        is_primary,
    }
}

#[test]
fn a_null_handle_is_no_window() {
    assert_eq!(Window::from_safe_hwnd(0), Err(InvalidHandle));
    assert_eq!(Window::from_safe_hwnd(5), Ok(Window { hwnd: 5 }));
}

#[test]
fn an_ordinary_window_is_tiled() {
    assert_eq!(verdict_on(|_| {}, &Config::default()), Ok(true));
}

#[test]
fn each_trait_of_an_auxiliary_window_keeps_it_out() {
    let c: Config = Config::default();
    assert_eq!(verdict_on(|o| o.visible = Some(false), &c), Ok(false));
    assert_eq!(verdict_on(|o| o.cloaked = Some(true), &c), Ok(false));
    assert_eq!(verdict_on(|o| o.ancestor = Some(Window { hwnd: 2 }), &c), Ok(false));
    assert_eq!(verdict_on(|o| o.style = Some(WS_POPUP | WS_DLGFRAME), &c), Ok(false));
    assert_eq!(verdict_on(|o| o.style = Some(WS_POPUP), &c), Ok(true));
    assert_eq!(verdict_on(|o| o.ex_style = Some(WS_EX_TOOLWINDOW), &c), Ok(false));
    assert_eq!(verdict_on(|o| o.has_owner = Some(true), &c), Ok(false));
    assert_eq!(verdict_on(|o| o.title = Some(None), &c), Ok(false));
    assert_eq!(
        verdict_on(|o| o.title = Some(Some("x [Winri Ignore Window]".to_string())), &c),
        Ok(false)
    );
    assert_eq!(verdict_on(|o| o.class = Some("Progman".to_string()), &c), Ok(false));
    assert_eq!(verdict_on(|o| o.process = Some("ShareX.exe".to_string()), &c), Ok(false));
}

#[test]
fn a_missing_fact_fails_the_filter() {
    let c: Config = Config::default();
    assert_eq!(verdict_on(|o| o.valid = Some(false), &c), Err(QueryFailed));
    assert_eq!(verdict_on(|o| o.visible = None, &c), Err(QueryFailed));
    assert_eq!(verdict_on(|o| o.cloaked = None, &c), Err(QueryFailed));
    assert_eq!(verdict_on(|o| o.ancestor = None, &c), Err(QueryFailed));
    assert_eq!(verdict_on(|o| o.style = None, &c), Err(QueryFailed));
    assert_eq!(verdict_on(|o| o.title = None, &c), Err(QueryFailed));
    assert_eq!(verdict_on(|o| o.class = None, &c), Err(QueryFailed));
    assert_eq!(verdict_on(|o| o.process = None, &c), Err(QueryFailed));
    assert_eq!(
        should_be_tiled(Window { hwnd: 9 }, &desk_of(vec![plain(1)]), &c),
        Err(QueryFailed)
    );
}

#[test]
fn an_earlier_check_decides_before_a_missing_fact() {
    let c: Config = Config::default();
    assert_eq!(
        verdict_on(
            |o| {
                o.class = Some("Shell_TrayWnd".to_string());
                o.process = None;
            },
            &c
        ),
        Ok(false)
    );
}

#[test]
fn the_configuration_keeps_windows_out() {
    let mut c: Config = Config::default();
    c.filter.ignored_classes.push("Klass".to_string());
    assert_eq!(verdict_on(|_| {}, &c), Ok(false));
    let mut c2: Config = Config::default();
    c2.filter.ignored_processes.push("app.exe".to_string());
    assert_eq!(verdict_on(|_| {}, &c2), Ok(false));
    let mut c3: Config = Config::default();
    c3.filter.ignored_window_titles.push(IgnoredWindowTitle {
        process: "app.exe".to_string(),
        title: None,
        title_starts_with: Some("Doc".to_string()),
        class: None,
    });
    assert_eq!(verdict_on(|_| {}, &c3), Ok(false));
}

#[test]
fn the_windows_to_tile_are_listed_once_each() {
    let mut hidden: Observed = plain(2);
    hidden.visible = Some(false);
    let d: Desktop = desk_of(vec![plain(1), hidden, plain(3), plain(1)]);
    let list: Vec<Window> = opened_windows(&d, &Config::default());
    assert_eq!(list, vec![Window { hwnd: 1 }, Window { hwnd: 3 }]);
    assert!(in_list(&list, Window { hwnd: 3 }));
    assert!(!in_list(&list, Window { hwnd: 2 }));
}

#[test]
fn what_was_observed_of_a_window_is_given_back() {
    let d: Desktop = desk_of(vec![plain(1)]);
    let w: Window = Window { hwnd: 1 };
    assert!(w.is_valid(&d));
    assert_eq!(w.monitor(&d), 1);
    assert!(!w.is_iconic(&d));
    assert!(!w.is_cloaked(&d));
    assert!(!w.is_hidden(&d));
    assert_eq!(w.is_visible(&d), Some(true));
    assert_eq!(w.is_dialog(&d), Some(false));
    assert_eq!(w.is_tool_window(&d), Some(false));
    assert_eq!(w.has_owner(&d), Some(false));
    assert_eq!(w.title(&d), Some(Some("Document".to_string())));
    assert_eq!(w.class(&d), Some("Klass".to_string()));
    assert_eq!(w.process_name(&d), Some("app.exe".to_string()));
    assert_eq!(w.exe_path(&d), Some("C:/apps/app.exe".to_string()));
    assert_eq!(w.ancestor(&d), Some(w));
    assert_eq!(w.is_ancestor(&d), Some(true));
    assert_eq!(
        w.desktop_manager_bounds(&d),
        Some(Bounds { left: 7_000, top: 0, right: 393_000, bottom: 593_000 })
    );
    assert_eq!(
        w.outer_bounds(&d),
        Some(Bounds { left: 0, top: 0, right: 400_000, bottom: 600_000 })
    );
    assert_eq!(
        w.padding(&d),
        Some(FramePadding { left: 7_000, top: 0, right: 7_000, bottom: 7_000 })
    );
    assert_eq!(w.is_clip_unsafe(&d), Some(false));
    assert_eq!(Window::focused(&d), Some(w));
    assert_eq!(w.is_focused(&d), Some(true));
}

#[test]
fn nothing_is_known_of_an_invalid_window() {
    let mut gone: Observed = plain(1);
    gone.valid = Some(false);
    let d: Desktop = desk_of(vec![gone]);
    let w: Window = Window { hwnd: 1 };
    assert!(!w.is_valid(&d));
    assert_eq!(w.title(&d), None);
    assert_eq!(w.class(&d), None);
    assert_eq!(w.process_name(&d), None);
    assert_eq!(w.exe_path(&d), None);
    assert_eq!(w.is_ancestor(&d), None);
    assert_eq!(w.padding(&d), None);
    assert_eq!(w.is_focused(&d), None);
    assert!(!w.has_focus(&d));
    assert_eq!(w.focus(&d), None);
    assert_eq!(w.is_clip_unsafe(&d), None);
    let mut nobody: Desktop = desk_of(vec![plain(1)]);
    nobody.foreground = None;
    assert_eq!(w.is_focused(&nobody), None);
}

#[test]
fn a_moved_window_is_centered_on_the_monitor() {
    let d: Desktop = desk_of(vec![plain(1)]);
    let m: Monitor = monitor_named(1, "A", true);
    // Four fifths of 1920 is 1536, of 1040 is 832.
    assert_eq!(
        Window { hwnd: 1 }.move_to_monitor(&m, &d),
        Some(PixelRect { x: 185, y: 104, width: 1550, height: 839 })
    );
    let mut large: Monitor = monitor_named(1, "A", true);
    large.work_area = Rect { left: 0, top: 0, right: 5120, bottom: 2880 };
    assert_eq!(
        Window { hwnd: 1 }.move_to_monitor(&large, &d),
        Some(PixelRect { x: 1753, y: 840, width: 1614, height: 1207 })
    );
    assert_eq!(Window { hwnd: 2 }.move_to_monitor(&m, &d), None);
}

#[test]
fn a_window_goes_off_the_screen_by_its_width_and_more() {
    let d: Desktop = desk_of(vec![plain(1)]);
    assert_eq!(Window { hwnd: 1 }.move_offscreen(&d), Some(-486));
    assert_eq!(Window { hwnd: 2 }.move_offscreen(&d), None);
}

#[test]
fn giving_the_focus_depends_on_the_window() {
    let mut minimized: Observed = plain(3);
    minimized.iconic = true;
    let d: Desktop = desk_of(vec![plain(1), plain(2), minimized]);
    assert_eq!(Window { hwnd: 1 }.focus(&d), Some(FocusSteps::Nothing));
    assert_eq!(Window { hwnd: 2 }.focus(&d), Some(FocusSteps::Activate));
    assert_eq!(Window { hwnd: 3 }.focus(&d), Some(FocusSteps::RestoreThenActivate));
    assert_eq!(Window { hwnd: 4 }.focus(&d), None);
}

#[test]
fn moving_a_window_makes_room_for_its_borders() {
    let d: Desktop = desk_of(vec![plain(1)]);
    assert_eq!(
        Window { hwnd: 1 }.move_to(
            Position { x: 100_000, y: 50_000 },
            Size { width: 800_000, height: 600_000 },
            &d
        ),
        Some(PixelRect { x: 93, y: 50, width: 814, height: 607 })
    );
}

#[test]
fn arithmetic_rounds_as_it_says() {
    assert_eq!(abs_diff(i64::MIN, i64::MAX), u64::MAX);
    assert_eq!(clamp(5, 0, 3), 3);
    assert_eq!(clamp(-5, 0, 3), 0);
    assert_eq!(floor_div(-7, 2), -4);
    assert_eq!(trunc_div(-7, 2), -3);
    assert_eq!(to_pixels(-1_999), -1);
    assert_eq!(to_pixels(1_999), 1);
    assert_eq!(to_pixels(i64::MAX as i128), i32::MAX);
    assert_eq!(scroll_clamp(i128::MAX), i64::MAX);
    assert_eq!(scroll_clamp(i128::MIN), i64::MIN);
    assert_eq!(scroll_clamp(-7), -7);
    let b: Bounds = Bounds::from_rect(Rect { left: 1, top: 2, right: 11, bottom: 22 });
    assert_eq!(b.size(), Size { width: 10_000, height: 20_000 });
    assert_eq!(b.position(), Position { x: 1_000, y: 2_000 });
}

#[test]
fn the_tiling_monitor_is_resolved() {
    let all: Vec<Monitor> =
        vec![monitor_named(1, "\\\\.\\DISPLAY1", false), monitor_named(2, "\\\\.\\DISPLAY2", true)];
    assert_eq!(resolve_tiling_monitor(&all, "PRIMARY").unwrap().hmonitor, 2);
    assert_eq!(resolve_tiling_monitor(&all, "\\\\.\\DISPLAY1").unwrap().hmonitor, 1);
    assert_eq!(resolve_tiling_monitor(&all, "\\\\.\\DISPLAY9").unwrap().hmonitor, 2);
    assert_eq!(find_by_device_name(&all, "\\\\.\\DISPLAY2").unwrap().hmonitor, 2);
    assert!(find_by_device_name(&all, "x").is_none());
    assert_eq!(find_by_handle(&all, 1).unwrap().device_name, "\\\\.\\DISPLAY1");
}

#[test]
fn a_tiling_monitor_may_not_be_found() {
    let none: Vec<Monitor> = vec![];
    assert!(matches!(
        resolve_tiling_monitor(&none, "primary"),
        Err(MonitorError::NoneDetected)
    ));
    let odd: Vec<Monitor> = vec![monitor_named(1, "A", false)];
    assert!(matches!(resolve_tiling_monitor(&odd, "primary"), Err(MonitorError::NoPrimary)));
    assert!(matches!(
        resolve_tiling_monitor(&odd, "B"),
        Err(MonitorError::NoPrimaryAndNoMatch)
    ));
    assert_eq!(resolve_tiling_monitor(&odd, "A").unwrap().hmonitor, 1);
}

#[test]
fn a_device_name_ends_at_the_first_nul() {
    assert_eq!(read_wide_nul_terminated(&vec![65, 66, 0, 67]), "AB");
    assert_eq!(read_wide_nul_terminated(&vec![65, 66]), "AB");
    let m: Monitor =
        described(4, &vec![65, 0], Rect { left: 0, top: 0, right: 10, bottom: 20 }, 1);
    assert_eq!(m.device_name, "A");
    assert!(m.is_primary);
    assert_eq!(m.work_area_width(), 10);
    assert_eq!(m.work_area_height(), 20);
    let other: Monitor =
        described(4, &vec![65, 0], Rect { left: 0, top: 0, right: 10, bottom: 20 }, 2);
    assert!(!other.is_primary);
}

#[test]
fn the_taskbar_is_left_free() {
    let work: Rect = Rect { left: 0, top: 0, right: 1920, bottom: 1080 };
    let bottom: Rect = Rect { left: 0, top: 1040, right: 1920, bottom: 1080 };
    let right: Rect = Rect { left: 1860, top: 0, right: 1920, bottom: 1080 };
    let top: Rect = Rect { left: 0, top: 0, right: 1920, bottom: 40 };
    assert_eq!(
        screen_size(work, 1920, 1080, Some(bottom)),
        Size { width: 1_920_000, height: 1_040_000 }
    );
    assert_eq!(
        screen_size(work, 1920, 1080, Some(right)),
        Size { width: 1_860_000, height: 1_080_000 }
    );
    assert_eq!(
        screen_size(work, 1920, 1080, Some(top)),
        Size { width: 1_920_000, height: 1_080_000 }
    );
    assert_eq!(
        screen_size(work, 1920, 1080, None),
        Size { width: 1_920_000, height: 1_080_000 }
    );
    assert!(misplaced(work, 1920, 1080, Some(top)));
    assert!(!misplaced(work, 1920, 1080, Some(bottom)));
    assert!(misplaced(Rect { left: 5, top: 0, right: 9, bottom: 9 }, 1920, 1080, None));
}

#[test]
fn colours_are_packed_with_red_lowest() {
    assert_eq!(highlight_color(0xFF33_2211), Rgb { r: 0x11, g: 0x22, b: 0x33 });
}

#[test]
fn windows_are_restored_in_a_cascade() {
    let mut untiled: Observed = plain(2);
    untiled.visible = Some(false);
    let mut unmeasured: Observed = plain(3);
    unmeasured.frame = None;
    let d: Desktop = desk_of(vec![plain(1), untiled, unmeasured, plain(4)]);
    let moves = restore_windows(&d, &Config::default());
    assert_eq!(moves.len(), 2);
    assert_eq!(moves[0].window, Window { hwnd: 1 });
    assert_eq!(moves[0].rect, PixelRect { x: 93, y: 100, width: 814, height: 607 });
    assert_eq!(moves[1].window, Window { hwnd: 4 });
    assert_eq!(moves[1].rect, PixelRect { x: 293, y: 300, width: 814, height: 607 });
}

fn no_keys() -> KeyStates {
    KeyStates {
        shift: Some(0),
        left_shift: Some(0),
        control: None,
        left_control: Some(0),
        left_win: Some(0),
        right_win: Some(0),
        menu: Some(0),
    }
}

#[test]
fn held_keys_become_modifiers() {
    assert_eq!(current_modifiers(no_keys()), Modifiers::empty());
    let mut keys: KeyStates = no_keys();
    keys.left_shift = Some(-127);
    keys.menu = Some(-128);
    assert_eq!(current_modifiers(keys), Modifiers::SHIFT | Modifiers::ALT);
    let mut more: KeyStates = no_keys();
    more.control = Some(-128);
    more.right_win = Some(-1);
    assert_eq!(current_modifiers(more), Modifiers::CONTROL | Modifiers::META);
    let mut toggled: KeyStates = no_keys();
    toggled.shift = Some(1);
    toggled.left_win = Some(-32768);
    assert_eq!(current_modifiers(toggled), Modifiers::empty());
}

#[test]
fn a_burst_of_events_is_passed_on_at_its_two_ends() {
    let mut c: Coalescer = Coalescer::new();
    assert!(c.request_tick(1_000_000_000));
    assert!(!c.request_tick(1_100_000_000));
    assert!(!c.request_tick(1_200_000_000));
    assert_eq!(c.timer_step(1_200_000_000), TimerStep::Sleep { duration: 300_000_000 });
    assert_eq!(c.timer_step(1_500_000_000), TimerStep::Fire);
    assert_eq!(c.timer_step(1_500_000_000), TimerStep::Wait);
    assert!(!c.request_tick(1_999_999_999));
    assert!(c.request_tick(2_000_000_000));
    assert_eq!(c.timer_step(9_000_000_000), TimerStep::Wait);
}

#[test]
fn the_wheel_scrolls_while_the_windows_key_is_down() {
    assert_eq!(mouse_proc(0, WM_MOUSEWHEEL, 120 << 16, true), Some(-100_000));
    assert_eq!(mouse_proc(0, WM_MOUSEWHEEL, 0xFF88_0000, true), Some(100_000));
    assert_eq!(mouse_proc(0, WM_MOUSEWHEEL, 120 << 16, false), None);
    assert_eq!(mouse_proc(-1, WM_MOUSEWHEEL, 120 << 16, true), None);
    assert_eq!(mouse_proc(0, 0x0200, 120 << 16, true), None);
}

#[test]
fn desktops_are_numbered_in_the_order_they_are_seen() {
    let mut n: DesktopNumbers = DesktopNumbers::new();
    assert_eq!(n.desktop_id_for(10, 0, Some(77)), Some(1));
    assert_eq!(n.desktop_id_for(11, 0, Some(88)), Some(2));
    assert_eq!(n.desktop_id_for(12, 0, Some(77)), Some(1));
    assert_eq!(n.desktop_id_for(13, 0, Some(0)), None);
    assert_eq!(n.desktop_id_for(14, 0, None), None);
}

#[test]
fn desktops_keep_their_numbers_however_often_they_are_asked_for() {
    let mut n: DesktopNumbers = DesktopNumbers::new();
    let desktop_of: [u128; 4] = [0, 500, 600, 500];
    for round in 0..5 {
        let now: u64 = round * 700_000_000;
        for (hwnd, guid) in desktop_of.iter().enumerate() {
            let id: Option<u32> = n.desktop_id_for(hwnd as u64, now, Some(*guid));
            assert_eq!(id, [None, Some(1), Some(2), Some(1)][hwnd]);
        }
    }
}

#[test]
fn a_sighting_is_relied_on_for_a_while() {
    let mut n: DesktopNumbers = DesktopNumbers::new();
    assert_eq!(n.recall(10, 0), None);
    assert_eq!(n.desktop_id_for(10, 0, Some(77)), Some(1));
    assert_eq!(n.recall(10, 799_999_999), Some(77));
    assert_eq!(n.desktop_id_for(10, 799_999_999, Some(88)), Some(1));
    assert_eq!(n.recall(10, 800_000_000), None);
    assert_eq!(n.desktop_id_for(10, 800_000_000, Some(88)), Some(2));
}

#[test]
fn icon_sources_are_asked_in_order() {
    assert_eq!(next_icon_source(0), Some(IconSource::Message { kind: ICON_SMALL2 }));
    assert_eq!(next_icon_source(1), Some(IconSource::Message { kind: ICON_SMALL }));
    assert_eq!(next_icon_source(2), Some(IconSource::Message { kind: ICON_BIG }));
    assert_eq!(next_icon_source(3), Some(IconSource::Class { index: GCLP_HICONSM }));
    assert_eq!(next_icon_source(4), Some(IconSource::Class { index: GCLP_HICON }));
    assert_eq!(next_icon_source(5), None);
    assert_eq!(fetch_hicon_step(0, 42), IconStep::Found { hicon: 42 });
    assert_eq!(
        fetch_hicon_step(3, 0),
        IconStep::Ask { source: IconSource::Class { index: GCLP_HICON } }
    );
    assert_eq!(fetch_hicon_step(4, 0), IconStep::Nothing);
}

#[test]
fn icon_pixels_change_their_order() {
    let icon = hicon_to_rgba(IconBitmap { width: 1, height: 1, bgra: Some(vec![1, 2, 3, 4]) });
    assert_eq!(icon.unwrap().rgba, vec![3, 2, 1, 4]);
}

#[test]
fn an_icon_without_alpha_becomes_opaque() {
    let icon = fetch_icon_rgba(Some(IconBitmap {
        width: 2,
        height: 1,
        bgra: Some(vec![1, 2, 3, 0, 4, 5, 6, 0]),
    }))
    .unwrap();
    assert_eq!(icon.rgba, vec![3, 2, 1, 255, 6, 5, 4, 255]);
    assert_eq!((icon.width, icon.height), (2, 1));
}

#[test]
fn there_may_be_no_icon() {
    assert!(fetch_icon_rgba(None).is_none());
    assert!(hicon_to_rgba(IconBitmap { width: 0, height: 1, bgra: Some(vec![]) }).is_none());
    assert!(hicon_to_rgba(IconBitmap { width: 1, height: 1, bgra: None }).is_none());
}

#[test]
fn swapping_colours_twice_changes_nothing() {
    let mut b: Vec<u8> = vec![1, 2, 3, 4, 5, 6, 7, 8, 9];
    swap_red_blue(&mut b);
    assert_eq!(b, vec![3, 2, 1, 4, 7, 6, 5, 8, 9]);
    swap_red_blue(&mut b);
    assert_eq!(b, vec![1, 2, 3, 4, 5, 6, 7, 8, 9]);
    assert!(has_alpha(&b));
    make_opaque(&mut b);
    assert_eq!(b, vec![1, 2, 3, 255, 5, 6, 7, 255, 9]);
}

#[test]
fn pictures_shrink_to_their_nearest_pixels() {
    let mut src: Vec<u8> = vec![];
    for p in 0..8u8 {
        src.extend_from_slice(&[p, p, p, 255]);
    }
    let (small, height): (Vec<u8>, u32) = downsample_rgba_nearest(&src, 4, 2, 2);
    assert_eq!(height, 1);
    assert_eq!(small, vec![0, 0, 0, 255, 2, 2, 2, 255]);
}

#[test]
fn the_tray_icon_is_a_blue_band() {
    let icon: Vec<u8> = build_icon();
    assert_eq!(icon.len(), 1024);
    let at = |x: usize, y: usize| -> &[u8] { &icon[(y * 16 + x) * 4..(y * 16 + x) * 4 + 4] };
    assert_eq!(at(2, 6), &[76, 198, 255, 255]);
    assert_eq!(at(13, 9), &[76, 198, 255, 255]);
    assert_eq!(at(1, 6), &[0, 0, 0, 0]);
    assert_eq!(at(2, 10), &[0, 0, 0, 0]);
}

#[test]
fn the_tray_menu_asks_for_actions() {
    assert_eq!(menu_action(MenuEntry::Settings), Action::OpenSettings);
    assert_eq!(menu_action(MenuEntry::Overview), Action::Tiler(TilerAction::OpenOverview));
    assert_eq!(menu_action(MenuEntry::Center), Action::Tiler(TilerAction::CenterFocused));
    assert_eq!(menu_action(MenuEntry::Quit), Action::Exit);
    assert!(retry_send(9));
    assert!(!retry_send(10));
}

#[test]
fn everything_known_of_a_window_is_listed() {
    let mut o: Observed = plain(26);
    o.title = Some(Some("a \"b\"\n".to_string()));
    o.cloaked = None;
    let client: Rect = Rect { left: 0, top: -3, right: 380, bottom: 590 };
    assert_eq!(
        Window { hwnd: 26 }.get_formatted_extensive_info(&desk_of(vec![o]), Some(77), Some(client)),
        "Window HWND(0x1a) info:\
         \n\tis_valid: Ok(true)\
         \n\ttitle: Ok(Some(\"a \\\"b\\\"\\n\"))\
         \n\tprocess_id: Ok(77)\
         \n\tprocess_name: Ok(\"app.exe\")\
         \n\tclass: Ok(\"Klass\")\
         \n\tis_visible: Ok(true)\
         \n\tis_cloaked: Err(unknown)\
         \n\tancestor: Ok(Window { hwnd: 26 })\
         \n\tis_ancestor: Ok(true)\
         \n\touter_bounds: Ok(Bounds { left: 0.0, top: 0.0, right: 400.0, bottom: 600.0 })\
         \n\tinner_bounds: Ok(Bounds { left: 0.0, top: -3.0, right: 380.0, bottom: 590.0 })\
         \n\tdesktop_manager_bounds: Ok(Bounds { left: 7.0, top: 0.0, right: 393.0, bottom: 593.0 })\
         \n\tpadding: Ok([7.0, 0.0, 7.0, 7.0])\
         \n\tis_focused: Ok(false)\
         \n\tis_dialog: Ok(false)"
    );
}

#[test]
fn nothing_is_known_of_a_window_that_was_not_seen() {
    let text: String =
        Window { hwnd: 0 }.get_formatted_extensive_info(&desk_of(vec![]), None, None);
    assert!(text.starts_with("Window HWND(0x0) info:\n\tis_valid: Ok(false)\n\ttitle: Err(unknown)"));
}
