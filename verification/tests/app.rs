use winri::api::types::{ApiCommand, NamedAction};
use winri::api::ApiState;
use winri::app::action::{resolve_action, Action, Held, Key, OverviewAction, TilerAction};
use winri::app::messages::{
    named_action_to_action, Effect, GlobalMessage, Message, Outcome,
};
use winri::app::overview;
use winri::app::overview::grid::compute_grid_layout;
use winri::app::overview::thumbnail::{
    compute_thumbnail_layouts, ThumbnailLayout, ThumbnailRect, WindowData,
};
use winri::app::overview::{
    ContextMenu, DragInfo, MenuMonitor, MonitorOverview, ReleaseOutcome, Thumbnail,
};
use winri::app::overview_mode::{
    thumbnail_label, IgnoreStep, MoveError, OverviewError, OverviewWindow,
};
use winri::app::settings::{
    group_ignored, group_subtitle, group_windows, rule_class_label, rule_title_label, update,
    AppGroup, ParsedNumbers, SettingsEffect, SettingsForm, SettingsMessage, SettingsTab,
    WindowInfo,
};
use winri::app::task::{unfocus_window, UnfocusError};
use winri::app::tiling::{TilerUpdate, UpdateError};
use winri::app::view::{
    build_context_menu, draw_drop_line, draw_ghost, draw_label, label_title, Backdrop, MenuChoice,
    Panel,
};
use winri::app::{
    border_alpha, border_shows, IgnoreError, Mode, SettingsOpening, State, Surroundings,
};
use winri::config::{AppOverride, Config, ConfigStore, IgnoredWindowTitle};
use winri::geometry::{Bounds, Position, Rect, Size};
use winri::monitor::{Monitor, MonitorError};
use winri::window::{Desktop, InvalidHandle, Observed, PixelRect, Window};

fn w(hwnd: u64) -> Window {
    Window { hwnd }
}

fn facts(hwnd: u64) -> Observed {
    Observed {
        window: w(hwnd),
        valid: Some(true),
        visible: Some(true),
        cloaked: Some(false),
        ancestor: Some(w(hwnd)),
        style: Some(0),
        ex_style: Some(0),
        has_owner: Some(false),
        title: Some(Some(format!("title {hwnd}"))),
        class: Some("Klass".to_string()),
        process: Some("app.exe".to_string()),
        exe_path: Some("C:/apps/app.exe".to_string()),
        iconic: false,
        monitor: 1,
        frame: Some(Rect { left: 0, top: 10, right: 460, bottom: 1070 }),
        outer: Some(Rect { left: 0, top: 10, right: 460, bottom: 1070 }),
        desktop_id: Some(1),
    }
}

fn screen(hmonitor: i64, name: &str, left: i32, is_primary: bool) -> Monitor {
    Monitor {
        hmonitor,
        device_name: name.to_string(),
        work_area: Rect { left, top: 0, right: left + 1920, bottom: 1080 },
        is_primary,
    }
}

fn around(observed: Vec<Observed>, focus: u64) -> Surroundings {
    Surroundings {
        desk: Desktop { observed, foreground: Some(w(focus)), mouse_held: false, now: 0 },
        monitors: vec![screen(1, "ONE", 0, true), screen(2, "TWO", 1920, false)],
        enumerated: true,
    }
}

fn two(focus: u64) -> Surroundings {
    around(vec![facts(1), facts(2)], focus)
}

fn fresh() -> State {
    let mut c: Config = Config::default();
    c.tiling.smooth_scroll = false;
    State::new(&c, Size { width: 1_920_000, height: 1_080_000 }, false, 100)
}

/// The program after its first look, with windows 1 and 2 tiled.
fn running() -> State {
    let mut s: State = fresh();
    let _ = s.update_tiler(&two(1), &Config::default());
    s
}

fn rect(x: i64, y: i64, width: i64, height: i64) -> ThumbnailRect {
    ThumbnailRect { x, y, width, height }
}

fn thumb(id: i64, src: u64, r: ThumbnailRect) -> Thumbnail {
    Thumbnail {
        thumbnail_id: id,
        src: w(src),
        rect: r,
        app_name: "App".to_string(),
        title: "T".to_string(),
        icon: None,
    }
}

/// The program in overview mode, with the thumbnails of windows 1 and 2 in
/// window 200 on monitor 1.
fn overviewing() -> State {
    let mut s: State = running();
    let _ = s.prepare_open_overview(&two(1));
    let opening = s.handle_overview_message(
        overview::Message::OverviewWindowCreated { id: 200, raw_handle: 77, hmonitor: 1 },
        &two(1),
        &Config::default(),
    );
    assert!(opening.binding.is_ok());
    s.bind_thumbnails(
        200,
        1,
        vec![
            thumb(11, 1, rect(100_000, 100_000, 200_000, 300_000)),
            thumb(12, 2, rect(400_000, 100_000, 200_000, 300_000)),
        ],
    );
    s
}

fn at(x: i64, y: i64) -> Position {
    Position { x, y }
}

fn is_overview(s: &State) -> bool {
    matches!(s.mode, Mode::Overview(_))
}

fn say(s: &mut State, m: Message) -> Outcome {
    s.handle_app_message(m, &two(1), &Config::default(), 300)
}

#[test]
fn the_program_starts_tiling_and_empty() {
    let s: State = fresh();
    assert!(s.is_tiling());
    assert!(s.tiler.windows().is_empty());
    assert!(s.pending_initial_consolidation);
    assert!(!s.overview_opening);
    assert_eq!(s.settings_window_id, None);
    assert!(matches!(Mode::default(), Mode::Tiler(t) if t.current_border_bounds.is_none()));
}

#[test]
fn the_first_update_tiles_every_window() {
    let mut s: State = fresh();
    let mut far: Observed = facts(2);
    far.monitor = 2;
    let env: Surroundings = around(vec![facts(1), far], 1);
    match s.update_tiler(&env, &Config::default()) {
        TilerUpdate::Updated { seed, published, .. } => {
            assert_eq!(seed.unwrap().moves.len(), 2);
            assert_eq!(published.unwrap().windows.len(), 2);
        }
        _ => panic!("not updated"),
    }
    assert!(!s.pending_initial_consolidation);
    assert_eq!(s.tiler.windows().len(), 2);
    assert!(matches!(
        s.mode,
        Mode::Tiler(t) if t.current_border_bounds
            == Some(Bounds { left: 0, top: 10_000, right: 460_000, bottom: 1_070_000 })
    ));
}

#[test]
fn later_updates_leave_other_monitors_alone() {
    let mut s: State = running();
    let mut far: Observed = facts(3);
    far.monitor = 2;
    let env: Surroundings = around(vec![facts(1), facts(2), far], 1);
    match s.update_tiler(&env, &Config::default()) {
        TilerUpdate::Updated { seed, .. } => assert!(seed.is_none()),
        _ => panic!("not updated"),
    }
    assert_eq!(s.tiler.windows().len(), 2);
}

#[test]
fn an_update_can_fail_or_not_apply() {
    let mut s: State = fresh();
    let mut env: Surroundings = two(1);
    env.enumerated = false;
    assert!(matches!(
        s.update_tiler(&env, &Config::default()),
        TilerUpdate::Failed(UpdateError::Enumeration)
    ));
    let mut dark: Surroundings = two(1);
    dark.monitors = vec![];
    assert!(matches!(
        s.update_tiler(&dark, &Config::default()),
        TilerUpdate::Failed(UpdateError::Monitor(MonitorError::NoneDetected))
    ));
    let mut o: State = overviewing();
    assert!(matches!(o.update_tiler(&two(1), &Config::default()), TilerUpdate::NotTiling));
}

#[test]
fn the_published_place_is_the_place_on_screen() {
    let mut s: State = running();
    let _ = s.tiler.set_scroll_offset(30_000, &two(1).desk);
    let p: ApiState = s.publish_api_snapshot(&two(1), &Config::default());
    assert_eq!(p.mode, "tiler");
    assert_eq!(p.windows[1].x, 490_000);
    assert_eq!(
        p.windows[1].x - p.scroll_offset,
        s.tiler.windows()[1].last_layout.unwrap().x
    );
    assert_eq!(p.focused_window_id, Some(1));
    assert_eq!(p.tiling_monitor_device_name, "ONE");
    assert_eq!(p.monitors.len(), 2);
    assert!(p.monitors[0].is_tiling && !p.monitors[1].is_tiling);
    assert_eq!(p.windows[0].monitor, "ONE");
    assert_eq!(p.windows[0].title, "title 1");
    assert_eq!(p.windows[0].desktop_id, Some(1));
    assert_eq!(p.screen_width, 1_920_000);
    assert_eq!(p.total_width, 960_000);
}

#[test]
fn a_border_needs_a_measured_window() {
    let mut s: State = running();
    let mut env: Surroundings = two(1);
    env.desk.observed[0].frame = None;
    assert!(!s.update_tiler_border(&env.desk));
    assert!(s.update_tiler_border(&two(9).desk));
    assert!(matches!(s.mode, Mode::Tiler(t) if t.current_border_bounds.is_none()));
}

#[test]
fn the_border_fades_in_after_motion() {
    assert_eq!(border_alpha(None), 1_000_000);
    assert_eq!(border_alpha(Some(499_999_999)), 0);
    assert_eq!(border_alpha(Some(625_000_000)), 500_000);
    assert_eq!(border_alpha(Some(u64::MAX)), 1_000_000);
    assert!(!border_shows(1_000));
    assert!(border_shows(1_001));
    let s: State = running();
    assert!(s.tiler_view(100).is_none());
    let b = s.tiler_view(900_000_000).unwrap();
    assert_eq!(b.alpha, 1_000_000);
    assert_eq!(b.bounds.right, 460_000);
    assert!(overviewing().tiler_view(900_000_000).is_none());
}

#[test]
fn windows_of_the_program_show_different_things() {
    let mut s: State = overviewing();
    s.settings_window_id = Some(400);
    assert_eq!(s.panel(100), Panel::Overlay);
    assert_eq!(s.panel(400), Panel::Settings);
    assert_eq!(s.panel(200), Panel::Overview);
    assert_eq!(s.panel(5), Panel::Empty);
    assert_eq!(s.theme(100), Backdrop::Transparent);
    assert_eq!(s.theme(200), Backdrop::Dimmed);
    assert_eq!(s.theme(400), Backdrop::Dark);
}

#[test]
fn opening_the_settings_fills_the_form() {
    let mut s: State = running();
    let mut unknown: Observed = facts(2);
    unknown.class = None;
    let env: Surroundings = around(vec![facts(1), unknown], 1);
    assert_eq!(
        s.open_settings(&Config::default(), &env.desk, 300),
        SettingsOpening::Open { window_id: 300 }
    );
    assert_eq!(s.settings_form.padding, "10");
    assert_eq!(s.settings_form.resize_increment, "20");
    assert_eq!(s.settings_form.current_windows.len(), 1);
    assert_eq!(s.settings_form.current_windows[0].app_name, "App");
    assert_eq!(
        s.open_settings(&Config::default(), &env.desk, 301),
        SettingsOpening::Focus { window_id: 300 }
    );
    assert_eq!(s.close_settings(), Some(300));
    assert_eq!(s.close_settings(), None);
}

#[test]
fn the_overview_and_the_settings_exclude_each_other() {
    let mut s: State = overviewing();
    assert_eq!(
        s.open_settings(&Config::default(), &two(1).desk, 300),
        SettingsOpening::Suppressed
    );
    let mut t: State = running();
    let _ = t.open_settings(&Config::default(), &two(1).desk, 300);
    assert!(t.prepare_open_overview(&two(1)).is_empty());
    assert!(!t.overview_opening);
    let mut u: State = running();
    assert_eq!(u.prepare_open_overview(&two(1)).len(), 2);
    assert!(u.overview_opening);
    assert_eq!(
        u.open_settings(&Config::default(), &two(1).desk, 300),
        SettingsOpening::Suppressed
    );
}

#[test]
fn long_titles_are_cut_in_the_settings() {
    let s: State = running();
    let mut env: Surroundings = two(1);
    env.desk.observed[0].title = Some(Some("x".repeat(71)));
    let infos: Vec<WindowInfo> = s.snapshot_tiled_windows_for_settings(&env.desk);
    assert_eq!(infos[0].title.chars().count(), 70);
    assert!(infos[0].title.ends_with('\u{2026}'));
}

#[test]
fn the_focused_window_can_be_ignored() {
    let s: State = running();
    let c: Config = Config::default();
    let changed: Config =
        s.ignore_focused_window_by_class(&c, &two(1).desk).unwrap().unwrap();
    let rule: &IgnoredWindowTitle = &changed.filter.ignored_window_titles[0];
    assert_eq!(rule.process, "app.exe");
    assert_eq!(rule.title, Some("title 1".to_string()));
    assert_eq!(rule.class, Some("Klass".to_string()));
    assert!(s.ignore_focused_window_by_class(&changed, &two(1).desk).unwrap().is_none());
    let mut nobody: Surroundings = two(1);
    nobody.desk.foreground = None;
    assert_eq!(
        s.ignore_focused_window_by_class(&c, &nobody.desk).unwrap_err(),
        IgnoreError::NoFocusedWindow
    );
    assert_eq!(
        s.ignore_focused_window_by_class(&c, &two(9).desk).unwrap_err(),
        IgnoreError::UnknownClass
    );
}

#[test]
fn the_form_follows_what_is_typed() {
    let mut f: SettingsForm = SettingsForm::from_current_config(&Config::default(), vec![]);
    f.status = Some("old".to_string());
    assert_eq!(
        update(&mut f, SettingsMessage::TabSelected(SettingsTab::Apps)),
        SettingsEffect::Nothing
    );
    assert_eq!(f.active_tab, SettingsTab::Apps);
    assert!(f.status.is_some());
    let _ = update(&mut f, SettingsMessage::PaddingChanged("1x".to_string()));
    assert_eq!(f.padding, "1x");
    assert!(f.status.is_none());
    let _ = update(&mut f, SettingsMessage::ResizeIncrementChanged(" 7 ".to_string()));
    assert_eq!(f.resize_increment_input(), "7");
    let _ = update(&mut f, SettingsMessage::ThrottleSlowAppsChanged(false));
    assert!(!f.throttle_slow_apps);
    assert_eq!(update(&mut f, SettingsMessage::Close), SettingsEffect::Close);
    assert_eq!(update(&mut f, SettingsMessage::Save), SettingsEffect::Save);
    assert_eq!(update(&mut f, SettingsMessage::ReloadFromDisk), SettingsEffect::Reload);
    assert_eq!(SettingsTab::default(), SettingsTab::General);
}

#[test]
fn lists_grow_and_shrink_in_the_form() {
    let mut f: SettingsForm = SettingsForm::empty();
    let _ = update(&mut f, SettingsMessage::NewProcessChanged("  a.exe ".to_string()));
    let _ = update(&mut f, SettingsMessage::AddProcess);
    assert_eq!(f.ignored_processes, vec!["a.exe".to_string()]);
    assert_eq!(f.new_process, "");
    let _ = update(&mut f, SettingsMessage::AddProcessByName("a.exe".to_string()));
    let _ = update(&mut f, SettingsMessage::AddProcessByName("".to_string()));
    assert_eq!(f.ignored_processes.len(), 1);
    let _ = update(&mut f, SettingsMessage::RemoveProcess(5));
    let _ = update(&mut f, SettingsMessage::RemoveProcess(0));
    assert!(f.ignored_processes.is_empty());
    let _ = update(&mut f, SettingsMessage::NewClassChanged("K".to_string()));
    let _ = update(&mut f, SettingsMessage::AddClass);
    let _ = update(&mut f, SettingsMessage::AddClassByName("L".to_string()));
    assert_eq!(f.ignored_classes, vec!["K".to_string(), "L".to_string()]);
    let _ = update(&mut f, SettingsMessage::RemoveClass(0));
    assert_eq!(f.ignored_classes, vec!["L".to_string()]);
    f.ignored_window_titles.push(IgnoredWindowTitle {
        process: "p".to_string(),
        title: None,
        title_starts_with: None,
        class: None,
    });
    let _ = update(&mut f, SettingsMessage::RemoveIgnoredWindow(0));
    assert!(f.ignored_window_titles.is_empty());
}

#[test]
fn an_untouched_form_saves_the_same() {
    let mut c: Config = Config::default();
    c.api.port = 9;
    c.monitors.tiling_monitor = "TWO".to_string();
    c.tiling.smooth_scroll_factor = 300;
    let f: SettingsForm = SettingsForm::from_current_config(&c, vec![]);
    let built: Config = f
        .build_config(ParsedNumbers { padding: None, resize_increment: None }, &c)
        .unwrap();
    assert_eq!(built.tiling, c.tiling);
    assert_eq!(built.api.port, 9);
    assert_eq!(built.monitors.tiling_monitor, "TWO");
    assert_eq!(f.padding_input(), "10");
}

#[test]
fn numbers_that_are_none_are_reported() {
    let mut f: SettingsForm = SettingsForm::empty();
    f.padding = "ten".to_string();
    f.resize_increment = "x".to_string();
    assert_eq!(
        f.build_config(
            ParsedNumbers { padding: None, resize_increment: None },
            &Config::default()
        )
        .unwrap_err(),
        "Padding must be a number, got `ten`"
    );
    assert_eq!(
        f.build_config(
            ParsedNumbers { padding: Some(1), resize_increment: None },
            &Config::default()
        )
        .unwrap_err(),
        "Resize step must be a number, got `x`"
    );
}

#[test]
fn a_number_in_another_form_is_taken_as_it_was_parsed() {
    let mut f: SettingsForm = SettingsForm::from_current_config(&Config::default(), vec![]);
    f.padding = " 1e1 ".to_string();
    f.resize_increment = " 7.5 ".to_string();
    let built: Config = f
        .build_config(
            ParsedNumbers { padding: Some(10_000), resize_increment: Some(7) },
            &Config::default(),
        )
        .unwrap();
    assert_eq!(built.tiling.padding, 10_000);
    assert_eq!(built.tiling.resize_increment, 7_500);
}

#[test]
fn saving_and_reloading_tell_how_it_went() {
    let mut f: SettingsForm = SettingsForm::empty();
    let mut store: ConfigStore = ConfigStore { slot: None };
    f.saved(&mut store, Config::default(), Err("full".to_string()));
    assert_eq!(f.status.as_deref(), Some("Save failed: full"));
    assert!(store.slot.is_none());
    f.saved(&mut store, Config::default(), Ok(()));
    assert_eq!(
        f.status.as_deref(),
        Some("Saved. Filter changes apply now; padding/resize step take effect on winri restart.")
    );
    assert!(store.slot.is_some());
    f.reloaded(&mut store, Err("gone".to_string()));
    assert_eq!(f.status.as_deref(), Some("Reload failed: gone"));
    let mut c: Config = Config::default();
    c.tiling.padding = 12_500;
    f.reloaded(&mut store, Ok(c));
    assert_eq!(f.padding, "12.5");
    assert_eq!(f.status.as_deref(), Some("Reloaded from disk."));
    f.refused("no".to_string());
    assert_eq!(f.status.as_deref(), Some("no"));
}

fn info(process: &str, title: &str) -> WindowInfo {
    WindowInfo {
        process: process.to_string(),
        class: "K".to_string(),
        app_name: "A".to_string(),
        title: title.to_string(),
    }
}

#[test]
fn windows_are_grouped_by_executable() {
    let list: Vec<WindowInfo> = vec![info("a", "1"), info("b", "2"), info("a", "3")];
    let groups: Vec<AppGroup> = group_windows(&list);
    assert_eq!(
        groups,
        vec![AppGroup { first: 0, count: 2 }, AppGroup { first: 1, count: 1 }]
    );
    assert_eq!(group_subtitle(groups[0], &list), "2 windows");
    assert_eq!(group_subtitle(groups[1], &list), "2");
    let mut f: SettingsForm = SettingsForm::from_current_config(&Config::default(), list);
    f.ignored_processes.push("b".to_string());
    assert_eq!(group_ignored(&f, groups[1]), (true, false));
    assert_eq!(group_ignored(&f, groups[0]), (false, false));
}

#[test]
fn rules_are_labelled() {
    let mut r: IgnoredWindowTitle = IgnoredWindowTitle {
        process: "p".to_string(),
        title: None,
        title_starts_with: None,
        class: None,
    };
    assert_eq!(rule_class_label(&r), "(any class)");
    assert_eq!(rule_title_label(&r), "(empty title)");
    r.title = Some("".to_string());
    assert_eq!(rule_title_label(&r), "(empty title)");
    r.title = Some("T".to_string());
    r.class = Some("C".to_string());
    assert_eq!(rule_class_label(&r), "C");
    assert_eq!(rule_title_label(&r), "T");
}

#[test]
fn thumbnails_stand_in_a_centered_row() {
    let windows: Vec<WindowData> = vec![
        WindowData { inner: w(1), width: 1_000_000, height: 0 },
        WindowData { inner: w(2), width: 1_000_000, height: 0 },
    ];
    let r: Vec<ThumbnailLayout> = compute_thumbnail_layouts(
        &windows,
        Size { width: 2_010_000, height: 1_000_000 },
        10_000,
    );
    // The strip would fill the screen: six tenths of its size.
    assert_eq!(r[0].rect, rect(400_000, 200_000, 600_000, 600_000));
    assert_eq!(r[1].rect, rect(1_010_000, 200_000, 600_000, 600_000));
    let narrow: Vec<ThumbnailLayout> = compute_thumbnail_layouts(
        &windows,
        Size { width: 1_005_000, height: 1_000_000 },
        10_000,
    );
    // Half the size would fill the screen: nine tenths of that.
    assert_eq!(narrow[0].rect, rect(47_500, 275_000, 450_000, 450_000));
    assert!(compute_thumbnail_layouts(&vec![], Size { width: 1, height: 1 }, 0).is_empty());
}

#[test]
fn a_rectangle_contains_its_left_and_top_edges_only() {
    let r: ThumbnailRect = rect(10, 20, 30, 40);
    assert!(r.contains(10, 20));
    assert!(!r.contains(40, 20));
    assert!(!r.contains(10, 60));
    assert_eq!(
        rect(1_999, -1_999, 2_000, 4_000).destination(),
        Rect { left: 1, top: -1, right: 3, bottom: 2 }
    );
}

#[test]
fn a_grid_wraps_and_keeps_the_shape_of_its_windows() {
    let screen: Size = Size { width: 1_920_000, height: 1_080_000 };
    let mut windows: Vec<WindowData> = Vec::new();
    for hwnd in 1..=3 {
        windows.push(WindowData { inner: w(hwnd), width: 800_000, height: 600_000 });
    }
    windows.push(WindowData { inner: w(4), width: 100_000, height: 100_000 });
    let rects: Vec<ThumbnailRect> =
        compute_grid_layout(&windows, screen, 16_000).iter().map(|l| l.rect).collect();
    assert_eq!(
        rects,
        vec![
            ThumbnailRect { x: 16_000, y: 42_000, width: 618_666, height: 463_999 },
            ThumbnailRect { x: 650_666, y: 42_000, width: 618_666, height: 463_999 },
            ThumbnailRect { x: 1_285_332, y: 42_000, width: 618_666, height: 463_999 },
            ThumbnailRect { x: 275_333, y: 756_000, width: 100_000, height: 100_000 },
        ]
    );
}

#[test]
fn a_tall_screen_has_fewer_columns_in_its_grid() {
    let screen: Size = Size { width: 1_080_000, height: 1_920_000 };
    let mut windows: Vec<WindowData> = Vec::new();
    for hwnd in 1..=4 {
        windows.push(WindowData { inner: w(hwnd), width: 300_000, height: 300_000 });
    }
    let layouts: Vec<ThumbnailLayout> = compute_grid_layout(&windows, screen, 16_000);
    assert_eq!(layouts[0].rect.y, layouts[1].rect.y);
    assert!(layouts[2].rect.y > layouts[1].rect.y);
    assert!(compute_grid_layout(&vec![], screen, 16_000).is_empty());
    let flat: Vec<WindowData> = vec![WindowData { inner: w(1), width: 0, height: 300_000 }];
    let none: ThumbnailRect = compute_grid_layout(&flat, screen, 16_000)[0].rect;
    assert_eq!((none.width, none.height), (0, 0));
}

#[test]
fn the_overview_gets_a_window_on_each_monitor() {
    let mut s: State = running();
    assert_eq!(
        s.prepare_open_overview(&two(1)),
        vec![
            OverviewWindow { hmonitor: 1, x: 0, y: 0, width: 1920, height: 1080 },
            OverviewWindow { hmonitor: 2, x: 1920, y: 0, width: 1920, height: 1080 },
        ]
    );
    let mut none: Surroundings = two(1);
    none.monitors = vec![];
    assert!(running().prepare_open_overview(&none).is_empty());
    assert!(overviewing().prepare_open_overview(&two(1)).is_empty());
}

#[test]
fn the_first_overview_window_takes_the_tiles_off_the_screen() {
    let mut s: State = running();
    let opening = s.finalize_open_overview(77, 1, &two(1), &Config::default());
    assert_eq!(opening.offscreen.len(), 2);
    assert_eq!(opening.offscreen[0].x, -560);
    let binding = opening.binding.unwrap();
    assert_eq!(binding.dest, w(77));
    assert_eq!(binding.windows.len(), 2);
    assert_eq!(binding.layouts.len(), 2);
    assert_eq!(binding.layouts[0].rect.y, binding.layouts[1].rect.y);
    assert!(is_overview(&s));
    assert!(s.tiler.windows()[0].last_layout.is_none());
    let second = s.finalize_open_overview(78, 2, &two(1), &Config::default());
    assert!(second.offscreen.is_empty());
    let other = second.binding.unwrap();
    assert!(other.windows.is_empty());
    assert!(other.layouts.is_empty());
}

#[test]
fn floating_windows_show_on_their_own_monitor() {
    let mut s: State = running();
    let mut far: Observed = facts(3);
    far.monitor = 2;
    let env: Surroundings = around(vec![facts(1), facts(2), far], 1);
    let opening = s.finalize_open_overview(78, 2, &env, &Config::default());
    let b = opening.binding.unwrap();
    assert_eq!(b.windows.len(), 1);
    assert_eq!(b.windows[0].inner, w(3));
}

#[test]
fn an_overview_that_fails_leaves_the_settings_open_to_use() {
    let mut s: State = running();
    let _ = s.prepare_open_overview(&two(1));
    let opening = s.handle_overview_message(
        overview::Message::OverviewWindowCreated { id: 1, raw_handle: 0, hmonitor: 1 },
        &two(1),
        &Config::default(),
    );
    assert_eq!(opening.binding.unwrap_err(), OverviewError::InvalidHandle);
    assert!(!s.overview_opening);
    let gone = s.handle_overview_message(
        overview::Message::OverviewWindowCreated { id: 1, raw_handle: 7, hmonitor: 99 },
        &two(1),
        &Config::default(),
    );
    assert_eq!(gone.binding.unwrap_err(), OverviewError::MonitorGone);
}

#[test]
fn closing_the_overview_lets_everything_go() {
    let mut s: State = overviewing();
    let closing = s.close_overview().unwrap();
    assert_eq!(closing.thumbnails, vec![11, 12]);
    assert_eq!(closing.windows, vec![200]);
    assert!(s.is_tiling());
    assert!(s.close_overview().is_none());
    assert!(!s.switch_to_tiler_mode());
}

#[test]
fn a_still_press_is_a_click() {
    let mut s: State = overviewing();
    s.handle_overview_cursor_moved(200, at(150_000, 150_000));
    s.handle_overview_mouse_pressed(200);
    s.handle_overview_cursor_moved(200, at(153_000, 154_000));
    assert!(matches!(
        s.overview_release_outcome(200),
        Some(ReleaseOutcome::Click(x)) if x == w(1)
    ));
    assert!(s.overview_release_outcome(200).is_none());
}

#[test]
fn a_drag_onto_another_thumbnail_reorders() {
    let mut s: State = overviewing();
    s.handle_overview_cursor_moved(200, at(150_000, 150_000));
    s.handle_overview_mouse_pressed(200);
    s.handle_overview_cursor_moved(200, at(450_000, 150_000));
    let drag: DragInfo =
        s.overview_monitor_for_window(200).unwrap().compute_drag_info().unwrap();
    assert_eq!(drag.source_idx, 0);
    assert_eq!(drag.dest_idx, Some(1));
    assert!(matches!(
        s.overview_release_outcome(200),
        Some(ReleaseOutcome::Reorder { src, dst }) if src == w(1) && dst == w(2)
    ));
}

#[test]
fn a_drag_into_the_gap_comes_to_nothing() {
    let mut s: State = overviewing();
    s.handle_overview_cursor_moved(200, at(150_000, 150_000));
    s.handle_overview_mouse_pressed(200);
    s.handle_overview_cursor_moved(200, at(350_000, 150_000));
    assert!(s.overview_release_outcome(200).is_none());
}

#[test]
fn reordering_moves_the_thumbnails_too() {
    let mut s: State = overviewing();
    let moves = s.reorder_overview(w(2), w(1), &two(1), &Config::default());
    assert_eq!(moves.len(), 2);
    assert_eq!(s.tiler.windows()[0].inner, w(2));
    let m: &MonitorOverview = s.overview_monitor_for_window(200).unwrap();
    assert!(m.thumbnails[1].rect.x < m.thumbnails[0].rect.x);
}

#[test]
fn the_context_menu_opens_below_the_thumbnail() {
    let mut s: State = overviewing();
    s.handle_overview_cursor_moved(200, at(150_000, 150_000));
    s.open_overview_context_menu(200, &two(1));
    assert!(s.overview_context_menu_open());
    let menu: &ContextMenu =
        s.overview_monitor_for_window(200).unwrap().context_menu.as_ref().unwrap();
    assert_eq!(menu.target, w(1));
    assert_eq!(menu.anchor, at(100_000, 404_000));
    assert_eq!(menu.process, "app.exe");
    assert_eq!(menu.other_monitors.len(), 1);
    assert_eq!(menu.other_monitors[0].device_name, "TWO");
    s.dismiss_overview_context_menu();
    assert!(!s.overview_context_menu_open());
}

#[test]
fn the_context_menu_lists_what_can_be_done() {
    let mut menu: ContextMenu = ContextMenu {
        target: w(7),
        anchor: at(0, 0),
        app_name: "App".to_string(),
        process: "app.exe".to_string(),
        other_monitors: vec![MenuMonitor {
            device_name: "TWO".to_string(),
            label: "Move there".to_string(),
        }],
    };
    let buttons = build_context_menu(&menu);
    assert_eq!(buttons.len(), 3);
    assert_eq!(buttons[0].label, "Ignore this window");
    assert!(matches!(buttons[0].choice, MenuChoice::IgnoreWindow { hwnd: 7 }));
    assert_eq!(buttons[1].label, "Ignore all App windows");
    assert!(matches!(&buttons[1].choice, MenuChoice::IgnoreApp { process } if process == "app.exe"));
    assert_eq!(buttons[2].label, "Move there");
    assert!(matches!(
        &buttons[2].choice,
        MenuChoice::MoveToMonitor { target, device_name } if *target == w(7) && device_name == "TWO"
    ));
    menu.process = "".to_string();
    assert_eq!(build_context_menu(&menu).len(), 2);
}

#[test]
fn labels_stand_below_their_thumbnails() {
    let l = draw_label(rect(100_000, 50_000, 300_000, 200_000), true);
    assert_eq!(l.icon, Some(rect(100_000, 258_000, 24_000, 24_000)));
    assert_eq!(l.name_at, at(130_000, 260_000));
    assert_eq!(l.name_width, 270_000);
    assert_eq!(l.title_at, at(100_000, 286_000));
    assert_eq!(l.title_width, 300_000);
    let bare = draw_label(rect(0, 0, 10_000, 0), false);
    assert_eq!(bare.icon, None);
    assert_eq!(bare.name_width, 10_000);
    assert_eq!(draw_label(rect(0, 0, 10_000, 0), true).name_width, 0);
    assert_eq!(label_title(&"y".repeat(91)).chars().count(), 90);
    assert_eq!(label_title("y"), "y");
}

#[test]
fn a_drag_is_drawn() {
    let thumbs: Vec<Thumbnail> =
        vec![thumb(1, 1, rect(0, 0, 100_000, 50_000)), thumb(2, 2, rect(200_000, 30_000, 10, 70_000))];
    let d: DragInfo = DragInfo { source_idx: 0, cursor: at(300_000, 300_000), dest_idx: Some(1) };
    let line = draw_drop_line(&thumbs, d).unwrap();
    assert_eq!((line.x, line.top, line.bottom), (200_000, 18_000, 112_000));
    assert_eq!(draw_ghost(&thumbs, d), Some(rect(250_000, 275_000, 100_000, 50_000)));
    let same: DragInfo = DragInfo { source_idx: 1, cursor: at(0, 0), dest_idx: Some(1) };
    assert!(draw_drop_line(&thumbs, same).is_none());
    let stale: DragInfo = DragInfo { source_idx: 9, cursor: at(0, 0), dest_idx: None };
    assert!(draw_ghost(&thumbs, stale).is_none());
    assert!(draw_drop_line(&thumbs, stale).is_none());
}

#[test]
fn thumbnails_are_labelled_by_override_or_executable() {
    let mut c: Config = Config::default();
    let plain = thumbnail_label(w(1), &two(1).desk, &c);
    assert_eq!(plain.app_name, "App");
    assert_eq!(plain.title, "title 1");
    assert!(plain.icon_path.is_none());
    c.app_overrides.push(AppOverride {
        exe_path_contains: "APPS/APP".to_string(),
        display_name: "Nice".to_string(),
        icon_path: Some("i.png".to_string()),
    });
    let nice = thumbnail_label(w(1), &two(1).desk, &c);
    assert_eq!(nice.app_name, "Nice");
    assert_eq!(nice.icon_path, Some("i.png".to_string()));
    assert_eq!(thumbnail_label(w(9), &two(1).desk, &c).app_name, "");
}

#[test]
fn the_menu_moves_a_window_to_a_monitor() {
    let s: State = overviewing();
    assert_eq!(
        s.overview_action_move_to_monitor(w(1), "TWO", &two(1)),
        Ok(PixelRect { x: 2112, y: 108, width: 1536, height: 864 })
    );
    assert_eq!(
        s.overview_action_move_to_monitor(w(1), "NINE", &two(1)),
        Err(MoveError::NotAttached)
    );
    assert_eq!(
        s.overview_action_move_to_monitor(w(9), "TWO", &two(1)),
        Err(MoveError::Unmeasurable)
    );
    assert_eq!(s.overview_action_force_redraw(0), Err(InvalidHandle));
    assert_eq!(s.overview_action_force_redraw(4), Ok(w(4)));
}

#[test]
fn the_menu_ignores_windows_and_apps() {
    let s: State = overviewing();
    let c: Config = Config::default();
    assert!(matches!(s.overview_action_ignore_app("", &c), IgnoreStep::Nothing));
    let saved: Config = match s.overview_action_ignore_app("a.exe", &c) {
        IgnoreStep::Save(x) => x,
        _ => panic!("not saved"),
    };
    assert_eq!(saved.filter.ignored_processes, vec!["a.exe".to_string()]);
    assert!(matches!(s.overview_action_ignore_app("a.exe", &saved), IgnoreStep::Dismiss));
    let ignored: Config = match s.overview_action_ignore_window(1, &c, &two(1).desk) {
        Ok(IgnoreStep::Save(x)) => x,
        _ => panic!("not saved"),
    };
    assert_eq!(ignored.filter.ignored_window_titles.len(), 1);
    assert!(matches!(
        s.overview_action_ignore_window(1, &ignored, &two(1).desk),
        Ok(IgnoreStep::Dismiss)
    ));
    assert!(matches!(
        s.overview_action_ignore_window(9, &c, &two(1).desk),
        Ok(IgnoreStep::Dismiss)
    ));
    assert!(s.overview_action_ignore_window(0, &c, &two(1).desk).is_err());
}

#[test]
fn the_overlay_gives_the_focus_to_the_desktop() {
    let d: Desktop = two(50).desk;
    assert_eq!(unfocus_window(50, Some(w(3)), &d), Ok(Some(w(3))));
    assert_eq!(unfocus_window(51, Some(w(3)), &d), Ok(None));
    assert_eq!(unfocus_window(0, Some(w(3)), &d), Err(UnfocusError::InvalidOverlay));
    assert_eq!(unfocus_window(50, None, &d), Err(UnfocusError::NoDesktopWindow));
    let mut nobody: Desktop = two(50).desk;
    nobody.foreground = None;
    assert_eq!(unfocus_window(50, Some(w(3)), &nobody), Err(UnfocusError::NoFocusedWindow));
}

#[test]
fn names_on_the_wire_stand_for_actions() {
    assert_eq!(
        named_action_to_action(NamedAction::FocusPrev),
        Action::Tiler(TilerAction::MoveFocusPrevious)
    );
    assert_eq!(
        named_action_to_action(NamedAction::CloseOverview),
        Action::Overview(OverviewAction::CloseOverview)
    );
    assert_eq!(named_action_to_action(NamedAction::Exit), Action::Exit);
}

#[test]
fn commands_scroll_the_strip() {
    let mut s: State = running();
    let _ = s.handle_api_command(
        ApiCommand::SetScrollOffset { offset: 120_000, animate_ms: 0 },
        &two(1),
    );
    assert_eq!(s.tiler.scroll_offset(), 120_000);
    let _ = s.handle_api_command(ApiCommand::ScrollBy { delta: -20_000, animate_ms: 0 }, &two(1));
    assert_eq!(s.tiler.scroll_offset(), 100_000);
    let _ = s.handle_api_command(ApiCommand::ScrollBy { delta: 50_000, animate_ms: 10 }, &two(1));
    assert_eq!(s.tiler.scroll_animation.unwrap().target_offset, 150_000);
}

#[test]
fn strip_commands_need_tiling() {
    let mut s: State = overviewing();
    let e: Effect = s.handle_api_command(
        ApiCommand::SetScrollOffset { offset: 120_000, animate_ms: 0 },
        &two(1),
    );
    assert!(matches!(e, Effect::Nothing));
    assert_eq!(s.tiler.scroll_offset(), 0);
    let r: Effect = s.handle_api_command(
        ApiCommand::ResizeWindow { hwnd: 1, target_width: 500_000, animate_ms: 0, center: false },
        &two(1),
    );
    assert!(matches!(r, Effect::Nothing));
    let a: Effect = s.handle_action(
        Action::Tiler(TilerAction::SwapWithNext),
        &two(1),
        &Config::default(),
        0,
    );
    assert!(matches!(a, Effect::Nothing));
    assert_eq!(s.tiler.windows()[0].inner, w(1));
}

#[test]
fn a_resize_can_center_the_window() {
    let mut s: State = running();
    let _ = s.handle_api_command(
        ApiCommand::ResizeWindow { hwnd: 2, target_width: 1_000_000, animate_ms: 0, center: true },
        &two(1),
    );
    assert_eq!(s.tiler.windows()[1].width, 1_000_000);
    assert_eq!(s.tiler.scroll_offset(), 490_000 + 500_000 - 960_000);
    let e: Effect = s.handle_api_command(
        ApiCommand::ResizeWindow { hwnd: 9, target_width: 1_000_000, animate_ms: 0, center: true },
        &two(1),
    );
    assert!(matches!(e, Effect::Nothing));
}

#[test]
fn other_commands_are_passed_on() {
    let mut s: State = running();
    assert!(matches!(
        s.handle_api_command(ApiCommand::Focus(5), &two(1)),
        Effect::Focus(x) if x == w(5)
    ));
    assert!(matches!(s.handle_api_command(ApiCommand::Focus(0), &two(1)), Effect::Nothing));
    assert!(matches!(
        s.handle_api_command(ApiCommand::WakeWindow { hwnd: 5 }, &two(1)),
        Effect::Repaint { dismiss: false, .. }
    ));
    assert!(matches!(
        s.handle_api_command(ApiCommand::Action(NamedAction::Exit), &two(1)),
        Effect::Dispatch(Action::Exit)
    ));
    assert!(matches!(
        s.handle_api_command(
            ApiCommand::MoveToMonitor { hwnd: 1, device_name: "TWO".to_string() },
            &two(1)
        ),
        Effect::Move { .. }
    ));
    assert!(matches!(
        s.handle_api_command(
            ApiCommand::MoveToMonitor { hwnd: 1, device_name: "NINE".to_string() },
            &two(1)
        ),
        Effect::Refresh
    ));
}

#[test]
fn actions_change_the_strip() {
    let mut s: State = running();
    let c: Config = Config::default();
    let act = |s: &mut State, a: TilerAction| -> Effect {
        s.handle_action(Action::Tiler(a), &two(1), &Config::default(), 300)
    };
    assert!(matches!(act(&mut s, TilerAction::MoveFocusNext), Effect::Focus(x) if x == w(2)));
    assert!(matches!(act(&mut s, TilerAction::MoveFocusPrevious), Effect::Nothing));
    assert!(matches!(act(&mut s, TilerAction::SwapWithNext), Effect::Refresh));
    assert_eq!(s.tiler.windows()[0].inner, w(2));
    let _ = act(&mut s, TilerAction::SwapWithPrevious);
    assert_eq!(s.tiler.windows()[0].inner, w(1));
    let _ = act(&mut s, TilerAction::ResizeToFullscreen);
    assert_eq!(s.tiler.windows()[0].requested_width, Some(1_899_000));
    let _ = act(&mut s, TilerAction::ResizeToHalfScreen);
    assert_eq!(s.tiler.windows()[0].requested_width, Some(940_000));
    let _ = act(&mut s, TilerAction::IncrementWidth);
    assert_eq!(s.tiler.windows()[0].requested_width, Some(480_000));
    let _ = act(&mut s, TilerAction::DecrementWidth);
    assert_eq!(s.tiler.windows()[0].requested_width, Some(440_000));
    assert!(matches!(act(&mut s, TilerAction::ForceRefresh), Effect::Reload));
    assert!(matches!(act(&mut s, TilerAction::CenterFocused), Effect::Layout(_)));
    assert!(matches!(act(&mut s, TilerAction::CloseCurrent), Effect::CloseWindow(x) if x == w(1)));
    assert!(matches!(act(&mut s, TilerAction::IgnoreFocusedWindow), Effect::Save(_)));
    assert!(matches!(act(&mut s, TilerAction::OpenOverview), Effect::OpenOverview(v) if v.len() == 2));
    assert!(matches!(
        s.handle_action(Action::OpenSettings, &two(1), &c, 300),
        Effect::OpenSettings(SettingsOpening::Suppressed)
    ));
}

#[test]
fn jumping_out_of_the_overview_closes_it() {
    let mut s: State = overviewing();
    let e: Effect = s.handle_action(
        Action::Overview(OverviewAction::JumpTo(w(2))),
        &two(1),
        &Config::default(),
        0,
    );
    assert!(matches!(e, Effect::CloseOverview { jump: Some(x), .. } if x == w(2)));
    assert!(s.is_tiling());
}

#[test]
fn leaving_ends_the_program() {
    let mut s: State = running();
    let o: Outcome = say(&mut s, Message::Action(Action::Exit));
    assert!(o.exit);
    assert!(o.unfocus_overlay);
    assert!(matches!(s.mode, Mode::Exit));
    let last: Outcome = say(&mut s, Message::CleanupAndExit);
    assert!(matches!(last.effect, Effect::Restore(moves) if moves.len() == 2));
}

#[test]
fn frames_do_not_touch_the_focus() {
    let mut s: State = running();
    let o: Outcome = say(&mut s, Message::AnimationTick);
    assert!(!o.unfocus_overlay);
    assert!(!o.exit);
    assert!(matches!(o.effect, Effect::Layout(p) if p.moves.is_empty()));
}

#[test]
fn a_closed_settings_window_is_forgotten() {
    let mut s: State = running();
    let _ = say(&mut s, Message::Action(Action::OpenSettings));
    assert_eq!(s.settings_window_id, Some(300));
    let _ = say(&mut s, Message::WindowClosed(299));
    assert_eq!(s.settings_window_id, Some(300));
    let _ = say(&mut s, Message::WindowClosed(300));
    assert_eq!(s.settings_window_id, None);
    let _ = say(&mut s, Message::Action(Action::OpenSettings));
    let o: Outcome = say(&mut s, Message::Settings(SettingsMessage::Close));
    assert!(matches!(o.effect, Effect::CloseSettings { window_id: Some(300) }));
}

#[test]
fn global_events_are_handled() {
    let mut s: State = running();
    assert!(matches!(
        s.handle_global_message(GlobalMessage::Window, &two(1)),
        Effect::Refresh
    ));
    assert!(matches!(
        s.handle_global_message(GlobalMessage::Key(Some(Action::Exit)), &two(1)),
        Effect::Dispatch(Action::Exit)
    ));
    assert!(matches!(
        s.handle_global_message(GlobalMessage::Key(None), &two(1)),
        Effect::Nothing
    ));
    let _ = s.handle_global_message(GlobalMessage::HorizontalScroll { delta: 100_000 }, &two(1));
    assert_eq!(s.tiler.scroll_offset(), 100_000);
}

#[test]
fn a_press_on_an_open_menu_only_closes_it() {
    let mut s: State = overviewing();
    let _ = say(&mut s, Message::WindowCursorMoved { window_id: 200, position: at(150_000, 150_000) });
    let _ = say(&mut s, Message::WindowMouseRightDown(200));
    assert!(s.overview_context_menu_open());
    let _ = say(&mut s, Message::WindowMouseDown(200));
    let o: Outcome = say(&mut s, Message::WindowMouseUp(200));
    assert!(is_overview(&s));
    assert!(matches!(o.effect, Effect::Nothing));
    assert!(!s.overview_context_menu_open());
}

#[test]
fn a_click_in_the_overview_jumps() {
    let mut s: State = overviewing();
    let _ = say(&mut s, Message::WindowCursorMoved { window_id: 200, position: at(450_000, 150_000) });
    let _ = say(&mut s, Message::WindowMouseDown(200));
    let o: Outcome = say(&mut s, Message::WindowMouseUp(200));
    assert!(matches!(
        o.effect,
        Effect::Dispatch(Action::Overview(OverviewAction::JumpTo(x))) if x == w(2)
    ) || matches!(o.effect, Effect::CloseOverview { jump: Some(x), .. } if x == w(2)));
}

#[test]
fn menu_choices_are_carried_out() {
    let mut s: State = overviewing();
    assert!(matches!(
        say(&mut s, Message::OverviewIgnoreApp("z.exe".to_string())).effect,
        Effect::Save(_)
    ));
    assert!(matches!(say(&mut s, Message::OverviewIgnoreWindow(1)).effect, Effect::Save(_)));
    assert!(matches!(say(&mut s, Message::OverviewIgnoreWindow(0)).effect, Effect::Refresh));
    assert!(matches!(
        say(
            &mut s,
            Message::OverviewMoveToMonitor { target: w(1), device_name: "TWO".to_string() }
        )
        .effect,
        Effect::Move { .. }
    ));
    assert!(matches!(
        say(&mut s, Message::OverviewForceRedraw(3)).effect,
        Effect::Repaint { dismiss: true, .. }
    ));
}

#[test]
fn shortcuts_follow_the_documented_table() {
    let win: Held = Held { win: true, control: false, shift: false, alt: false };
    let ctrl: Held = Held { control: true, ..win };
    let shift: Held = Held { shift: true, ..win };
    let table: Vec<(Held, Key, NamedAction)> = vec![
        (win, Key::Left, NamedAction::FocusPrev),
        (win, Key::Right, NamedAction::FocusNext),
        (ctrl, Key::Left, NamedAction::SwapPrev),
        (ctrl, Key::Right, NamedAction::SwapNext),
        (win, Key::F, NamedAction::ResizeFullscreen),
        (win, Key::C, NamedAction::ResizeHalfscreen),
        (shift, Key::Right, NamedAction::WidthIncrement),
        (shift, Key::Left, NamedAction::WidthDecrement),
        (win, Key::R, NamedAction::Refresh),
        (win, Key::H, NamedAction::CenterFocused),
        (win, Key::Up, NamedAction::OpenOverview),
        (win, Key::Down, NamedAction::CloseOverview),
        (win, Key::Comma, NamedAction::OpenSettings),
        (win, Key::Escape, NamedAction::Exit),
    ];
    for (held, key, named) in table {
        assert_eq!(resolve_action(held, key), Some(named_action_to_action(named)));
    }
    assert_eq!(
        resolve_action(win, Key::I),
        Some(Action::Tiler(TilerAction::IgnoreFocusedWindow))
    );
    assert_eq!(resolve_action(Held { win: false, ..win }, Key::F), None);
    assert_eq!(resolve_action(Held { alt: true, ..win }, Key::F), None);
    assert_eq!(resolve_action(ctrl, Key::F), None);
    assert_eq!(resolve_action(shift, Key::F), None);
    assert_eq!(resolve_action(Held { shift: true, ..ctrl }, Key::Left), None);
}

#[test]
fn a_scroll_command_without_duration_snaps_under_smoothing() {
    let mut s: State = running();
    s.tiler.set_smoothing(true, 250);
    let _ = s.tiler.scroll_by(500_000, &two(1).desk);
    assert!(s.tiler.scroll_target.is_some());
    let e: Effect = s.handle_api_command(
        ApiCommand::SetScrollOffset { offset: 120_000, animate_ms: 0 },
        &two(1),
    );
    assert!(matches!(e, Effect::Layout(_)));
    assert_eq!(s.tiler.scroll_offset(), 120_000);
    assert_eq!(s.tiler.scroll_target, None);
    assert!(!s.tiler.is_animating());
    let _ = s.handle_api_command(ApiCommand::ScrollBy { delta: 30_000, animate_ms: 0 }, &two(1));
    assert_eq!(s.tiler.scroll_offset(), 150_000);
    assert!(!s.tiler.is_animating());
}
