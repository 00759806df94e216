use winri::api::capture::{
    capture_window_png, client_area, prepare_capture, CaptureError, PictureSize,
};
use winri::api::events::{drop_unreachable, publish, subscribe, subscriber_count, Registry};
use winri::api::server::{
    capture_failed, dispatch_command, error_reply, handle_action, handle_focus,
    handle_move_to_monitor, handle_resize, handle_scroll, handle_thumbnail, handle_wake,
    named_action, not_found, parse_width_param, route, Dispatched, Method, Reply,
    Route,
};
use winri::api::types::{
    ApiCommand, MoveToMonitorRequest, NamedAction, ResizeRequest, ScrollRequest, StateResponse,
    WireNumber,
};
use winri::api::{
    build_state_response, monitor_descriptors, window_descriptors, ApiState, MonitorSnapshot,
    WindowSnapshot,
};
use winri::geometry::Rect;

fn error_of(r: Reply) -> (u16, String) {
    match r {
        Reply::Error { status, body } => (status, body.error),
        _ => panic!("not an error"),
    }
}

fn command_of(r: Reply) -> ApiCommand {
    match r {
        Reply::Command(c) => c,
        _ => panic!("not a command"),
    }
}

#[test]
fn reading_endpoints_are_found() {
    assert!(matches!(route(Method::Get, "/"), Route::Root));
    assert!(matches!(route(Method::Get, ""), Route::Root));
    assert!(matches!(route(Method::Get, "/state"), Route::State));
    assert!(matches!(route(Method::Get, "/state/?x=1"), Route::State));
    assert!(matches!(route(Method::Get, "/windows"), Route::Windows));
    assert!(matches!(route(Method::Get, "/monitors"), Route::Monitors));
}

#[test]
fn the_thumbnail_endpoint_takes_a_width() {
    match route(Method::Get, "/windows/7405134/thumbnail?w=256") {
        Route::Thumbnail { id, max_width } => {
            assert_eq!(id, "7405134");
            assert_eq!(max_width, Some(256));
        }
        _ => panic!("no thumbnail"),
    }
    assert!(matches!(
        route(Method::Get, "/windows/1/thumbnail"),
        Route::Thumbnail { max_width: None, .. }
    ));
}

#[test]
fn changing_endpoints_are_found() {
    assert!(matches!(
        route(Method::Post, "/windows/5/move-to-monitor"),
        Route::MoveToMonitor { id } if id == "5"
    ));
    assert!(matches!(
        route(Method::Post, "/windows/5/resize"),
        Route::Resize { id } if id == "5"
    ));
    assert!(matches!(route(Method::Post, "/windows/5/wake"), Route::Wake { id } if id == "5"));
    assert!(matches!(route(Method::Post, "/windows//wake"), Route::Wake { id } if id.is_empty()));
    assert!(matches!(route(Method::Post, "/windows/wake"), Route::NotFound));
    assert!(matches!(route(Method::Post, "/focus/5"), Route::Focus { id } if id == "5"));
    assert!(matches!(route(Method::Post, "/scroll"), Route::Scroll));
    assert!(matches!(
        route(Method::Post, "/action/focus-next"),
        Route::Action { name } if name == "focus-next"
    ));
}

#[test]
fn anything_else_leads_nowhere() {
    assert!(matches!(route(Method::Get, "/scroll"), Route::NotFound));
    assert!(matches!(route(Method::Post, "/state"), Route::NotFound));
    assert!(matches!(route(Method::Other, "/state"), Route::NotFound));
    assert!(matches!(route(Method::Get, "/events"), Route::NotFound));
    assert_eq!(error_of(not_found()), (404, "no such endpoint".to_string()));
    assert_eq!(error_of(error_reply(418, "x")), (418, "x".to_string()));
}

#[test]
fn a_path_without_an_id_leads_nowhere() {
    assert!(matches!(route(Method::Post, "/windows/resize"), Route::NotFound));
    assert!(matches!(route(Method::Post, "/windows/move-to-monitor/"), Route::NotFound));
    assert!(matches!(route(Method::Get, "/windows/thumbnail?w=2"), Route::NotFound));
    assert!(matches!(
        route(Method::Post, "/windows//resize"),
        Route::Resize { id } if id.is_empty()
    ));
    assert!(matches!(route(Method::Get, "/windows/resize"), Route::NotFound));
}

#[test]
fn the_first_sensible_width_is_taken() {
    assert_eq!(parse_width_param("w=256"), Some(256));
    assert_eq!(parse_width_param("width=64"), Some(64));
    assert_eq!(parse_width_param("a=1&w=0&width=5&w=6"), Some(5));
    assert_eq!(parse_width_param("w=abc"), None);
    assert_eq!(parse_width_param("w"), None);
    assert_eq!(parse_width_param(""), None);
}

#[test]
fn window_ids_must_be_numbers() {
    let bad: (u16, String) = (400, "invalid window id".to_string());
    assert_eq!(error_of(handle_focus("x")), bad);
    assert_eq!(error_of(handle_wake("")), bad);
    assert_eq!(error_of(handle_thumbnail("-1", None)), bad);
    assert_eq!(
        error_of(handle_move_to_monitor(
            "x",
            Ok(MoveToMonitorRequest { device_name: "A".to_string() })
        )),
        bad
    );
    assert_eq!(error_of(handle_resize("x", Err("e".to_string()))), bad);
    assert!(matches!(command_of(handle_focus("7")), ApiCommand::Focus(7)));
    assert!(matches!(command_of(handle_wake("7")), ApiCommand::WakeWindow { hwnd: 7 }));
    assert!(matches!(
        handle_thumbnail("7", Some(3)),
        Reply::Capture { hwnd: 7, max_width: Some(3) }
    ));
}

#[test]
fn windows_are_moved_to_monitors_by_name() {
    match command_of(handle_move_to_monitor(
        "9",
        Ok(MoveToMonitorRequest { device_name: "D".to_string() }),
    )) {
        ApiCommand::MoveToMonitor { hwnd, device_name } => {
            assert_eq!(hwnd, 9);
            assert_eq!(device_name, "D");
        }
        _ => panic!("no move"),
    }
    assert_eq!(
        error_of(handle_move_to_monitor("9", Err("eof".to_string()))),
        (400, "invalid JSON: eof".to_string())
    );
}

fn resize(finite: bool, positive: bool) -> Result<ResizeRequest, String> {
    Ok(ResizeRequest {
        width: WireNumber { finite, positive, units: 800_000 },
        animate_ms: 250,
        center: true,
    })
}

#[test]
fn a_resize_needs_a_positive_finite_width() {
    let bad: (u16, String) = (400, "`width` must be a positive finite number".to_string());
    assert_eq!(error_of(handle_resize("5", resize(false, true))), bad);
    assert_eq!(error_of(handle_resize("5", resize(true, false))), bad);
    assert_eq!(
        error_of(handle_resize("5", Err("eof".to_string()))),
        (400, "invalid JSON: eof".to_string())
    );
    assert!(matches!(
        command_of(handle_resize("5", resize(true, true))),
        ApiCommand::ResizeWindow { hwnd: 5, target_width: 800_000, animate_ms: 250, center: true }
    ));
}

#[test]
fn an_offset_wins_over_a_delta() {
    let both: ScrollRequest = ScrollRequest { offset: Some(1), delta: Some(2), animate_ms: 3 };
    assert!(matches!(
        command_of(handle_scroll(Ok(both))),
        ApiCommand::SetScrollOffset { offset: 1, animate_ms: 3 }
    ));
    let delta: ScrollRequest = ScrollRequest { offset: None, delta: Some(-2), animate_ms: 0 };
    assert!(matches!(
        command_of(handle_scroll(Ok(delta))),
        ApiCommand::ScrollBy { delta: -2, animate_ms: 0 }
    ));
    let neither: ScrollRequest = ScrollRequest { offset: None, delta: None, animate_ms: 0 };
    assert_eq!(
        error_of(handle_scroll(Ok(neither))),
        (400, "must provide `offset` or `delta`".to_string())
    );
    assert_eq!(
        error_of(handle_scroll(Err("eof".to_string()))),
        (400, "invalid JSON: eof".to_string())
    );
}

#[test]
fn every_documented_action_has_its_name() {
    let table: Vec<(&str, NamedAction)> = vec![
        ("focus-prev", NamedAction::FocusPrev),
        ("focus-next", NamedAction::FocusNext),
        ("swap-prev", NamedAction::SwapPrev),
        ("swap-next", NamedAction::SwapNext),
        ("resize-fullscreen", NamedAction::ResizeFullscreen),
        ("resize-halfscreen", NamedAction::ResizeHalfscreen),
        ("width-increment", NamedAction::WidthIncrement),
        ("width-decrement", NamedAction::WidthDecrement),
        ("refresh", NamedAction::Refresh),
        ("center-focused", NamedAction::CenterFocused),
        ("open-overview", NamedAction::OpenOverview),
        ("close-overview", NamedAction::CloseOverview),
        ("open-settings", NamedAction::OpenSettings),
        ("exit", NamedAction::Exit),
    ];
    for (name, action) in table {
        assert_eq!(named_action(name), Some(action));
        assert!(matches!(command_of(handle_action(name)), ApiCommand::Action(a) if a == action));
    }
    assert_eq!(named_action("Exit"), None);
    assert_eq!(error_of(handle_action("fly")), (400, "unknown action `fly`".to_string()));
}

#[test]
fn commands_are_accepted_or_refused() {
    assert!(matches!(dispatch_command(Ok(())), Dispatched::Accepted { status: 202 }));
    match dispatch_command(Err("closed".to_string())) {
        Dispatched::Refused { status, body } => {
            assert_eq!(status, 503);
            assert_eq!(body.error, "closed");
        }
        _ => panic!("accepted"),
    }
    assert_eq!(error_of(capture_failed("no")), (500, "capture failed: no".to_string()));
}

fn snapshot() -> ApiState {
    ApiState {
        mode: "tiler".to_string(),
        windows: vec![
            WindowSnapshot {
                id: 7,
                title: "a".to_string(),
                process: "b".to_string(),
                class: "c".to_string(),
                width: 1_280_000,
                x: 10_000,
                monitor: "M".to_string(),
                tiled: true,
                minimized: false,
                desktop_id: Some(2),
            },
            WindowSnapshot {
                id: 8,
                title: "d".to_string(),
                process: "e".to_string(),
                class: "f".to_string(),
                width: 1_000,
                x: 1_310_000,
                monitor: "N".to_string(),
                tiled: true,
                minimized: true,
                desktop_id: None,
            },
        ],
        focused_window_id: Some(7),
        scroll_offset: 5_000,
        total_width: 9_000,
        screen_width: 5_120_000,
        screen_height: 1_392_000,
        tiling_monitor_device_name: "M".to_string(),
        monitors: vec![MonitorSnapshot {
            index: 0,
            device_name: "M".to_string(),
            is_primary: true,
            is_tiling: true,
            work_area_x: 1,
            work_area_y: 2,
            work_area_width: 3,
            work_area_height: 4,
        }],
    }
}

#[test]
fn the_state_is_described_in_full() {
    let r: StateResponse = build_state_response(&snapshot());
    assert_eq!(r.mode, "tiler");
    assert!(!r.overview_active);
    assert_eq!(r.focused_id, Some(7));
    assert_eq!(r.windows.len(), 2);
    assert!(r.windows[0].focused);
    assert!(!r.windows[1].focused);
    assert_eq!(r.windows[1].x, 1_310_000);
    assert_eq!(r.scroll_offset, 5_000);
    assert_eq!(r.total_width, 9_000);
    assert_eq!(r.screen_width, 5_120_000);
    assert_eq!(r.screen_height, 1_392_000);
    assert_eq!(r.tiling_monitor, "M");
    assert_eq!(r.monitors[0].work_area.height, 4);
    let mut over: ApiState = snapshot();
    over.mode = "overview".to_string();
    assert!(build_state_response(&over).overview_active);
}

#[test]
fn windows_and_monitors_are_described_alone_too() {
    let w = window_descriptors(&snapshot());
    assert_eq!(w.len(), 2);
    assert_eq!(w[0].title, "a");
    assert_eq!(w[0].process, "b");
    assert_eq!(w[0].class, "c");
    assert_eq!(w[0].monitor, "M");
    assert_eq!(w[0].desktop_id, Some(2));
    assert!(w[1].minimized && w[1].tiled);
    let m = monitor_descriptors(&snapshot());
    assert_eq!(m.len(), 1);
    assert_eq!(m[0].device_name, "M");
    assert!(m[0].is_primary && m[0].is_tiling);
    assert_eq!(m[0].work_area.x, 1);
}

#[test]
fn the_same_payload_is_not_sent_twice() {
    let mut r: Registry = Registry::new();
    let a: u64 = subscribe(&mut r);
    let b: u64 = subscribe(&mut r);
    assert_ne!(a, b);
    assert_eq!(subscriber_count(&r), 2);
    assert_eq!(publish(&mut r, "x".to_string()), Some(vec![a, b]));
    assert_eq!(publish(&mut r, "x".to_string()), None);
    assert_eq!(publish(&mut r, "y".to_string()), Some(vec![a, b]));
}

#[test]
fn unreachable_subscribers_leave() {
    let mut r: Registry = Registry::new();
    let a: u64 = subscribe(&mut r);
    let b: u64 = subscribe(&mut r);
    drop_unreachable(&mut r, &vec![a, 99]);
    assert_eq!(subscriber_count(&r), 1);
    assert_eq!(publish(&mut r, "x".to_string()), Some(vec![b]));
}

fn decode_picture(bytes: &[u8]) -> (u32, u32, Vec<u8>) {
    let decoder = png::Decoder::new(std::io::Cursor::new(bytes));
    let mut reader = decoder.read_info().unwrap();
    let mut buf: Vec<u8> = vec![0; reader.output_buffer_size()];
    let info = reader.next_frame(&mut buf).unwrap();
    assert_eq!(info.color_type, png::ColorType::Rgba);
    assert_eq!(info.bit_depth, png::BitDepth::Eight);
    (info.width, info.height, buf)
}

#[test]
fn a_capture_is_a_picture_of_the_client_area() {
    let client: Rect = Rect { left: 0, top: 0, right: 2, bottom: 1 };
    let bytes: Vec<u8> =
        capture_window_png(client, vec![1, 2, 3, 0, 4, 5, 6, 9], None).unwrap();
    assert_eq!(&bytes[0..8], &[137, 80, 78, 71, 13, 10, 26, 10]);
    let (w, h, rgba): (u32, u32, Vec<u8>) = decode_picture(&bytes);
    assert_eq!((w, h), (2, 1));
    assert_eq!(rgba, vec![3, 2, 1, 255, 6, 5, 4, 255]);
}

#[test]
fn a_capture_can_be_made_smaller() {
    let client: Rect = Rect { left: 0, top: 0, right: 4, bottom: 2 };
    let mut bgra: Vec<u8> = vec![];
    for p in 0..8u8 {
        bgra.extend_from_slice(&[p, 10 + p, 20 + p, 0]);
    }
    let bytes: Vec<u8> = capture_window_png(client, bgra.clone(), Some(2)).unwrap();
    let (w, h, rgba): (u32, u32, Vec<u8>) = decode_picture(&bytes);
    assert_eq!((w, h), (2, 1));
    assert_eq!(rgba, vec![20, 10, 0, 255, 22, 12, 2, 255]);
    let wide: Vec<u8> = capture_window_png(client, bgra, Some(400)).unwrap();
    assert_eq!(decode_picture(&wide).0, 4);
}

#[test]
fn an_empty_client_area_cannot_be_captured() {
    let client: Rect = Rect { left: 0, top: 0, right: 0, bottom: 5 };
    assert_eq!(
        capture_window_png(client, vec![], None),
        Err(CaptureError::EmptyClientArea { width: 0, height: 5 })
    );
    assert_eq!(
        client_area(Rect { left: 0, top: 0, right: 3, bottom: 2 }),
        Ok(PictureSize { width: 3, height: 2 })
    );
    let p = prepare_capture(PictureSize { width: 1, height: 1 }, vec![9, 8, 7, 6], Some(0));
    assert_eq!(p.rgba, vec![7, 8, 9, 255]);
}

#[test]
fn subscribing_works_when_the_numbers_are_used_up() {
    let mut r: Registry =
        Registry { subscribers: vec![0, 1, 7], next: u64::MAX, last_payload: None };
    assert_eq!(subscribe(&mut r), 2);
    assert_eq!(subscribe(&mut r), 3);
    assert_eq!(subscriber_count(&r), 5);
    let mut last: Registry =
        Registry { subscribers: vec![], next: u64::MAX - 1, last_payload: None };
    assert_eq!(subscribe(&mut last), u64::MAX - 1);
    assert_eq!(subscribe(&mut last), 0);
    assert_eq!(publish(&mut last, "x".to_string()), Some(vec![u64::MAX - 1, 0]));
}
