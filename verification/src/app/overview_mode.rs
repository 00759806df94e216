//! Overview mode: opening and closing it, and what its menu does.
use vstd::prelude::*;

use crate::app::overview;
use crate::app::overview::grid::{compute_grid_layout, grid_layouts};
use crate::app::overview::thumbnail::{
    compute_thumbnail_layouts, data_ok, thumbnail_layouts, ThumbnailLayout, WindowData,
};
use crate::app::overview::{
    hmonitor_mask, process_or_empty, rect_moves, replaced_rects, without_menus, MonitorOverview,
    ReleaseOutcome, Thumbnail, ThumbnailMove,
};
use crate::app::tiling::{hmonitor_of, snapshot_windows};
use crate::app::{
    class_text, process_text, rule_added, title_or_empty, title_text, Mode, State,
    Surroundings,
};
use crate::config::{find_override, grown, listed, AppOverride, Config};
use crate::geometry::{whole_pixels, width_ok, Position, Size, PX};
use crate::monitor::{
    find_by_device_name, find_by_handle, handle_mask, name_mask, pick, resolve_tiling_monitor,
    Monitor, MonitorError,
};
use crate::scroll_tiler::commands::{reordered, without_layouts};
use crate::scroll_tiler::{find_tile, ScrollTiler};
use crate::scroll_tiler::item::WindowItem;
use crate::scroll_tiler::strip::{is_tiled, tile_mask, Strip, MAX_WINDOWS};
use crate::search::first_true;
use crate::text::{capitalized, display_name_from_process, exe_stem};
use crate::window::filter::opened_windows;
use crate::window::{
    centered_extent, centered_start, padded_on, Desktop, InvalidHandle, PixelRect, Window,
};

verus! {

/// Gap between thumbnails.
pub const OVERVIEW_PADDING: i64 = 10_000;

/// Gap between the thumbnails of a grid.
pub const GRID_PADDING: i64 = 16_000;

/// A window to open for the overview, in whole pixels.
#[derive(Debug, Clone, Copy, PartialEq, Eq, Structural)]
pub struct OverviewWindow {
    pub hmonitor: i64,
    pub x: i32,
    pub y: i32,
    pub width: i32,
    pub height: i32,
}

/// A window to take off the screen.
#[derive(Debug, Clone, Copy, PartialEq, Eq, Structural)]
pub struct OffscreenMove {
    pub window: Window,
    pub x: i32,
}

/// Why the overview could not be opened on a monitor.
#[derive(Debug, Clone, Copy, PartialEq, Eq, Structural)]
pub enum OverviewError {
    /// The monitor is gone.
    MonitorGone,
    /// The window of the overview has no handle.
    InvalidHandle,
}

/// The thumbnails to show on one monitor.
#[derive(Debug)]
pub struct Binding {
    /// The window they are shown in.
    pub dest: Window,
    pub windows: Vec<WindowData>,
    /// Where they go: in a row on the tiling monitor, in a grid on another one.
    pub layouts: Vec<ThumbnailLayout>,
}

/// What opening the overview on one monitor comes to.
#[derive(Debug)]
pub struct OverviewOpening {
    /// Windows to take off the screen first.
    pub offscreen: Vec<OffscreenMove>,
    /// On an error the overview's window is to be closed.
    pub binding: Result<Binding, OverviewError>,
}

/// What closing the overview takes.
#[derive(Debug)]
pub struct OverviewClosing {
    /// Thumbnails to let go of.
    pub thumbnails: Vec<i64>,
    /// Windows to close.
    pub windows: Vec<u64>,
}

/// What a thumbnail is labelled with.
#[derive(Debug)]
pub struct ThumbnailLabel {
    pub app_name: String,
    pub title: String,
    /// A picture file that stands in for the icon of the window.
    pub icon_path: Option<String>,
}

pub open spec fn overview_window(m: Monitor) -> OverviewWindow {
    OverviewWindow {
        hmonitor: m.hmonitor,
        x: m.work_area.left,
        y: m.work_area.top,
        width: (m.work_area.right - m.work_area.left) as i32,
        height: (m.work_area.bottom - m.work_area.top) as i32,
    }
}

pub open spec fn overview_windows(monitors: Seq<Monitor>) -> Seq<OverviewWindow> {
    Seq::new(monitors.len(), |i: int| overview_window(monitors[i]))
}

/// The moves that take the first `upto` tiles off the screen.
pub open spec fn offscreen_moves(windows: Seq<WindowItem>, desk: Desktop, upto: int) -> Seq<
    OffscreenMove,
>
    decreases upto,
{
    if upto <= 0 {
        seq![]
    } else {
        let before = offscreen_moves(windows, desk, upto - 1);
        let w = windows[upto - 1].inner;
        match desk.frame_of(w) {
            Some(f) => before.push(
                OffscreenMove {
                    window: w,
                    x: whole_pixels(-((f.right - f.left) * PX + 100 * PX)) as i32,
                },
            ),
            None => before,
        }
    }
}

/// The visible windows among the first `upto` tiles.
pub open spec fn visible_tiles(windows: Seq<WindowItem>, desk: Desktop, upto: int) -> Seq<Window>
    decreases upto,
{
    if upto <= 0 {
        seq![]
    } else {
        let before = visible_tiles(windows, desk, upto - 1);
        let w = windows[upto - 1].inner;
        if desk.hidden(w) {
            before
        } else {
            before.push(w)
        }
    }
}

/// The visible windows on a monitor among the first `upto` of `all` that have
/// no tile.
pub open spec fn floating_windows(
    all: Seq<Window>,
    tiles: Seq<WindowItem>,
    desk: Desktop,
    hmonitor: i64,
    upto: int,
) -> Seq<Window>
    decreases upto,
{
    if upto <= 0 {
        seq![]
    } else {
        let before = floating_windows(all, tiles, desk, hmonitor, upto - 1);
        let w = all[upto - 1];
        if is_tiled(tiles, w) || desk.monitor_of(w) != hmonitor || desk.hidden(w) {
            before
        } else {
            before.push(w)
        }
    }
}

/// The windows shown on a monitor. Tiles belong to the tiling monitor, wherever
/// the strip has pushed them; other windows to the monitor they are on.
pub open spec fn windows_shown(
    s: Strip,
    env: Surroundings,
    cfg: Config,
    hmonitor: i64,
) -> Seq<Window> {
    let tiled = if hmonitor_of(env, cfg) == Ok::<i64, MonitorError>(hmonitor) {
        visible_tiles(s.windows, env.desk, s.windows.len() as int)
    } else {
        seq![]
    };
    let all = snapshot_windows(env, cfg);
    if env.enumerated {
        tiled + floating_windows(all, s.windows, env.desk, hmonitor, all.len() as int)
    } else {
        tiled
    }
}

/// The size a thumbnail is scaled from: that of the tile, or else of the
/// window.
pub open spec fn data_of(s: Strip, desk: Desktop, w: Window) -> WindowData {
    match first_true(tile_mask(s.windows, w)) {
        Some(i) => WindowData {
            inner: w,
            width: s.windows[i].width,
            height: (s.screen_size.height - 20 * PX) as i64,
        },
        None => match desk.frame_of(w) {
            Some(f) => WindowData {
                inner: w,
                width: ((f.right - f.left) * PX) as i64,
                height: ((f.bottom - f.top) * PX) as i64,
            },
            None => WindowData { inner: w, width: 800_000, height: 600_000 },
        },
    }
}

pub open spec fn data_for(s: Strip, desk: Desktop, windows: Seq<Window>) -> Seq<WindowData> {
    Seq::new(windows.len(), |i: int| data_of(s, desk, windows[i]))
}

pub open spec fn monitor_size(m: Monitor) -> Size {
    Size {
        width: ((m.work_area.right - m.work_area.left) * PX) as i64,
        height: ((m.work_area.bottom - m.work_area.top) * PX) as i64,
    }
}

/// The override that applies to an executable.
pub open spec fn override_mask(overrides: Seq<AppOverride>, path: Seq<char>) -> Seq<bool> {
    Seq::new(overrides.len(), |i: int| overrides[i].applies_to(path))
}

pub open spec fn override_of(cfg: Config, desk: Desktop, w: Window) -> Option<AppOverride> {
    match desk.path_of(w) {
        None => None,
        Some(p) => match first_true(override_mask(cfg.app_overrides@, p)) {
            Some(i) => Some(cfg.app_overrides@[i]),
            None => None,
        },
    }
}

/// `label` is what the thumbnail of a window is labelled with: the name and
/// icon of an override, or else the name of the executable.
pub open spec fn labels(label: ThumbnailLabel, cfg: Config, desk: Desktop, w: Window) -> bool {
    &&& label.title@ == title_text(desk, w)
    &&& match override_of(cfg, desk, w) {
        Some(o) => label.app_name@ == o.display_name@ && label.icon_path == o.icon_path,
        None => label.icon_path is None && label.app_name@ == (match desk.process_of(w) {
            Some(p) => capitalized(exe_stem(p)),
            None => seq![],
        }),
    }
}

pub fn thumbnail_label(w: Window, desk: &Desktop, cfg: &Config) -> (r: ThumbnailLabel)
    ensures
        labels(r, *cfg, *desk, w),
{
    let title: String = title_or_empty(w, desk);
    match w.exe_path(desk) {
        Some(path) => match find_override(&cfg.app_overrides, path.as_str()) {
            Some(i) => {
                proof {
                    crate::search::lemma_first_hit(
                        override_mask(cfg.app_overrides@, path@),
                        i as int,
                    );
                }
                let found: AppOverride = cfg.app_overrides[i].clone();
                return ThumbnailLabel {
                    app_name: found.display_name,
                    title,
                    icon_path: found.icon_path,
                };
            },
            None => {
                proof {
                    crate::search::lemma_first_miss(override_mask(cfg.app_overrides@, path@));
                }
            },
        },
        None => {},
    }
    match w.process_name(desk) {
        Some(p) => {
            return ThumbnailLabel {
                app_name: display_name_from_process(p.as_str()),
                title,
                icon_path: None,
            };
        },
        None => {},
    }
    let app_name: String = String::new();
    assert(app_name@ =~= seq![]);
    ThumbnailLabel { app_name, title, icon_path: None }
}

proof fn lemma_shown_len(s: Strip, env: Surroundings, cfg: Config, hmonitor: i64)
    ensures
        windows_shown(s, env, cfg, hmonitor).len() <= s.windows.len() + snapshot_windows(
            env,
            cfg,
        ).len(),
{
    lemma_tiles_len(s.windows, env.desk, s.windows.len() as int);
    lemma_floating_len(
        snapshot_windows(env, cfg),
        s.windows,
        env.desk,
        hmonitor,
        snapshot_windows(env, cfg).len() as int,
    );
}

proof fn lemma_tiles_len(windows: Seq<WindowItem>, desk: Desktop, upto: int)
    requires
        0 <= upto,
    ensures
        visible_tiles(windows, desk, upto).len() <= upto,
    decreases upto,
{
    if upto > 0 {
        lemma_tiles_len(windows, desk, upto - 1);
    }
}

proof fn lemma_floating_len(
    all: Seq<Window>,
    tiles: Seq<WindowItem>,
    desk: Desktop,
    hmonitor: i64,
    upto: int,
)
    requires
        0 <= upto,
    ensures
        floating_windows(all, tiles, desk, hmonitor, upto).len() <= upto,
    decreases upto,
{
    if upto > 0 {
        lemma_floating_len(all, tiles, desk, hmonitor, upto - 1);
    }
}

impl State {
    /// The overview may be opened now.
    pub open spec fn may_open_overview(self, env: Surroundings) -> bool {
        !self.in_overview() && self.settings_window_id is None && env.monitors@.len() > 0
    }

    /// The windows to open for the overview, one per monitor. None are opened
    /// while the overview or the settings are open.
    pub fn prepare_open_overview(&mut self, env: &Surroundings) -> (r: Vec<OverviewWindow>)
        requires
            old(self).wf(),
            env.ok(),
        ensures
            final(self).wf(),
            *final(self) == (State {
                overview_opening: old(self).overview_opening || old(self).may_open_overview(*env),
                ..*old(self)
            }),
            r@ == (if old(self).may_open_overview(*env) {
                overview_windows(env.monitors@)
            } else {
                seq![]
            }),
    {
        let mut out: Vec<OverviewWindow> = Vec::new();
        let overview: bool = match &self.mode {
            Mode::Overview(_) => true,
            _ => false,
        };
        if overview || self.settings_window_id.is_some() || env.monitors.len() == 0 {
            assert(out@ =~= seq![]);
            return out;
        }
        self.overview_opening = true;
        let mut i: usize = 0;
        while i < env.monitors.len()
            invariant
                i <= env.monitors@.len(),
                env.ok(),
                out@.len() == i,
                forall|j: int|
                    0 <= j < i ==> #[trigger] out@[j] == overview_window(env.monitors@[j]),
            decreases env.monitors@.len() - i,
        {
            let m: &Monitor = &env.monitors[i];
            assert(env.monitors@[i as int].ok());
            out.push(
                OverviewWindow {
                    hmonitor: m.hmonitor,
                    x: m.work_area.left,
                    y: m.work_area.top,
                    width: m.work_area_width(),
                    height: m.work_area_height(),
                },
            );
            i = i + 1;
        }
        assert(out@ =~= overview_windows(env.monitors@));
        out
    }

    /// The program in overview mode.
    pub open spec fn entered(self, after: State) -> bool {
        if self.in_overview() {
            after == self
        } else {
            &&& after == (State {
                tiler: after.tiler,
                mode: after.mode,
                overview_opening: false,
                ..self
            })
            &&& after.tiler@ == self.tiler@.with_windows(without_layouts(self.tiler@.windows))
            &&& after.mode matches Mode::Overview(o) && o.monitors@.len() == 0
        }
    }

    /// Goes into overview mode: the tiles leave the screen, and where they
    /// were is forgotten so that they are put back later.
    fn enter_overview(&mut self, desk: &Desktop) -> (r: Vec<OffscreenMove>)
        requires
            old(self).wf(),
        ensures
            final(self).wf(),
            final(self).in_overview(),
            old(self).entered(*final(self)),
            r@ == (if old(self).in_overview() {
                seq![]
            } else {
                offscreen_moves(
                    old(self).tiler@.windows,
                    *desk,
                    old(self).tiler@.windows.len() as int,
                )
            }),
    {
        let mut out: Vec<OffscreenMove> = Vec::new();
        let overview: bool = match &self.mode {
            Mode::Overview(_) => true,
            _ => false,
        };
        if overview {
            assert(out@ =~= seq![]);
            return out;
        }
        let mut i: usize = 0;
        while i < self.tiler.windows.len()
            invariant
                i <= self.tiler@.windows.len(),
                *self == *old(self),
                out@ == offscreen_moves(self.tiler@.windows, *desk, i as int),
            decreases self.tiler@.windows.len() - i,
        {
            let w: Window = self.tiler.windows[i].inner;
            match w.move_offscreen(desk) {
                Some(x) => {
                    out.push(OffscreenMove { window: w, x });
                },
                None => {},
            }
            i = i + 1;
        }
        self.tiler.invalidate_last_layouts();
        self.mode = Mode::Overview(overview::State { monitors: Vec::new() });
        self.overview_opening = false;
        out
    }

    fn shown_windows(
        &self,
        env: &Surroundings,
        cfg: &Config,
        hmonitor: i64,
        is_tiling: bool,
    ) -> (r: Vec<Window>)
        requires
            is_tiling == (hmonitor_of(*env, *cfg) == Ok::<i64, MonitorError>(hmonitor)),
        ensures
            r@ == windows_shown(self.tiler@, *env, *cfg, hmonitor),
    {
        let mut out: Vec<Window> = Vec::new();
        if is_tiling {
            let mut i: usize = 0;
            while i < self.tiler.windows.len()
                invariant
                    i <= self.tiler@.windows.len(),
                    out@ == visible_tiles(self.tiler@.windows, env.desk, i as int),
                decreases self.tiler@.windows.len() - i,
            {
                let w: Window = self.tiler.windows[i].inner;
                if !w.is_hidden(&env.desk) {
                    out.push(w);
                }
                i = i + 1;
            }
        }
        let ghost tiled = out@;
        assert(is_tiling || tiled =~= seq![]);
        if env.enumerated {
            let all: Vec<Window> = opened_windows(&env.desk, cfg);
            let mut i: usize = 0;
            assert(tiled + seq![] =~= tiled);
            while i < all.len()
                invariant
                    i <= all@.len(),
                    out@ == tiled + floating_windows(
                        all@,
                        self.tiler@.windows,
                        env.desk,
                        hmonitor,
                        i as int,
                    ),
                decreases all@.len() - i,
            {
                let w: Window = all[i];
                let tiled_already: bool = match find_tile(&self.tiler.windows, w) {
                    Some(k) => {
                        assert(self.tiler@.windows[k as int].inner == w);
                        true
                    },
                    None => false,
                };
                if !tiled_already && w.monitor(&env.desk) == hmonitor && !w.is_hidden(&env.desk) {
                    let ghost before = out@;
                    out.push(w);
                    assert(out@ =~= tiled + floating_windows(
                        all@,
                        self.tiler@.windows,
                        env.desk,
                        hmonitor,
                        i + 1,
                    ));
                }
                i = i + 1;
            }
        }
        out
    }

    fn window_data(&self, w: Window, desk: &Desktop) -> (r: WindowData)
        requires
            self.tiler.wf(),
        ensures
            r == data_of(self.tiler@, *desk, w),
            width_ok(r.width),
    {
        match find_tile(&self.tiler.windows, w) {
            Some(i) => {
                assert(self.tiler@.windows[i as int].ok());
                WindowData {
                    inner: w,
                    width: self.tiler.windows[i].width,
                    height: self.tiler.screen_size.height - 20 * PX,
                }
            },
            None => match w.desktop_manager_bounds(desk) {
                Some(b) => {
                    let size: Size = b.size();
                    WindowData { inner: w, width: size.width, height: size.height }
                },
                None => WindowData { inner: w, width: 800_000, height: 600_000 },
            },
        }
    }

    fn data_for_windows(&self, windows: &Vec<Window>, desk: &Desktop) -> (r: Vec<WindowData>)
        requires
            self.tiler.wf(),
            windows@.len() <= MAX_WINDOWS,
        ensures
            r@ == data_for(self.tiler@, *desk, windows@),
            data_ok(r@),
    {
        let mut out: Vec<WindowData> = Vec::new();
        let mut i: usize = 0;
        while i < windows.len()
            invariant
                i <= windows@.len(),
                self.tiler.wf(),
                out@.len() == i,
                forall|j: int|
                    0 <= j < i ==> #[trigger] out@[j] == data_of(self.tiler@, *desk, windows@[j]),
                forall|j: int| 0 <= j < i ==> width_ok((#[trigger] out@[j]).width),
            decreases windows@.len() - i,
        {
            out.push(self.window_data(windows[i], desk));
            i = i + 1;
        }
        assert(out@ =~= data_for(self.tiler@, *desk, windows@));
        out
    }

    /// `b` is what is shown on the monitor `m`.
    pub open spec fn binds(
        self,
        env: Surroundings,
        cfg: Config,
        raw_handle: u64,
        m: Monitor,
        b: Binding,
    ) -> bool {
        let windows = windows_shown(self.tiler@, env, cfg, m.hmonitor);
        &&& b.dest.hwnd == raw_handle
        &&& b.windows@ == data_for(self.tiler@, env.desk, windows)
        &&& b.layouts@ == (if hmonitor_of(env, cfg) == Ok::<i64, MonitorError>(m.hmonitor) {
            thumbnail_layouts(b.windows@, monitor_size(m), OVERVIEW_PADDING as int)
        } else {
            grid_layouts(b.windows@, monitor_size(m), GRID_PADDING as int)
        })
    }

    /// Prepares the overview on one monitor, whose window is there. The first
    /// one puts the program into overview mode.
    pub fn finalize_open_overview(
        &mut self,
        raw_handle: u64,
        hmonitor: i64,
        env: &Surroundings,
        cfg: &Config,
    ) -> (r: OverviewOpening)
        requires
            old(self).wf(),
            env.ok(),
            old(self).tiler@.windows.len() + snapshot_windows(*env, *cfg).len() <= MAX_WINDOWS,
        ensures
            final(self).wf(),
            final(self).in_overview(),
            old(self).entered(*final(self)),
            r.offscreen@ == (if old(self).in_overview() {
                seq![]
            } else {
                offscreen_moves(
                    old(self).tiler@.windows,
                    env.desk,
                    old(self).tiler@.windows.len() as int,
                )
            }),
            match pick(env.monitors@, first_true(handle_mask(env.monitors@, hmonitor))) {
                None => r.binding matches Err(e) && e == OverviewError::MonitorGone,
                Some(m) => if raw_handle == 0 {
                    r.binding matches Err(e) && e == OverviewError::InvalidHandle
                } else {
                    r.binding matches Ok(b) && final(self).binds(*env, *cfg, raw_handle, m, b)
                },
            },
    {
        let offscreen: Vec<OffscreenMove> = self.enter_overview(&env.desk);
        proof {
            crate::search::lemma_first_true(handle_mask(env.monitors@, hmonitor));
        }
        let m: Monitor = match find_by_handle(&env.monitors, hmonitor) {
            Some(m) => m,
            None => {
                return OverviewOpening { offscreen, binding: Err(OverviewError::MonitorGone) };
            },
        };
        assert(m.ok() && m.hmonitor == hmonitor);
        let is_tiling: bool = match resolve_tiling_monitor(
            &env.monitors,
            cfg.monitors.tiling_monitor.as_str(),
        ) {
            Ok(t) => t.hmonitor == hmonitor,
            Err(_) => false,
        };
        let shown: Vec<Window> = self.shown_windows(env, cfg, hmonitor, is_tiling);
        proof {
            lemma_shown_len(self.tiler@, *env, *cfg, hmonitor);
        }
        let windows: Vec<WindowData> = self.data_for_windows(&shown, &env.desk);
        let size: Size = Size {
            width: m.work_area_width() as i64 * PX,
            height: m.work_area_height() as i64 * PX,
        };
        let layouts: Vec<ThumbnailLayout> = if is_tiling {
            compute_thumbnail_layouts(&windows, size, OVERVIEW_PADDING)
        } else {
            compute_grid_layout(&windows, size, GRID_PADDING)
        };
        let binding: Result<Binding, OverviewError> = match Window::from_safe_hwnd(raw_handle) {
            Ok(dest) => Ok(Binding { dest, windows, layouts }),
            Err(_) => Err(OverviewError::InvalidHandle),
        };
        OverviewOpening { offscreen, binding }
    }

    /// Takes in that the window of the overview on one monitor is there. Where
    /// the overview cannot be shown in it, nothing stays in the way of the
    /// settings.
    pub fn handle_overview_message(
        &mut self,
        message: overview::Message,
        env: &Surroundings,
        cfg: &Config,
    ) -> (r: OverviewOpening)
        requires
            old(self).wf(),
            env.ok(),
            old(self).tiler@.windows.len() + snapshot_windows(*env, *cfg).len() <= MAX_WINDOWS,
        ensures
            final(self).wf(),
            final(self).in_overview(),
            r.binding is Ok ==> old(self).entered(*final(self)),
            r.binding is Err ==> exists|mid: State| #[trigger]
                old(self).entered(mid) && *final(self) == (State { overview_opening: false, ..mid }),
            r.offscreen@ == (if old(self).in_overview() {
                seq![]
            } else {
                offscreen_moves(
                    old(self).tiler@.windows,
                    env.desk,
                    old(self).tiler@.windows.len() as int,
                )
            }),
            match pick(env.monitors@, first_true(handle_mask(env.monitors@, message->hmonitor))) {
                None => r.binding matches Err(e) && e == OverviewError::MonitorGone,
                Some(m) => if message->raw_handle == 0 {
                    r.binding matches Err(e) && e == OverviewError::InvalidHandle
                } else {
                    r.binding matches Ok(b) && final(self).binds(
                        *env,
                        *cfg,
                        message->raw_handle,
                        m,
                        b,
                    )
                },
            },
    {
        let overview::Message::OverviewWindowCreated { raw_handle, hmonitor, .. } = message;
        let opening: OverviewOpening = self.finalize_open_overview(raw_handle, hmonitor, env, cfg);
        if opening.binding.is_err() {
            let ghost mid = *self;
            self.overview_opening = false;
            assert(old(self).entered(mid));
        }
        opening
    }

    /// Takes over the thumbnails that are shown on one monitor.
    pub fn bind_thumbnails(&mut self, window_id: u64, hmonitor: i64, thumbnails: Vec<Thumbnail>)
        requires
            old(self).wf(),
        ensures
            final(self).wf(),
            match old(self).mode {
                Mode::Overview(before) => {
                    &&& *final(self) == (State { mode: final(self).mode, ..*old(self) })
                    &&& final(self).mode matches Mode::Overview(after) && after.monitors@
                        == before.monitors@.push(
                        MonitorOverview {
                            window_id,
                            hmonitor,
                            thumbnails,
                            cursor_pos: None,
                            press_pos: None,
                            drag_source_idx: None,
                            context_menu: None,
                        },
                    )
                },
                _ => *final(self) == *old(self),
            },
    {
        match &mut self.mode {
            Mode::Overview(o) => {
                o.monitors.push(
                    MonitorOverview {
                        window_id,
                        hmonitor,
                        thumbnails,
                        cursor_pos: None,
                        press_pos: None,
                        drag_source_idx: None,
                        context_menu: None,
                    },
                );
            },
            _ => {},
        }
    }
}

/// The numbers of the thumbnails in a list.
pub open spec fn thumbnail_ids(thumbnails: Seq<Thumbnail>) -> Seq<i64> {
    Seq::new(thumbnails.len(), |i: int| thumbnails[i].thumbnail_id)
}

/// The numbers of the thumbnails on the first `upto` monitors.
pub open spec fn bound_ids(monitors: Seq<MonitorOverview>, upto: int) -> Seq<i64>
    decreases upto,
{
    if upto <= 0 {
        seq![]
    } else {
        bound_ids(monitors, upto - 1) + thumbnail_ids(monitors[upto - 1].thumbnails@)
    }
}

pub open spec fn window_ids(monitors: Seq<MonitorOverview>) -> Seq<u64> {
    Seq::new(monitors.len(), |i: int| monitors[i].window_id)
}

fn collect_ids(monitors: &Vec<MonitorOverview>) -> (r: OverviewClosing)
    ensures
        r.thumbnails@ == bound_ids(monitors@, monitors@.len() as int),
        r.windows@ == window_ids(monitors@),
{
    let mut thumbnails: Vec<i64> = Vec::new();
    let mut windows: Vec<u64> = Vec::new();
    let mut i: usize = 0;
    while i < monitors.len()
        invariant
            i <= monitors@.len(),
            thumbnails@ == bound_ids(monitors@, i as int),
            windows@.len() == i,
            forall|j: int| 0 <= j < i ==> #[trigger] windows@[j] == monitors@[j].window_id,
        decreases monitors@.len() - i,
    {
        let m: &MonitorOverview = &monitors[i];
        let ghost before = thumbnails@;
        let mut k: usize = 0;
        assert(before + seq![] =~= before);
        while k < m.thumbnails.len()
            invariant
                k <= m.thumbnails@.len(),
                thumbnails@ == before + thumbnail_ids(m.thumbnails@).subrange(0, k as int),
            decreases m.thumbnails@.len() - k,
        {
            thumbnails.push(m.thumbnails[k].thumbnail_id);
            assert(thumbnails@ =~= before + thumbnail_ids(m.thumbnails@).subrange(0, k + 1));
            k = k + 1;
        }
        assert(thumbnail_ids(m.thumbnails@).subrange(0, k as int) =~= thumbnail_ids(
            m.thumbnails@,
        ));
        windows.push(m.window_id);
        i = i + 1;
    }
    assert(windows@ =~= window_ids(monitors@));
    OverviewClosing { thumbnails, windows }
}

/// Why a window could not be moved to a monitor.
#[derive(Debug, Clone, Copy, PartialEq, Eq, Structural)]
pub enum MoveError {
    /// No such monitor is attached.
    NotAttached,
    /// The borders of the window are not known.
    Unmeasurable,
}

/// Where a window goes on a monitor.
pub open spec fn monitor_place(desk: Desktop, w: Window, m: Monitor) -> Option<PixelRect> {
    let wa = m.work_area;
    padded_on(
        desk,
        w,
        Position {
            x: centered_start(wa.left as int, wa.right as int, 1600) as i64,
            y: centered_start(wa.top as int, wa.bottom as int, 1200) as i64,
        },
        Size {
            width: centered_extent(wa.left as int, wa.right as int, 1600) as i64,
            height: centered_extent(wa.top as int, wa.bottom as int, 1200) as i64,
        },
    )
}

pub open spec fn monitor_move(env: Surroundings, w: Window, name: Seq<char>) -> Result<
    PixelRect,
    MoveError,
> {
    match pick(env.monitors@, first_true(name_mask(env.monitors@, name))) {
        None => Err(MoveError::NotAttached),
        Some(m) => match monitor_place(env.desk, w, m) {
            Some(rect) => Ok(rect),
            None => Err(MoveError::Unmeasurable),
        },
    }
}

impl State {
    /// The move that centers a window on the monitor with the given name. Menus
    /// close once it is made.
    pub fn overview_action_move_to_monitor(
        &self,
        target: Window,
        device_name: &str,
        env: &Surroundings,
    ) -> (r: Result<PixelRect, MoveError>)
        ensures
            r == monitor_move(*env, target, device_name@),
    {
        match find_by_device_name(&env.monitors, device_name) {
            None => Err(MoveError::NotAttached),
            Some(m) => match target.move_to_monitor(&m, &env.desk) {
                Some(rect) => Ok(rect),
                None => Err(MoveError::Unmeasurable),
            },
        }
    }
}

/// What asking to ignore something leads to.
#[derive(Debug)]
pub enum IgnoreStep {
    /// There is nothing to do.
    Nothing,
    /// It is ignored already, or cannot be: menus close.
    Dismiss,
    /// Write this configuration; menus close once it is written.
    Save(Config),
}

/// `after` is `before` with an executable added to the ignored ones.
pub open spec fn process_ignored(before: Config, after: Config, process: Seq<char>) -> bool {
    &&& after.tiling == before.tiling
    &&& after.api == before.api
    &&& after.monitors == before.monitors
    &&& after.app_overrides@ == before.app_overrides@
    &&& after.filter.ignored_classes@ == before.filter.ignored_classes@
    &&& after.filter.ignored_window_titles@ == before.filter.ignored_window_titles@
    &&& grown(before.filter.ignored_processes@, after.filter.ignored_processes@, process)
}

pub open spec fn app_ignored(cfg: Config, process: Seq<char>, r: IgnoreStep) -> bool {
    if process.len() == 0 {
        r is Nothing
    } else if listed(cfg.filter.ignored_processes@, process) {
        r is Dismiss
    } else {
        r matches IgnoreStep::Save(c) && process_ignored(cfg, c, process)
    }
}

impl State {
    /// Keeps all windows of an executable out of the strip.
    pub fn overview_action_ignore_app(&self, process: &str, cfg: &Config) -> (r: IgnoreStep)
        ensures
            app_ignored(*cfg, process@, r),
    {
        if process.unicode_len() == 0 {
            return IgnoreStep::Nothing;
        }
        let mut changed: Config = cfg.clone();
        if changed.filter.ignore_process(process) {
            IgnoreStep::Save(changed)
        } else {
            IgnoreStep::Dismiss
        }
    }
}

/// The class of a window as a rule holds it: none where it is empty.
pub open spec fn rule_class(desk: Desktop, w: Window) -> Option<Seq<char>> {
    if class_text(desk, w).len() == 0 {
        None
    } else {
        Some(class_text(desk, w))
    }
}

pub open spec fn window_ignored(
    cfg: Config,
    desk: Desktop,
    hwnd: u64,
    r: Result<IgnoreStep, InvalidHandle>,
) -> bool {
    let w = Window { hwnd };
    let process = process_text(desk, w);
    let title = title_text(desk, w);
    if hwnd == 0 {
        r is Err
    } else if process.len() == 0 || cfg.filter.has_exact(process, title, rule_class(desk, w)) {
        r matches Ok(IgnoreStep::Dismiss)
    } else {
        r matches Ok(IgnoreStep::Save(c)) && rule_added(
            cfg,
            c,
            process,
            title,
            rule_class(desk, w),
        )
    }
}

impl State {
    /// Keeps one window, known by its executable, class and title, out of the
    /// strip.
    pub fn overview_action_ignore_window(&self, hwnd: u64, cfg: &Config, desk: &Desktop) -> (r: Result<
        IgnoreStep,
        InvalidHandle,
    >)
        ensures
            window_ignored(*cfg, *desk, hwnd, r),
    {
        let w: Window = match Window::from_safe_hwnd(hwnd) {
            Ok(w) => w,
            Err(e) => {
                return Err(e);
            },
        };
        let process: String = process_or_empty(w, desk);
        let title: String = title_or_empty(w, desk);
        if process.as_str().unicode_len() == 0 {
            return Ok(IgnoreStep::Dismiss);
        }
        let class: Option<String> = match w.class(desk) {
            Some(c) => if c.as_str().unicode_len() == 0 {
                None
            } else {
                Some(c)
            },
            None => None,
        };
        let mut changed: Config = cfg.clone();
        if changed.filter.ignore_window(process.as_str(), title.as_str(), class) {
            Ok(IgnoreStep::Save(changed))
        } else {
            Ok(IgnoreStep::Dismiss)
        }
    }

    /// The window to repaint.
    pub fn overview_action_force_redraw(&self, hwnd: u64) -> (r: Result<Window, InvalidHandle>)
        ensures
            r == (if hwnd == 0 {
                Err(InvalidHandle)
            } else {
                Ok(Window { hwnd })
            }),
    {
        Window::from_safe_hwnd(hwnd)
    }
}

/// The tiles shown in the strip of the overview.
pub open spec fn strip_data(s: Strip, desk: Desktop, upto: int) -> Seq<WindowData>
    decreases upto,
{
    if upto <= 0 {
        seq![]
    } else {
        let before = strip_data(s, desk, upto - 1);
        let item = s.windows[upto - 1];
        if desk.hidden(item.inner) {
            before
        } else {
            before.push(
                WindowData { inner: item.inner, width: item.width, height: s.screen_size.height },
            )
        }
    }
}

fn visible_strip_data(tiler: &ScrollTiler, desk: &Desktop) -> (r: Vec<WindowData>)
    requires
        tiler.wf(),
    ensures
        r@ == strip_data(tiler@, *desk, tiler@.windows.len() as int),
        data_ok(r@),
{
    let mut out: Vec<WindowData> = Vec::new();
    let mut i: usize = 0;
    while i < tiler.windows.len()
        invariant
            i <= tiler@.windows.len(),
            tiler.wf(),
            out@ == strip_data(tiler@, *desk, i as int),
            out@.len() <= i,
            forall|j: int| 0 <= j < out@.len() ==> width_ok((#[trigger] out@[j]).width),
        decreases tiler@.windows.len() - i,
    {
        let item: WindowItem = tiler.windows[i];
        assert(tiler@.windows[i as int].ok());
        if !item.inner.is_hidden(desk) {
            out.push(
                WindowData {
                    inner: item.inner,
                    width: item.width,
                    height: tiler.screen_size.height,
                },
            );
        }
        i = i + 1;
    }
    out
}

impl State {
    /// Closes the overview and goes back to tiling; an update of the strip has
    /// to follow. `None` where no overview is open.
    pub fn close_overview(&mut self) -> (r: Option<OverviewClosing>)
        requires
            old(self).wf(),
        ensures
            final(self).wf(),
            match old(self).mode {
                Mode::Overview(o) => {
                    &&& final(self).tiling()
                    &&& *final(self) == (State { mode: final(self).mode, ..*old(self) })
                    &&& r matches Some(c) && c.thumbnails@ == bound_ids(
                        o.monitors@,
                        o.monitors@.len() as int,
                    ) && c.windows@ == window_ids(o.monitors@)
                },
                _ => r is None && *final(self) == *old(self),
            },
    {
        let closing: OverviewClosing = match &self.mode {
            Mode::Overview(o) => collect_ids(&o.monitors),
            _ => {
                return None;
            },
        };
        let _switched: bool = self.switch_to_tiler_mode();
        Some(closing)
    }

    pub fn handle_overview_cursor_moved(&mut self, window_id: u64, at: Position)
        requires
            old(self).wf(),
        ensures
            final(self).wf(),
            match old(self).mode {
                Mode::Overview(o) => *final(self) == (State {
                    mode: final(self).mode,
                    ..*old(self)
                }) && (final(self).mode matches Mode::Overview(n) && n.monitors@
                    == o.cursor_moved(window_id, at)),
                _ => *final(self) == *old(self),
            },
    {
        match &mut self.mode {
            Mode::Overview(o) => {
                o.handle_cursor_moved(window_id, at);
            },
            _ => {},
        }
    }

    pub fn handle_overview_mouse_pressed(&mut self, window_id: u64)
        requires
            old(self).wf(),
        ensures
            final(self).wf(),
            match old(self).mode {
                Mode::Overview(o) => *final(self) == (State {
                    mode: final(self).mode,
                    ..*old(self)
                }) && (final(self).mode matches Mode::Overview(n) && n.monitors@
                    == o.mouse_pressed(window_id)),
                _ => *final(self) == *old(self),
            },
    {
        match &mut self.mode {
            Mode::Overview(o) => {
                o.handle_mouse_pressed(window_id);
            },
            _ => {},
        }
    }

    pub fn overview_release_outcome(&mut self, window_id: u64) -> (r: Option<ReleaseOutcome>)
        requires
            old(self).wf(),
        ensures
            final(self).wf(),
            match old(self).mode {
                Mode::Overview(o) => r == o.release_meaning(window_id) && *final(self) == (State {
                    mode: final(self).mode,
                    ..*old(self)
                }) && (final(self).mode matches Mode::Overview(n) && n.monitors@ == o.released(
                    window_id,
                )),
                _ => r is None && *final(self) == *old(self),
            },
    {
        match &mut self.mode {
            Mode::Overview(o) => o.release_outcome(window_id),
            _ => None,
        }
    }

    pub fn open_overview_context_menu(&mut self, window_id: u64, env: &Surroundings)
        requires
            old(self).wf(),
            env.ok(),
            old(self).mode matches Mode::Overview(o) ==> o.menu_fits(window_id),
        ensures
            final(self).wf(),
            match old(self).mode {
                Mode::Overview(o) => *final(self) == (State {
                    mode: final(self).mode,
                    ..*old(self)
                }) && (final(self).mode matches Mode::Overview(n) && o.menu_opened(
                    window_id,
                    env.monitors@,
                    env.desk,
                    n.monitors@,
                )),
                _ => *final(self) == *old(self),
            },
    {
        match &mut self.mode {
            Mode::Overview(o) => {
                o.open_context_menu(window_id, &env.monitors, &env.desk);
            },
            _ => {},
        }
    }

    /// The program with all menus closed.
    pub open spec fn menus_dismissed(self, after: State) -> bool {
        match self.mode {
            Mode::Overview(o) => after == (State { mode: after.mode, ..self }) && (
            after.mode matches Mode::Overview(n) && n.monitors@ == without_menus(o.monitors@)),
            _ => after == self,
        }
    }

    pub fn dismiss_overview_context_menu(&mut self)
        requires
            old(self).wf(),
        ensures
            final(self).wf(),
            old(self).menus_dismissed(*final(self)),
    {
        match &mut self.mode {
            Mode::Overview(o) => {
                o.dismiss_context_menu();
            },
            _ => {},
        }
    }

    pub open spec fn menu_open(self) -> bool {
        self.mode matches Mode::Overview(o) && o.some_menu()
    }

    pub fn overview_context_menu_open(&self) -> (r: bool)
        ensures
            r == self.menu_open(),
    {
        match &self.mode {
            Mode::Overview(o) => o.context_menu_open(),
            _ => false,
        }
    }

    /// The overview whose window has the given number.
    pub fn overview_monitor_for_window(&self, window_id: u64) -> (r: Option<&MonitorOverview>)
        ensures
            match self.mode {
                Mode::Overview(o) => match (o.monitor_for(window_id), r) {
                    (Some(i), Some(m)) => *m == o.monitors@[i],
                    (None, None) => true,
                    _ => false,
                },
                _ => r is None,
            },
    {
        match &self.mode {
            Mode::Overview(o) => match o.find_window(window_id) {
                Some(i) => Some(&o.monitors[i]),
                None => None,
            },
            _ => None,
        }
    }

    /// `after` and `moves` are what reordering two windows leads to: a new
    /// order of the strip, and the thumbnails on the tiling monitor put
    /// accordingly.
    pub open spec fn reordered_to(
        self,
        src: Window,
        dst: Window,
        env: Surroundings,
        cfg: Config,
        after: State,
        moves: Seq<ThumbnailMove>,
    ) -> bool {
        let s = self.tiler@.with_windows(reordered(self.tiler@.windows, src, dst));
        let windows = strip_data(s, env.desk, s.windows.len() as int);
        let layouts = thumbnail_layouts(windows, s.screen_size, OVERVIEW_PADDING as int);
        &&& after == (State { tiler: after.tiler, mode: after.mode, ..self })
        &&& after.tiler@ == s
        &&& match (self.mode, hmonitor_of(env, cfg)) {
            (Mode::Overview(o), Ok(h)) => match first_true(hmonitor_mask(o.monitors@, h)) {
                None => moves.len() == 0 && (after.mode matches Mode::Overview(n) && n.monitors@
                    == o.monitors@),
                Some(i) => {
                    let m = o.monitors@[i];
                    &&& after.mode matches Mode::Overview(n) && n.monitors@ == o.monitors@.update(
                        i,
                        MonitorOverview { thumbnails: n.monitors@[i].thumbnails, ..m },
                    ) && n.monitors@[i].thumbnails@ == replaced_rects(
                        m.thumbnails@,
                        windows,
                        layouts,
                    )
                    &&& moves == rect_moves(
                        m.thumbnails@,
                        windows,
                        layouts,
                        m.thumbnails@.len() as int,
                    )
                },
            },
            _ => after.mode == self.mode && moves.len() == 0,
        }
    }

    /// Puts `src` where `dst` is, in the strip and among the thumbnails.
    pub fn reorder_overview(&mut self, src: Window, dst: Window, env: &Surroundings, cfg: &Config) -> (
    r: Vec<ThumbnailMove>)
        requires
            old(self).wf(),
        ensures
            final(self).wf(),
            old(self).reordered_to(src, dst, *env, *cfg, *final(self), r@),
    {
        self.tiler.reorder(src, dst);
        let windows: Vec<WindowData> = visible_strip_data(&self.tiler, &env.desk);
        let layouts: Vec<ThumbnailLayout> = compute_thumbnail_layouts(
            &windows,
            self.tiler.screen_size,
            OVERVIEW_PADDING,
        );
        let hmonitor: i64 = match resolve_tiling_monitor(
            &env.monitors,
            cfg.monitors.tiling_monitor.as_str(),
        ) {
            Ok(m) => m.hmonitor,
            Err(_) => {
                return Vec::new();
            },
        };
        match &mut self.mode {
            Mode::Overview(o) => o.rearrange(hmonitor, &windows, &layouts),
            _ => Vec::new(),
        }
    }
}

/// While one of the overview and the settings is open or opening, asking for
/// the other changes nothing.
pub proof fn law_overview_and_settings_exclude_each_other(
    state: State,
    env: Surroundings,
    new_id: u64,
)
    requires
        state.settings_window_id is None ==> state.in_overview() || state.overview_opening,
    ensures
        state.settings_opening(new_id) !is Open,
        state.settings_window_id is Some ==> !state.may_open_overview(env),
{
}

} // verus!
