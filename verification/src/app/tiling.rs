//! Tiling mode: keeping the strip and what is published of it up to date.
use vstd::prelude::*;

use crate::api::{ApiState, MonitorSnapshot, WindowSnapshot};
use crate::app;
use crate::app::overview::process_or_empty;
use crate::app::{
    class_text, process_text, title_or_empty, title_text, Mode, Surroundings,
};
use crate::config::Config;
use crate::geometry::{bounds_of, Bounds};
use crate::monitor::{
    find_by_handle, handle_mask, pick, resolve_tiling_monitor, tiling_monitor, Monitor,
    MonitorError,
};
use crate::scroll_tiler::item::WindowItem;
use crate::scroll_tiler::layout::LayoutPlan;
use crate::scroll_tiler::snapshot::SnapshotPlan;
use crate::scroll_tiler::strip::{Strip, MAX_WINDOWS};
use crate::search::first_true;
use crate::window::filter::{opened, opened_windows};
use crate::window::{Desktop, Window};

verus! {

/// What is particular to tiling.
#[derive(Debug, Clone, Copy)]
pub struct State {
    /// The rectangle the focus border is drawn around.
    pub current_border_bounds: Option<Bounds>,
}

/// Why the strip could not be updated.
#[derive(Debug, Clone, Copy, PartialEq, Eq, Structural)]
pub enum UpdateError {
    /// The windows could not be enumerated.
    Enumeration,
    /// There is no monitor to tile on.
    Monitor(MonitorError),
}

/// What an update of the strip comes to.
#[derive(Debug)]
pub enum TilerUpdate {
    /// The program is not tiling.
    NotTiling,
    Failed(UpdateError),
    Updated {
        /// The layout of the first update, which tiles every window.
        seed: Option<LayoutPlan>,
        snapshot: SnapshotPlan,
        /// What to publish; `None` where the focused window could not be
        /// measured.
        published: Option<ApiState>,
    },
}

/// The windows of one look that are to be tiled.
pub open spec fn snapshot_windows(env: Surroundings, cfg: Config) -> Seq<Window> {
    opened(env.desk, cfg, env.desk.observed@.len() as int)
}

pub open spec fn hmonitor_of(env: Surroundings, cfg: Config) -> Result<i64, MonitorError> {
    match tiling_monitor(env.monitors@, cfg.monitors.tiling_monitor@) {
        Ok(m) => Ok(m.hmonitor),
        Err(e) => Err(e),
    }
}

/// The strip that the snapshot is taken in by.
pub open spec fn seeded_strip(state: app::State, env: Surroundings, cfg: Config) -> Strip {
    if state.pending_initial_consolidation {
        state.tiler@.bulk_seeded(snapshot_windows(env, cfg), env.desk).relaid(env.desk)
    } else {
        state.tiler@
    }
}

/// The update stays within the limits of the strip.
pub open spec fn updatable(state: app::State, env: Surroundings, cfg: Config) -> bool {
    &&& env.ok()
    &&& state.tiling() && env.enumerated && hmonitor_of(env, cfg) is Ok ==> {
        &&& state.tiler@.windows.len() + 2 * snapshot_windows(env, cfg).len() <= MAX_WINDOWS
        &&& seeded_strip(state, env, cfg).room_for_resize(
            snapshot_windows(env, cfg),
            env.desk,
            hmonitor_of(env, cfg)->Ok_0,
        )
    }
}

/// The rectangle of the focus border: around the focused tile. `None` where
/// the focused tile cannot be measured.
pub open spec fn border_of(s: Strip, desk: Desktop) -> Option<Option<Bounds>> {
    match s.focus_index(desk) {
        None => Some(None),
        Some(i) => match desk.frame_of(s.windows[i].inner) {
            Some(f) => Some(Some(bounds_of(f))),
            None => None,
        },
    }
}

/// The name of the monitor a window is on; empty where that is not known.
pub open spec fn monitor_text(env: Surroundings, w: Window) -> Seq<char> {
    match pick(
        env.monitors@,
        first_true(handle_mask(env.monitors@, env.desk.monitor_of(w) as i64)),
    ) {
        Some(m) => m.device_name@,
        None => seq![],
    }
}

pub open spec fn desktop_number(desk: Desktop, w: Window) -> Option<u32> {
    match desk.facts(w) {
        Some(o) => o.desktop_id,
        None => None,
    }
}

/// `w` is what is published of tile `i`.
pub open spec fn published_window(s: Strip, env: Surroundings, i: int, w: WindowSnapshot) -> bool {
    let inner = s.windows[i].inner;
    &&& w.id == inner.hwnd
    &&& w.title@ == title_text(env.desk, inner)
    &&& w.process@ == process_text(env.desk, inner)
    &&& w.class@ == class_text(env.desk, inner)
    &&& w.width == s.windows[i].width
    &&& w.x == s.positions(env.desk)[i]
    &&& w.monitor@ == monitor_text(env, inner)
    &&& w.tiled
    &&& w.minimized == env.desk.iconic(inner)
    &&& w.desktop_id == desktop_number(env.desk, inner)
}

/// `m` is what is published of monitor `i`.
pub open spec fn published_monitor(
    env: Surroundings,
    cfg: Config,
    i: int,
    m: MonitorSnapshot,
) -> bool {
    let monitor = env.monitors@[i];
    &&& m.index == i
    &&& m.device_name@ == monitor.device_name@
    &&& m.is_primary == monitor.is_primary
    &&& m.is_tiling == (hmonitor_of(env, cfg) == Ok::<i64, MonitorError>(monitor.hmonitor))
    &&& m.work_area_x == monitor.work_area.left
    &&& m.work_area_y == monitor.work_area.top
    &&& m.work_area_width == monitor.work_area.right - monitor.work_area.left
    &&& m.work_area_height == monitor.work_area.bottom - monitor.work_area.top
}

pub open spec fn mode_text(mode: Mode) -> Seq<char> {
    match mode {
        Mode::Tiler(_) => "tiler"@,
        Mode::Overview(_) => "overview"@,
        Mode::Exit => "exit"@,
    }
}

/// `api` is what is published of the program.
pub open spec fn published_state(
    mode: Mode,
    s: Strip,
    env: Surroundings,
    cfg: Config,
    api: ApiState,
) -> bool {
    &&& api.mode@ == mode_text(mode)
    &&& api.windows@.len() == s.windows.len()
    &&& forall|i: int|
        0 <= i < api.windows@.len() ==> published_window(s, env, i, #[trigger] api.windows@[i])
    &&& api.focused_window_id == (match s.focus_index(env.desk) {
        Some(i) => Some(s.windows[i].inner.hwnd),
        None => None,
    })
    &&& api.scroll_offset == s.scroll_offset
    &&& api.total_width == s.total_strip_width(env.desk)
    &&& api.screen_width == s.screen_size.width
    &&& api.screen_height == s.screen_size.height
    &&& api.tiling_monitor_device_name@ == (match tiling_monitor(
        env.monitors@,
        cfg.monitors.tiling_monitor@,
    ) {
        Ok(m) => m.device_name@,
        Err(_) => seq![],
    })
    &&& api.monitors@.len() == env.monitors@.len()
    &&& forall|i: int|
        0 <= i < api.monitors@.len() ==> published_monitor(env, cfg, i, #[trigger] api.monitors@[i])
}

fn monitor_name(env: &Surroundings, w: Window) -> (r: String)
    ensures
        r@ == monitor_text(*env, w),
{
    match find_by_handle(&env.monitors, w.monitor(&env.desk)) {
        Some(m) => m.device_name,
        None => {
            let r: String = String::new();
            assert(r@ =~= seq![]);
            r
        },
    }
}

fn class_or_empty(w: Window, desk: &Desktop) -> (r: String)
    ensures
        r@ == class_text(*desk, w),
{
    match w.class(desk) {
        Some(c) => c,
        None => {
            let r: String = String::new();
            assert(r@ =~= seq![]);
            r
        },
    }
}

fn desktop_of(w: Window, desk: &Desktop) -> (r: Option<u32>)
    ensures
        r == desktop_number(*desk, w),
{
    match desk.look_up(w) {
        Some(o) => o.desktop_id,
        None => None,
    }
}

impl app::State {
    fn published_windows(&self, env: &Surroundings) -> (r: Vec<WindowSnapshot>)
        requires
            self.wf(),
        ensures
            r@.len() == self.tiler@.windows.len(),
            forall|i: int|
                0 <= i < r@.len() ==> published_window(self.tiler@, *env, i, #[trigger] r@[i]),
    {
        let pos: Vec<i64> = self.tiler.windows_positions(&env.desk);
        let mut out: Vec<WindowSnapshot> = Vec::new();
        let mut i: usize = 0;
        while i < self.tiler.windows.len()
            invariant
                i <= self.tiler@.windows.len(),
                pos@ == self.tiler@.positions(env.desk),
                out@.len() == i,
                forall|j: int|
                    0 <= j < i ==> published_window(self.tiler@, *env, j, #[trigger] out@[j]),
            decreases self.tiler@.windows.len() - i,
        {
            let item: WindowItem = self.tiler.windows[i];
            let w: Window = item.inner;
            out.push(
                WindowSnapshot {
                    id: w.hwnd,
                    title: title_or_empty(w, &env.desk),
                    process: process_or_empty(w, &env.desk),
                    class: class_or_empty(w, &env.desk),
                    width: item.width,
                    x: pos[i],
                    monitor: monitor_name(env, w),
                    tiled: true,
                    minimized: w.is_iconic(&env.desk),
                    desktop_id: desktop_of(w, &env.desk),
                },
            );
            i = i + 1;
        }
        out
    }

    /// What is published of the program.
    pub fn publish_api_snapshot(&self, env: &Surroundings, cfg: &Config) -> (r: ApiState)
        requires
            self.wf(),
            env.ok(),
        ensures
            published_state(self.mode, self.tiler@, *env, *cfg, r),
    {
        let mode: String = match &self.mode {
            Mode::Tiler(_) => "tiler".to_owned(),
            Mode::Overview(_) => "overview".to_owned(),
            Mode::Exit => "exit".to_owned(),
        };
        let tiling: Result<Monitor, MonitorError> = resolve_tiling_monitor(
            &env.monitors,
            cfg.monitors.tiling_monitor.as_str(),
        );
        let handle: Option<i64> = match &tiling {
            Ok(m) => Some(m.hmonitor),
            Err(_) => None,
        };
        let monitors: Vec<MonitorSnapshot> = published_monitors(env, handle, cfg);
        let tiling_monitor_device_name: String = match tiling {
            Ok(m) => m.device_name,
            Err(_) => {
                let r: String = String::new();
                assert(r@ =~= seq![]);
                r
            },
        };
        let focused_window_id: Option<u64> = match self.tiler.focused_window(&env.desk) {
            Some(w) => Some(w.hwnd),
            None => None,
        };
        ApiState {
            mode,
            windows: self.published_windows(env),
            focused_window_id,
            scroll_offset: self.tiler.scroll_offset(),
            total_width: self.tiler.total_strip_width(&env.desk),
            screen_width: self.tiler.screen_size().width,
            screen_height: self.tiler.screen_size().height,
            tiling_monitor_device_name,
            monitors,
        }
    }

    /// Puts the focus border around the focused tile. `false` where that tile
    /// cannot be measured; the border then stays where it is.
    pub fn update_tiler_border(&mut self, desk: &Desktop) -> (known: bool)
        requires
            old(self).wf(),
        ensures
            final(self).wf(),
            *final(self) == (app::State { mode: final(self).mode, ..*old(self) }),
            match old(self).mode {
                Mode::Tiler(t) => match border_of(old(self).tiler@, *desk) {
                    Some(b) => known && final(self).mode == Mode::Tiler(
                        State { current_border_bounds: b },
                    ),
                    None => !known && final(self).mode == old(self).mode,
                },
                _ => known && final(self).mode == old(self).mode,
            },
    {
        let tiling: bool = match &self.mode {
            Mode::Tiler(_) => true,
            _ => false,
        };
        if !tiling {
            return true;
        }
        let bounds: Option<Bounds> = match self.tiler.focused_window(desk) {
            Some(w) => match w.desktop_manager_bounds(desk) {
                Some(b) => Some(b),
                None => {
                    return false;
                },
            },
            None => None,
        };
        self.mode = Mode::Tiler(State { current_border_bounds: bounds });
        true
    }

    /// `after` and `r` are what an update of the strip leads to.
    pub open spec fn tiler_updated(
        self,
        env: Surroundings,
        cfg: Config,
        after: app::State,
        r: TilerUpdate,
    ) -> bool {
        if !self.tiling() {
            after == self && r is NotTiling
        } else if !env.enumerated {
            after == self && r == TilerUpdate::Failed(UpdateError::Enumeration)
        } else {
            match hmonitor_of(env, cfg) {
                Err(e) => after == self && r == TilerUpdate::Failed(UpdateError::Monitor(e)),
                Ok(hmonitor) => {
                    let windows = snapshot_windows(env, cfg);
                    let s = seeded_strip(self, env, cfg);
                    &&& after == (app::State {
                        tiler: after.tiler,
                        mode: after.mode,
                        pending_initial_consolidation: false,
                        ..self
                    })
                    &&& after.tiler@ == s.snapped(windows, env.desk, hmonitor)
                    &&& after.mode == (match border_of(after.tiler@, env.desk) {
                        Some(b) => Mode::Tiler(State { current_border_bounds: b }),
                        None => self.mode,
                    })
                    &&& r matches TilerUpdate::Updated { seed, snapshot, published } && {
                        &&& match seed {
                            Some(plan) => self.pending_initial_consolidation
                                && self.tiler@.bulk_seeded(windows, env.desk).relayout_plan(
                                env.desk,
                                plan,
                            ),
                            None => !self.pending_initial_consolidation,
                        }
                        &&& s.snapshot_plan(windows, env.desk, hmonitor, snapshot)
                        &&& match published {
                            Some(api) => border_of(after.tiler@, env.desk) is Some
                                && published_state(after.mode, after.tiler@, env, cfg, api),
                            None => border_of(after.tiler@, env.desk) is None,
                        }
                    }
                },
            }
        }
    }

    /// Brings the strip up to date with one look at the desktop. The first
    /// update tiles every window, whatever monitor it is on.
    pub fn update_tiler(&mut self, env: &Surroundings, cfg: &Config) -> (r: TilerUpdate)
        requires
            old(self).wf(),
            updatable(*old(self), *env, *cfg),
        ensures
            final(self).wf(),
            old(self).tiler_updated(*env, *cfg, *final(self), r),
    {
        let tiling: bool = match &self.mode {
            Mode::Tiler(_) => true,
            _ => false,
        };
        if !tiling {
            return TilerUpdate::NotTiling;
        }
        if !env.enumerated {
            return TilerUpdate::Failed(UpdateError::Enumeration);
        }
        let windows: Vec<Window> = opened_windows(&env.desk, cfg);
        let hmonitor: i64 = match resolve_tiling_monitor(
            &env.monitors,
            cfg.monitors.tiling_monitor.as_str(),
        ) {
            Ok(m) => m.hmonitor,
            Err(e) => {
                return TilerUpdate::Failed(UpdateError::Monitor(e));
            },
        };
        let mut seed: Option<LayoutPlan> = None;
        if self.pending_initial_consolidation {
            proof {
                lemma_seeded_len(self.tiler@, windows@, env.desk);
            }
            seed = Some(self.tiler.bulk_seed(&windows, &env.desk));
        }
        let snapshot: SnapshotPlan = self.tiler.handle_window_snapshot(
            &windows,
            &env.desk,
            hmonitor,
        );
        self.pending_initial_consolidation = false;
        let published: Option<ApiState> = if self.update_tiler_border(&env.desk) {
            Some(self.publish_api_snapshot(env, cfg))
        } else {
            None
        };
        TilerUpdate::Updated { seed, snapshot, published }
    }

    /// Goes back to tiling; `false` where the program is tiling already. An
    /// update of the strip has to follow.
    pub fn switch_to_tiler_mode(&mut self) -> (switched: bool)
        requires
            old(self).wf(),
        ensures
            final(self).wf(),
            switched == !old(self).tiling(),
            *final(self) == (app::State {
                mode: if switched {
                    Mode::Tiler(State { current_border_bounds: None })
                } else {
                    old(self).mode
                },
                ..*old(self)
            }),
    {
        let tiling: bool = match &self.mode {
            Mode::Tiler(_) => true,
            _ => false,
        };
        if tiling {
            return false;
        }
        self.mode = Mode::default();
        true
    }
}

proof fn lemma_seeded_len(s: Strip, windows: Seq<Window>, desk: Desktop)
    requires
        s.wf(),
        s.windows.len() + 2 * windows.len() <= MAX_WINDOWS,
    ensures
        s.bulk_seeded(windows, desk).relaid(desk).windows.len() + windows.len() <= MAX_WINDOWS,
{
    crate::scroll_tiler::snapshot::lemma_bulk_seeded(s, windows, desk);
    let b = s.bulk_seeded(windows, desk);
    crate::scroll_tiler::layout::lemma_laid_wf(b, b.positions(desk), desk);
}

fn published_monitors(env: &Surroundings, tiling: Option<i64>, cfg: &Config) -> (r: Vec<
    MonitorSnapshot,
>)
    requires
        env.ok(),
        match tiling {
            Some(h) => hmonitor_of(*env, *cfg) == Ok::<i64, MonitorError>(h),
            None => hmonitor_of(*env, *cfg) is Err,
        },
    ensures
        r@.len() == env.monitors@.len(),
        forall|i: int|
            0 <= i < r@.len() ==> published_monitor(*env, *cfg, i, #[trigger] r@[i]),
{
    let mut out: Vec<MonitorSnapshot> = Vec::new();
    let mut i: usize = 0;
    while i < env.monitors.len()
        invariant
            i <= env.monitors@.len(),
            env.ok(),
            match tiling {
                Some(h) => hmonitor_of(*env, *cfg) == Ok::<i64, MonitorError>(h),
                None => hmonitor_of(*env, *cfg) is Err,
            },
            out@.len() == i,
            forall|j: int|
                0 <= j < i ==> published_monitor(*env, *cfg, j, #[trigger] out@[j]),
        decreases env.monitors@.len() - i,
    {
        let m: &Monitor = &env.monitors[i];
        assert(env.monitors@[i as int].ok());
        let is_tiling: bool = match tiling {
            Some(h) => h == m.hmonitor,
            None => false,
        };
        out.push(
            MonitorSnapshot {
                index: i,
                device_name: m.device_name.clone(),
                is_primary: m.is_primary,
                is_tiling,
                work_area_x: m.work_area.left,
                work_area_y: m.work_area.top,
                work_area_width: m.work_area_width(),
                work_area_height: m.work_area_height(),
            },
        );
        i = i + 1;
    }
    out
}

/// What is published of a tile, less the published scroll offset, is where the
/// layout puts it on the screen, unless it shows nothing and is parked.
pub proof fn law_published_place_is_the_place_on_screen(
    state: app::State,
    env: Surroundings,
    cfg: Config,
    api: ApiState,
    i: int,
)
    requires
        state.wf(),
        published_state(state.mode, state.tiler@, env, cfg, api),
        0 <= i < api.windows@.len(),
        !env.desk.hidden(state.tiler@.windows[i].inner),
        !state.tiler@.decision(state.tiler@.positions(env.desk), env.desk, i)->0.fully_offscreen,
    ensures
        state.tiler@.decision(state.tiler@.positions(env.desk), env.desk, i)->0.placement.x
            == api.windows@[i].x - api.scroll_offset,
{
    assert(published_window(state.tiler@, env, i, api.windows@[i]));
    crate::scroll_tiler::strip::lemma_position_bounds(
        state.tiler@.windows,
        env.desk,
        state.tiler@.padding as int,
        i,
    );
}

} // verus!
