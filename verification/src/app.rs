//! The program as a whole: its mode, its windows and what it does about the
//! messages it gets.
use vstd::prelude::*;

use crate::app::settings::{SettingsForm, SettingsTab, WindowInfo};
use crate::config::Config;
use crate::geometry::{clamped, step_ok, Size};
use crate::monitor::Monitor;
use crate::scroll_tiler::item::WindowItem;
use crate::scroll_tiler::strip::Strip;
use crate::scroll_tiler::ScrollTiler;
use crate::text::{capitalized, display_name_from_process, exe_stem, shorten, shortened};
use crate::window::{Desktop, Window};

pub mod action;
pub mod laws;
pub mod messages;
pub mod overview;
pub mod overview_mode;
pub mod settings;
pub mod task;
pub mod tiling;
pub mod view;

verus! {

/// One look at everything around the program.
#[derive(Debug)]
pub struct Surroundings {
    pub desk: Desktop,
    pub monitors: Vec<Monitor>,
    /// The windows could be enumerated.
    pub enumerated: bool,
}

impl Surroundings {
    pub open spec fn ok(self) -> bool {
        &&& self.monitors@.len() <= u32::MAX
        &&& forall|i: int| 0 <= i < self.monitors@.len() ==> (#[trigger] self.monitors@[i]).ok()
    }
}

#[derive(Debug)]
pub enum Mode {
    Tiler(tiling::State),
    Overview(overview::State),
    Exit,
}

impl Default for Mode {
    fn default() -> (r: Self)
        ensures
            r == Mode::Tiler(tiling::State { current_border_bounds: None }),
    {
        Mode::Tiler(tiling::State { current_border_bounds: None })
    }
}

#[derive(Debug)]
pub struct State {
    pub tiler: ScrollTiler,
    pub mode: Mode,
    pub overlay_window_id: u64,
    pub settings_window_id: Option<u64>,
    pub settings_form: SettingsForm,
    /// Until the first update, every window is tiled whatever monitor it is
    /// on.
    pub pending_initial_consolidation: bool,
    /// From the decision to open the overview until it is open or has failed.
    pub overview_opening: bool,
}

/// What opening the settings comes to.
#[derive(Debug, Clone, Copy, PartialEq, Eq, Structural)]
pub enum SettingsOpening {
    /// The panel is there: give it the focus.
    Focus { window_id: u64 },
    /// The overview is open or about to be.
    Suppressed,
    /// Open the panel.
    Open { window_id: u64 },
}

/// Characters of a title that the settings show.
pub const MAX_TITLE_CHARS: usize = 70;

/// What the settings show of a window, as texts.
pub struct InfoText {
    pub process: Seq<char>,
    pub class: Seq<char>,
    pub app_name: Seq<char>,
    pub title: Seq<char>,
}

/// The title of a window; empty where it has none or it is not known.
pub open spec fn title_text(desk: Desktop, w: Window) -> Seq<char> {
    match desk.facts(w) {
        Some(o) => match o.title {
            Some(Some(t)) if desk.valid(w) => t@,
            _ => seq![],
        },
        None => seq![],
    }
}

/// What the settings show of a window; `None` where its executable or its
/// class is not known.
pub open spec fn info_text(desk: Desktop, w: Window) -> Option<InfoText> {
    match (desk.process_of(w), desk.class_of(w)) {
        (Some(process), Some(class)) => Some(
            InfoText {
                process,
                class,
                app_name: capitalized(exe_stem(process)),
                title: shortened(title_text(desk, w), MAX_TITLE_CHARS as nat),
            },
        ),
        _ => None,
    }
}

/// What the settings show of the first `upto` tiles.
pub open spec fn info_texts(desk: Desktop, windows: Seq<WindowItem>, upto: int) -> Seq<InfoText>
    decreases upto,
{
    if upto <= 0 {
        seq![]
    } else {
        let before = info_texts(desk, windows, upto - 1);
        match info_text(desk, windows[upto - 1].inner) {
            Some(t) => before.push(t),
            None => before,
        }
    }
}

pub open spec fn infos_read_as(infos: Seq<WindowInfo>, texts: Seq<InfoText>) -> bool {
    &&& infos.len() == texts.len()
    &&& forall|i: int|
        0 <= i < infos.len() ==> (#[trigger] infos[i]).process@ == texts[i].process
            && infos[i].class@ == texts[i].class && infos[i].app_name@ == texts[i].app_name
            && infos[i].title@ == texts[i].title
}

/// The title of a window; empty where it has none or it is not known.
pub fn title_or_empty(w: Window, desk: &Desktop) -> (r: String)
    ensures
        r@ == title_text(*desk, w),
{
    match w.title(desk) {
        Some(Some(t)) => {
            return t;
        },
        _ => {},
    }
    let r: String = String::new();
    assert(r@ =~= seq![]);
    r
}

impl State {
    pub open spec fn wf(self) -> bool {
        &&& self.tiler.wf()
        &&& self.mode matches Mode::Overview(o) ==> o.wf()
    }

    pub open spec fn tiling(self) -> bool {
        self.mode is Tiler
    }

    pub open spec fn in_overview(self) -> bool {
        self.mode is Overview
    }

    pub fn new(cfg: &Config, screen_size: Size, mouse_held: bool, overlay_window_id: u64) -> (r:
        Self)
        requires
            step_ok(cfg.tiling.padding),
            step_ok(cfg.tiling.resize_increment),
            screen_size.ok(),
        ensures
            r.wf(),
            r.tiler@ == (Strip {
                smooth_scroll_enabled: cfg.tiling.smooth_scroll,
                smooth_scroll_factor: clamped(
                    cfg.tiling.smooth_scroll_factor as int,
                    50,
                    1000,
                ) as u32,
                throttle_slow_apps: cfg.tiling.throttle_slow_apps,
                ..Strip::fresh(
                    cfg.tiling.padding,
                    cfg.tiling.resize_increment,
                    screen_size,
                    mouse_held,
                )
            }),
            r.mode == Mode::Tiler(tiling::State { current_border_bounds: None }),
            r.overlay_window_id == overlay_window_id,
            r.settings_window_id is None,
            r.settings_form.is_blank(),
            r.pending_initial_consolidation,
            !r.overview_opening,
    {
        let mut tiler: ScrollTiler = ScrollTiler::new(
            cfg.tiling.padding,
            cfg.tiling.resize_increment,
            screen_size,
            mouse_held,
        );
        tiler.set_smoothing(cfg.tiling.smooth_scroll, cfg.tiling.smooth_scroll_factor);
        tiler.set_throttle_slow_apps(cfg.tiling.throttle_slow_apps);
        State {
            tiler,
            mode: Mode::default(),
            overlay_window_id,
            settings_window_id: None,
            settings_form: SettingsForm::empty(),
            pending_initial_consolidation: true,
            overview_opening: false,
        }
    }

    /// What the settings show of the tiled windows. Windows that cannot be
    /// looked into are left out.
    pub fn snapshot_tiled_windows_for_settings(&self, desk: &Desktop) -> (r: Vec<WindowInfo>)
        ensures
            infos_read_as(
                r@,
                info_texts(*desk, self.tiler@.windows, self.tiler@.windows.len() as int),
            ),
    {
        let mut out: Vec<WindowInfo> = Vec::new();
        let mut i: usize = 0;
        while i < self.tiler.windows.len()
            invariant
                i <= self.tiler@.windows.len(),
                infos_read_as(out@, info_texts(*desk, self.tiler@.windows, i as int)),
            decreases self.tiler@.windows.len() - i,
        {
            let w: Window = self.tiler.windows[i].inner;
            match (w.process_name(desk), w.class(desk)) {
                (Some(process), Some(class)) => {
                    let title: String = title_or_empty(w, desk);
                    out.push(
                        WindowInfo {
                            app_name: display_name_from_process(process.as_str()),
                            process,
                            class,
                            title: shorten(title.as_str(), MAX_TITLE_CHARS),
                        },
                    );
                },
                _ => {},
            }
            i = i + 1;
        }
        out
    }

    pub open spec fn settings_opening(self, new_id: u64) -> SettingsOpening {
        match self.settings_window_id {
            Some(id) => SettingsOpening::Focus { window_id: id },
            None => if self.in_overview() || self.overview_opening {
                SettingsOpening::Suppressed
            } else {
                SettingsOpening::Open { window_id: new_id }
            },
        }
    }

    /// `after` is what asking for the settings leads to: a fresh form where a
    /// window is opened for it, else nothing.
    pub open spec fn settings_opened(
        self,
        cfg: Config,
        desk: Desktop,
        new_id: u64,
        after: State,
    ) -> bool {
        if self.settings_opening(new_id) is Open {
            &&& after == (State {
                settings_window_id: Some(new_id),
                settings_form: after.settings_form,
                ..self
            })
            &&& after.settings_form.shows(cfg)
            &&& after.settings_form.active_tab == SettingsTab::General
            &&& after.settings_form.status is None
            &&& infos_read_as(
                after.settings_form.current_windows@,
                info_texts(desk, self.tiler@.windows, self.tiler@.windows.len() as int),
            )
        } else {
            after == self
        }
    }

    /// Opens the settings in the window `new_id`, unless they are open already
    /// or the overview is in the way: the two at once would leave no way out.
    pub fn open_settings(&mut self, cfg: &Config, desk: &Desktop, new_id: u64) -> (r:
        SettingsOpening)
        requires
            old(self).wf(),
        ensures
            final(self).wf(),
            r == old(self).settings_opening(new_id),
            old(self).settings_opened(*cfg, *desk, new_id, *final(self)),
    {
        match self.settings_window_id {
            Some(window_id) => {
                return SettingsOpening::Focus { window_id };
            },
            None => {},
        }
        let overview: bool = match &self.mode {
            Mode::Overview(_) => true,
            _ => false,
        };
        if overview || self.overview_opening {
            return SettingsOpening::Suppressed;
        }
        let windows: Vec<WindowInfo> = self.snapshot_tiled_windows_for_settings(desk);
        self.settings_form = SettingsForm::from_current_config(cfg, windows);
        self.settings_window_id = Some(new_id);
        SettingsOpening::Open { window_id: new_id }
    }

    /// The window to close with the settings.
    pub fn close_settings(&mut self) -> (r: Option<u64>)
        ensures
            r == old(self).settings_window_id,
            *final(self) == (State { settings_window_id: None, ..*old(self) }),
    {
        let id: Option<u64> = self.settings_window_id;
        self.settings_window_id = None;
        id
    }
}

/// Why the focused window could not be ignored.
#[derive(Debug, Clone, Copy, PartialEq, Eq, Structural)]
pub enum IgnoreError {
    NoFocusedWindow,
    UnknownClass,
}

/// The texts by which a window is ignored.
pub open spec fn class_text(desk: Desktop, w: Window) -> Seq<char> {
    match desk.class_of(w) {
        Some(c) => c,
        None => seq![],
    }
}

pub open spec fn process_text(desk: Desktop, w: Window) -> Seq<char> {
    match desk.process_of(w) {
        Some(p) => p,
        None => seq![],
    }
}

/// `after` is `before` with one exact rule added to the filter.
pub open spec fn rule_added(
    before: Config,
    after: Config,
    process: Seq<char>,
    title: Seq<char>,
    class: Option<Seq<char>>,
) -> bool {
    let rules = after.filter.ignored_window_titles@;
    &&& after.tiling == before.tiling
    &&& after.api == before.api
    &&& after.monitors == before.monitors
    &&& after.app_overrides@ == before.app_overrides@
    &&& after.filter.ignored_processes@ == before.filter.ignored_processes@
    &&& after.filter.ignored_classes@ == before.filter.ignored_classes@
    &&& rules.len() == before.filter.ignored_window_titles@.len() + 1
    &&& rules.drop_last() == before.filter.ignored_window_titles@
    &&& rules.last().is_exact(process, title, class)
    &&& rules.last().title_starts_with is None
}

impl State {
    /// The configuration that keeps the focused window, known by its executable,
    /// class and title, out of the strip. `Ok(None)` where there is nothing to
    /// write: the executable or the class is empty, or the rule is there.
    pub fn ignore_focused_window_by_class(&self, cfg: &Config, desk: &Desktop) -> (r: Result<
        Option<Config>,
        IgnoreError,
    >)
        ensures
            match desk.foreground {
                None => r matches Err(e) && e == IgnoreError::NoFocusedWindow,
                Some(w) => match desk.class_of(w) {
                    None => r matches Err(e) && e == IgnoreError::UnknownClass,
                    Some(class) => {
                        let process = process_text(*desk, w);
                        let title = title_text(*desk, w);
                        let skip = process.len() == 0 || class.len() == 0 || cfg.filter.has_exact(
                            process,
                            title,
                            Some(class),
                        );
                        match r {
                            Ok(None) => skip,
                            Ok(Some(c)) => !skip && rule_added(*cfg, c, process, title, Some(class)),
                            Err(_) => false,
                        }
                    },
                },
            },
    {
        let w: Window = match Window::focused(desk) {
            Some(w) => w,
            None => {
                return Err(IgnoreError::NoFocusedWindow);
            },
        };
        let class: String = match w.class(desk) {
            Some(c) => c,
            None => {
                return Err(IgnoreError::UnknownClass);
            },
        };
        let process: String = overview::process_or_empty(w, desk);
        let title: String = title_or_empty(w, desk);
        if process.as_str().unicode_len() == 0 || class.as_str().unicode_len() == 0 {
            return Ok(None);
        }
        let mut changed: Config = cfg.clone();
        if changed.filter.ignore_window(process.as_str(), title.as_str(), Some(class)) {
            Ok(Some(changed))
        } else {
            Ok(None)
        }
    }
}

/// How opaque the focus border is after so many nanoseconds without motion, in
/// millionths. It is hidden at first and then fades in; without any motion so
/// far it shows in full.
pub open spec fn border_opacity(since_motion: Option<u64>) -> int {
    match since_motion {
        None => 1_000_000,
        Some(t) => if t < crate::scroll_tiler::BORDER_SETTLE_GRACE {
            0
        } else {
            clamped(
                (t - crate::scroll_tiler::BORDER_SETTLE_GRACE) * 1_000_000
                    / crate::scroll_tiler::BORDER_FADE_IN as int,
                0,
                1_000_000,
            )
        },
    }
}

pub fn border_alpha(since_motion: Option<u64>) -> (r: u32)
    ensures
        r == border_opacity(since_motion),
{
    match since_motion {
        None => 1_000_000,
        Some(t) => {
            if t < crate::scroll_tiler::BORDER_SETTLE_GRACE {
                return 0;
            }
            let past: u64 = t - crate::scroll_tiler::BORDER_SETTLE_GRACE;
            if past >= crate::scroll_tiler::BORDER_FADE_IN {
                return 1_000_000;
            }
            (past * 1_000_000 / crate::scroll_tiler::BORDER_FADE_IN) as u32
        },
    }
}

/// Whether a border that opaque is drawn at all.
pub fn border_shows(alpha: u32) -> (r: bool)
    ensures
        r == (alpha > 1_000),
{
    alpha > 1_000
}

} // verus!
