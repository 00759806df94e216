//! The settings panel: a form that mirrors the configuration.
use vstd::prelude::*;

use crate::config::{
    add_unless_listed, grown, listed, reload, save, Config, ConfigStore, FilterConfig,
    IgnoredWindowTitle, TilingConfig,
};
use crate::geometry::step_ok;
use crate::search::{first_true, lemma_first_hit, lemma_first_miss, lemma_first_true};
use crate::text::{
    decimal, decimal_text, holds, law_pixels_read_back, pixels_decimal, pixels_text, plain_step,
    read_step, same, trim, trimmed,
};

verus! {

#[derive(Debug, Clone, Copy, PartialEq, Eq, Structural)]
pub enum SettingsTab {
    General,
    Apps,
    Excludes,
}

impl Default for SettingsTab {
    fn default() -> (r: Self)
        ensures
            r == SettingsTab::General,
    {
        SettingsTab::General
    }
}

/// What the panel shows and what is being typed into it. Numbers stay text
/// while they are edited.
#[derive(Debug)]
pub struct SettingsForm {
    pub active_tab: SettingsTab,
    pub padding: String,
    pub resize_increment: String,
    pub throttle_slow_apps: bool,
    pub ignored_processes: Vec<String>,
    pub ignored_classes: Vec<String>,
    pub ignored_window_titles: Vec<IgnoredWindowTitle>,
    pub new_process: String,
    pub new_class: String,
    pub status: Option<String>,
    /// The tiled windows when the panel was opened.
    pub current_windows: Vec<WindowInfo>,
}

#[derive(Debug)]
pub struct WindowInfo {
    pub process: String,
    pub class: String,
    pub app_name: String,
    pub title: String,
}

#[derive(Debug, Clone)]
pub enum SettingsMessage {
    TabSelected(SettingsTab),
    PaddingChanged(String),
    ResizeIncrementChanged(String),
    ThrottleSlowAppsChanged(bool),
    NewProcessChanged(String),
    AddProcess,
    AddProcessByName(String),
    RemoveProcess(usize),
    NewClassChanged(String),
    AddClass,
    AddClassByName(String),
    RemoveClass(usize),
    RemoveIgnoredWindow(usize),
    ReloadFromDisk,
    Save,
    Close,
}

/// What the host of the panel does after a message.
#[derive(Debug, Clone, Copy, PartialEq, Eq, Structural)]
pub enum SettingsEffect {
    Nothing,
    /// Close the panel.
    Close,
    /// Read the configuration file and hand it to [`SettingsForm::reloaded`].
    Reload,
    /// Build the configuration, write it, and hand the outcome to
    /// [`SettingsForm::saved`].
    Save,
}

/// What a floating-point reader makes of the two numbers of the form, for texts
/// that are no plain decimal numbers (`1e2`); `None` where the text is no number.
#[derive(Debug, Clone, Copy)]
pub struct ParsedNumbers {
    pub padding: Option<i64>,
    pub resize_increment: Option<i64>,
}

/// The length that a text of the form stands for: what it spells as a plain
/// decimal number, else what was `parsed`.
pub open spec fn length_of(text: Seq<char>, parsed: Option<i64>) -> Option<i64> {
    match plain_step(trimmed(text)) {
        Some(v) => Some(v),
        None => parsed,
    }
}

fn read_length(text: &str, parsed: Option<i64>) -> (r: Option<i64>)
    ensures
        r == length_of(text@, parsed),
{
    match read_step(trim(text).as_str()) {
        Some(v) => Some(v),
        None => parsed,
    }
}

pub open spec fn text_is(status: Option<String>, s: Seq<char>) -> bool {
    status matches Some(t) && t@ == s
}

impl SettingsForm {
    /// The form shows what `cfg` holds.
    pub open spec fn shows(self, cfg: Config) -> bool {
        &&& self.padding@ == pixels_decimal(cfg.tiling.padding as int)
        &&& self.resize_increment@ == pixels_decimal(cfg.tiling.resize_increment as int)
        &&& self.throttle_slow_apps == cfg.tiling.throttle_slow_apps
        &&& self.ignored_processes@ == cfg.filter.ignored_processes@
        &&& self.ignored_classes@ == cfg.filter.ignored_classes@
        &&& self.ignored_window_titles@ == cfg.filter.ignored_window_titles@
        &&& self.new_process@.len() == 0
        &&& self.new_class@.len() == 0
    }

    /// Nothing is filled in.
    pub open spec fn is_blank(self) -> bool {
        &&& self.active_tab == SettingsTab::General
        &&& self.padding@.len() == 0
        &&& self.resize_increment@.len() == 0
        &&& !self.throttle_slow_apps
        &&& self.ignored_processes@.len() == 0
        &&& self.ignored_classes@.len() == 0
        &&& self.ignored_window_titles@.len() == 0
        &&& self.new_process@.len() == 0
        &&& self.new_class@.len() == 0
        &&& self.status is None
        &&& self.current_windows@.len() == 0
    }

    /// An empty form.
    pub fn empty() -> (r: Self)
        ensures
            r.is_blank(),
    {
        SettingsForm {
            active_tab: SettingsTab::General,
            padding: String::new(),
            resize_increment: String::new(),
            throttle_slow_apps: false,
            ignored_processes: Vec::new(),
            ignored_classes: Vec::new(),
            ignored_window_titles: Vec::new(),
            new_process: String::new(),
            new_class: String::new(),
            status: None,
            current_windows: Vec::new(),
        }
    }

    /// A fresh form for the configuration in force.
    pub fn from_current_config(cfg: &Config, current_windows: Vec<WindowInfo>) -> (r: Self)
        ensures
            r.shows(*cfg),
            r.active_tab == SettingsTab::General,
            r.status is None,
            r.current_windows == current_windows,
    {
        let filter: FilterConfig = cfg.filter.clone();
        SettingsForm {
            active_tab: SettingsTab::General,
            padding: pixels_text(cfg.tiling.padding),
            resize_increment: pixels_text(cfg.tiling.resize_increment),
            throttle_slow_apps: cfg.tiling.throttle_slow_apps,
            ignored_processes: filter.ignored_processes,
            ignored_classes: filter.ignored_classes,
            ignored_window_titles: filter.ignored_window_titles,
            new_process: String::new(),
            new_class: String::new(),
            status: None,
            current_windows,
        }
    }

    /// The text to read the padding from.
    pub fn padding_input(&self) -> (r: String)
        ensures
            r@ == trimmed(self.padding@),
    {
        trim(self.padding.as_str())
    }

    /// The text to read the resize step from.
    pub fn resize_increment_input(&self) -> (r: String)
        ensures
            r@ == trimmed(self.resize_increment@),
    {
        trim(self.resize_increment.as_str())
    }

    /// `cfg` is what the form asks for. What the form does not show is kept
    /// as it is in `live`.
    pub open spec fn builds(self, parsed: ParsedNumbers, live: Config, cfg: Config) -> bool {
        &&& length_of(self.padding@, parsed.padding) == Some(cfg.tiling.padding)
        &&& length_of(self.resize_increment@, parsed.resize_increment) == Some(
            cfg.tiling.resize_increment,
        )
        &&& cfg.tiling.smooth_scroll == live.tiling.smooth_scroll
        &&& cfg.tiling.smooth_scroll_factor == live.tiling.smooth_scroll_factor
        &&& cfg.tiling.throttle_slow_apps == self.throttle_slow_apps
        &&& cfg.filter.ignored_processes@ == self.ignored_processes@
        &&& cfg.filter.ignored_classes@ == self.ignored_classes@
        &&& cfg.filter.ignored_window_titles@ == self.ignored_window_titles@
        &&& cfg.api == live.api
        &&& cfg.monitors == live.monitors
        &&& cfg.app_overrides@ == live.app_overrides@
    }

    /// The configuration that the form asks for, or what is wrong with it.
    pub fn build_config(&self, parsed: ParsedNumbers, live: &Config) -> (r: Result<Config, String>)
        ensures
            match r {
                Ok(cfg) => self.builds(parsed, *live, cfg),
                Err(e) => if length_of(self.padding@, parsed.padding) is None {
                    e@ == "Padding must be a number, got `"@ + self.padding@ + "`"@
                } else {
                    e@ == "Resize step must be a number, got `"@ + self.resize_increment@ + "`"@
                },
            },
            r is Ok <==> length_of(self.padding@, parsed.padding) is Some && length_of(
                self.resize_increment@,
                parsed.resize_increment,
            ) is Some,
    {
        let padding: i64 = match read_length(self.padding.as_str(), parsed.padding) {
            Some(p) => p,
            None => {
                let mut e: String = "Padding must be a number, got `".to_owned();
                e.append(self.padding.as_str());
                e.append("`");
                return Err(e);
            },
        };
        let resize_increment: i64 = match read_length(
            self.resize_increment.as_str(),
            parsed.resize_increment,
        ) {
            Some(p) => p,
            None => {
                let mut e: String = "Resize step must be a number, got `".to_owned();
                e.append(self.resize_increment.as_str());
                e.append("`");
                return Err(e);
            },
        };
        let ignored_processes: Vec<String> = self.ignored_processes.clone();
        let ignored_classes: Vec<String> = self.ignored_classes.clone();
        let ignored_window_titles: Vec<IgnoredWindowTitle> = self.ignored_window_titles.clone();
        assert(ignored_processes@ =~= self.ignored_processes@);
        assert(ignored_classes@ =~= self.ignored_classes@);
        assert(ignored_window_titles@ =~= self.ignored_window_titles@);
        let kept: Config = live.clone();
        Ok(
            Config {
                tiling: TilingConfig {
                    padding,
                    resize_increment,
                    smooth_scroll: kept.tiling.smooth_scroll,
                    smooth_scroll_factor: kept.tiling.smooth_scroll_factor,
                    throttle_slow_apps: self.throttle_slow_apps,
                },
                filter: FilterConfig { ignored_processes, ignored_classes, ignored_window_titles },
                api: kept.api,
                monitors: kept.monitors,
                app_overrides: kept.app_overrides,
            },
        )
    }

    /// Takes in the configuration file read again. Where that failed, the
    /// configuration in force stays and the form says why.
    pub fn reloaded(&mut self, store: &mut ConfigStore, loaded: Result<Config, String>)
        ensures
            match loaded {
                Err(e) => *final(store) == *old(store) && text_is(
                    final(self).status,
                    "Reload failed: "@ + e@,
                ) && *final(self) == (SettingsForm { status: final(self).status, ..*old(self) }),
                Ok(cfg) => final(store).holds(cfg) && final(self).shows(cfg) && text_is(
                    final(self).status,
                    "Reloaded from disk."@,
                ) && final(self).active_tab == old(self).active_tab && final(self).current_windows
                    == old(self).current_windows,
            },
    {
        match loaded {
            Err(e) => {
                let mut status: String = "Reload failed: ".to_owned();
                status.append(e.as_str());
                let _outcome: Result<(), String> = reload(store, Err(e));
                self.status = Some(status);
            },
            Ok(cfg) => {
                let filter: FilterConfig = cfg.filter.clone();
                self.padding = pixels_text(cfg.tiling.padding);
                self.resize_increment = pixels_text(cfg.tiling.resize_increment);
                self.throttle_slow_apps = cfg.tiling.throttle_slow_apps;
                self.ignored_processes = filter.ignored_processes;
                self.ignored_classes = filter.ignored_classes;
                self.ignored_window_titles = filter.ignored_window_titles;
                self.new_process = String::new();
                self.new_class = String::new();
                self.status = Some("Reloaded from disk.".to_owned());
                let _outcome: Result<(), String> = reload(store, Ok(cfg));
            },
        }
    }

    /// Says what is wrong with the form.
    pub fn refused(&mut self, reason: String)
        ensures
            *final(self) == (SettingsForm { status: Some(reason), ..*old(self) }),
    {
        self.status = Some(reason);
    }

    /// Takes in the outcome of writing `cfg`. Where that failed, the
    /// configuration in force stays and the form says why.
    pub fn saved(&mut self, store: &mut ConfigStore, cfg: Config, written: Result<(), String>)
        ensures
            *final(self) == (SettingsForm { status: final(self).status, ..*old(self) }),
            match written {
                Err(e) => *final(store) == *old(store) && text_is(
                    final(self).status,
                    "Save failed: "@ + e@,
                ),
                Ok(_) => final(store).holds(cfg) && text_is(
                    final(self).status,
                    "Saved. Filter changes apply now; padding/resize step take effect on winri restart."@,
                ),
            },
    {
        match save(store, cfg, written) {
            Ok(_) => {
                self.status = Some(
                    "Saved. Filter changes apply now; padding/resize step take effect on winri restart.".to_owned(),
                );
            },
            Err(e) => {
                let mut status: String = "Save failed: ".to_owned();
                status.append(e.as_str());
                self.status = Some(status);
            },
        }
    }
}

/// `after` is `before` with the text `s` added, unless `s` is empty or there
/// already.
pub open spec fn added(before: Seq<String>, after: Seq<String>, s: Seq<char>) -> bool {
    if s.len() == 0 {
        after == before
    } else {
        grown(before, after, s)
    }
}

fn add_name(list: &mut Vec<String>, name: &str)
    ensures
        added(old(list)@, final(list)@, name@),
{
    if name.unicode_len() > 0 {
        let _added: bool = add_unless_listed(list, name);
    }
}

/// `after` is `before` without its entry `i`, if there is one.
pub open spec fn removed<T>(before: Seq<T>, after: Seq<T>, i: int) -> bool {
    if i < before.len() {
        after == before.remove(i)
    } else {
        after == before
    }
}

/// The form after one message, but for the messages that read or write the
/// file.
pub open spec fn updated(before: SettingsForm, message: SettingsMessage, after: SettingsForm) -> bool {
    match message {
        SettingsMessage::TabSelected(tab) => after == (SettingsForm { active_tab: tab, ..before }),
        SettingsMessage::PaddingChanged(v) => after == (SettingsForm {
            padding: v,
            status: None,
            ..before
        }),
        SettingsMessage::ResizeIncrementChanged(v) => after == (SettingsForm {
            resize_increment: v,
            status: None,
            ..before
        }),
        SettingsMessage::ThrottleSlowAppsChanged(v) => after == (SettingsForm {
            throttle_slow_apps: v,
            status: None,
            ..before
        }),
        SettingsMessage::NewProcessChanged(v) => after == (SettingsForm {
            new_process: v,
            ..before
        }),
        SettingsMessage::AddProcess => {
            &&& after == (SettingsForm {
                ignored_processes: after.ignored_processes,
                new_process: after.new_process,
                ..before
            })
            &&& added(
                before.ignored_processes@,
                after.ignored_processes@,
                trimmed(before.new_process@),
            )
            &&& after.new_process@.len() == 0
        },
        SettingsMessage::AddProcessByName(name) => {
            &&& after == (SettingsForm { ignored_processes: after.ignored_processes, ..before })
            &&& added(before.ignored_processes@, after.ignored_processes@, name@)
        },
        SettingsMessage::RemoveProcess(i) => {
            &&& after == (SettingsForm { ignored_processes: after.ignored_processes, ..before })
            &&& removed(before.ignored_processes@, after.ignored_processes@, i as int)
        },
        SettingsMessage::NewClassChanged(v) => after == (SettingsForm { new_class: v, ..before }),
        SettingsMessage::AddClass => {
            &&& after == (SettingsForm {
                ignored_classes: after.ignored_classes,
                new_class: after.new_class,
                ..before
            })
            &&& added(
                before.ignored_classes@,
                after.ignored_classes@,
                trimmed(before.new_class@),
            )
            &&& after.new_class@.len() == 0
        },
        SettingsMessage::AddClassByName(name) => {
            &&& after == (SettingsForm { ignored_classes: after.ignored_classes, ..before })
            &&& added(before.ignored_classes@, after.ignored_classes@, name@)
        },
        SettingsMessage::RemoveClass(i) => {
            &&& after == (SettingsForm { ignored_classes: after.ignored_classes, ..before })
            &&& removed(before.ignored_classes@, after.ignored_classes@, i as int)
        },
        SettingsMessage::RemoveIgnoredWindow(i) => {
            &&& after == (SettingsForm {
                ignored_window_titles: after.ignored_window_titles,
                ..before
            })
            &&& removed(before.ignored_window_titles@, after.ignored_window_titles@, i as int)
        },
        SettingsMessage::ReloadFromDisk | SettingsMessage::Save | SettingsMessage::Close => after
            == before,
    }
}

/// Takes one message; says what the host does next.
pub fn update(form: &mut SettingsForm, message: SettingsMessage) -> (r: SettingsEffect)
    ensures
        updated(*old(form), message, *final(form)),
        r == (match message {
            SettingsMessage::ReloadFromDisk => SettingsEffect::Reload,
            SettingsMessage::Save => SettingsEffect::Save,
            SettingsMessage::Close => SettingsEffect::Close,
            _ => SettingsEffect::Nothing,
        }),
{
    match message {
        SettingsMessage::TabSelected(tab) => {
            form.active_tab = tab;
        },
        SettingsMessage::PaddingChanged(v) => {
            form.padding = v;
            form.status = None;
        },
        SettingsMessage::ResizeIncrementChanged(v) => {
            form.resize_increment = v;
            form.status = None;
        },
        SettingsMessage::ThrottleSlowAppsChanged(v) => {
            form.throttle_slow_apps = v;
            form.status = None;
        },
        SettingsMessage::NewProcessChanged(v) => {
            form.new_process = v;
        },
        SettingsMessage::AddProcess => {
            let name: String = trim(form.new_process.as_str());
            add_name(&mut form.ignored_processes, name.as_str());
            form.new_process = String::new();
        },
        SettingsMessage::AddProcessByName(name) => {
            add_name(&mut form.ignored_processes, name.as_str());
        },
        SettingsMessage::RemoveProcess(i) => {
            if i < form.ignored_processes.len() {
                let _gone: String = form.ignored_processes.remove(i);
            }
        },
        SettingsMessage::NewClassChanged(v) => {
            form.new_class = v;
        },
        SettingsMessage::AddClass => {
            let name: String = trim(form.new_class.as_str());
            add_name(&mut form.ignored_classes, name.as_str());
            form.new_class = String::new();
        },
        SettingsMessage::AddClassByName(name) => {
            add_name(&mut form.ignored_classes, name.as_str());
        },
        SettingsMessage::RemoveClass(i) => {
            if i < form.ignored_classes.len() {
                let _gone: String = form.ignored_classes.remove(i);
            }
        },
        SettingsMessage::RemoveIgnoredWindow(i) => {
            if i < form.ignored_window_titles.len() {
                let _gone: IgnoredWindowTitle = form.ignored_window_titles.remove(i);
            }
        },
        SettingsMessage::ReloadFromDisk => {
            return SettingsEffect::Reload;
        },
        SettingsMessage::Save => {
            return SettingsEffect::Save;
        },
        SettingsMessage::Close => {
            return SettingsEffect::Close;
        },
    }
    SettingsEffect::Nothing
}

/// A form that shows the configuration in force and is saved unchanged gives
/// that configuration back, what it does not show included, whatever is read
/// into texts that are no plain decimal numbers.
pub proof fn law_untouched_form_saves_the_same(
    form: SettingsForm,
    live: Config,
    parsed: ParsedNumbers,
    cfg: Config,
)
    requires
        step_ok(live.tiling.padding),
        step_ok(live.tiling.resize_increment),
        form.shows(live),
    ensures
        length_of(form.padding@, parsed.padding) is Some,
        length_of(form.resize_increment@, parsed.resize_increment) is Some,
        form.builds(parsed, live, cfg) ==> cfg.same_as(live),
{
    law_pixels_read_back(live.tiling.padding);
    law_pixels_read_back(live.tiling.resize_increment);
}

/// The windows of one executable.
#[derive(Debug, Clone, Copy, PartialEq, Eq, Structural)]
pub struct AppGroup {
    /// The first window of the group, which stands for it.
    pub first: usize,
    pub count: usize,
}

pub open spec fn group_mask(
    windows: Seq<WindowInfo>,
    groups: Seq<AppGroup>,
    process: Seq<char>,
) -> Seq<bool> {
    Seq::new(groups.len(), |k: int| windows[groups[k].first as int].process@ == process)
}

/// The groups of the first `upto` windows, in the order their first windows
/// come.
pub open spec fn grouped(windows: Seq<WindowInfo>, upto: int) -> Seq<AppGroup>
    decreases upto,
{
    if upto <= 0 {
        seq![]
    } else {
        let before = grouped(windows, upto - 1);
        match first_true(group_mask(windows, before, windows[upto - 1].process@)) {
            Some(k) => before.update(
                k,
                AppGroup { first: before[k].first, count: (before[k].count + 1) as usize },
            ),
            None => before.push(AppGroup { first: (upto - 1) as usize, count: 1 }),
        }
    }
}

/// How many of the first `upto` windows belong to an executable.
pub open spec fn windows_of(windows: Seq<WindowInfo>, process: Seq<char>, upto: int) -> nat
    decreases upto,
{
    if upto <= 0 {
        0
    } else {
        windows_of(windows, process, upto - 1) + (if windows[upto - 1].process@ == process {
            1nat
        } else {
            0nat
        })
    }
}

/// No two groups are of the same executable, and each counts all its windows.
pub proof fn law_groups_count_every_window_once(windows: Seq<WindowInfo>, upto: int)
    requires
        0 <= upto <= windows.len(),
        windows.len() <= usize::MAX,
    ensures
        forall|k: int|
            0 <= k < grouped(windows, upto).len() ==> (#[trigger] grouped(windows, upto)[k]).first
                < upto && grouped(windows, upto)[k].count == windows_of(
                windows,
                windows[grouped(windows, upto)[k].first as int].process@,
                upto,
            ) && grouped(windows, upto)[k].count <= upto,
        forall|a: int, b: int|
            0 <= a < b < grouped(windows, upto).len() ==> windows[(#[trigger] grouped(
                windows,
                upto,
            )[a]).first as int].process@ != windows[(#[trigger] grouped(
                windows,
                upto,
            )[b]).first as int].process@,
        forall|p: Seq<char>|
            (forall|k: int|
                0 <= k < grouped(windows, upto).len() ==> windows[(#[trigger] grouped(
                    windows,
                    upto,
                )[k]).first as int].process@ != p) ==> #[trigger] windows_of(windows, p, upto) == 0,
    decreases upto,
{
    if upto > 0 {
        law_groups_count_every_window_once(windows, upto - 1);
        let before = grouped(windows, upto - 1);
        let w = windows[upto - 1].process@;
        let mask = group_mask(windows, before, w);
        lemma_first_true(mask);
        let r = grouped(windows, upto);
        match first_true(mask) {
            Some(k) => {
                assert(windows[before[k].first as int].process@ == w);
                assert forall|q: int| 0 <= q < r.len() implies (#[trigger] r[q]).first < upto
                    && r[q].count == windows_of(
                    windows,
                    windows[r[q].first as int].process@,
                    upto,
                ) && r[q].count <= upto by {
                    assert(before[q].first < upto - 1);
                    if q != k {
                        if q < k {
                            assert(windows[before[q].first as int].process@
                                != windows[before[k].first as int].process@);
                        } else {
                            assert(windows[before[k].first as int].process@
                                != windows[before[q].first as int].process@);
                        }
                    }
                }
                assert forall|p: Seq<char>|
                    (forall|q: int|
                        0 <= q < r.len() ==> windows[(#[trigger] r[q]).first as int].process@
                            != p) implies #[trigger] windows_of(windows, p, upto) == 0 by {
                    assert(r[k].first == before[k].first);
                    assert forall|q: int| 0 <= q < before.len() implies windows[(
                    #[trigger] before[q]).first as int].process@ != p by {
                        assert(windows[r[q].first as int].process@ != p);
                    }
                    assert(windows_of(windows, p, upto - 1) == 0);
                }
            },
            None => {
                assert forall|q: int| 0 <= q < before.len() implies windows[(
                #[trigger] before[q]).first as int].process@ != w by {
                    assert(!mask[q]);
                }
                assert(windows_of(windows, w, upto - 1) == 0);
                assert forall|q: int| 0 <= q < r.len() implies (#[trigger] r[q]).first < upto
                    && r[q].count == windows_of(
                    windows,
                    windows[r[q].first as int].process@,
                    upto,
                ) && r[q].count <= upto by {
                    if q < before.len() {
                        assert(before[q].first < upto - 1);
                    }
                }
                assert forall|p: Seq<char>|
                    (forall|q: int|
                        0 <= q < r.len() ==> windows[(#[trigger] r[q]).first as int].process@
                            != p) implies #[trigger] windows_of(windows, p, upto) == 0 by {
                    assert(windows[r[before.len() as int].first as int].process@ != p);
                    assert forall|q: int| 0 <= q < before.len() implies windows[(
                    #[trigger] before[q]).first as int].process@ != p by {
                        assert(windows[r[q].first as int].process@ != p);
                    }
                    assert(windows_of(windows, p, upto - 1) == 0);
                }
            },
        }
    }
}

/// Puts windows of the same executable together.
pub fn group_windows(windows: &Vec<WindowInfo>) -> (r: Vec<AppGroup>)
    ensures
        r@ == grouped(windows@, windows@.len() as int),
        forall|k: int| 0 <= k < r@.len() ==> (#[trigger] r@[k]).first < windows@.len(),
{
    let mut groups: Vec<AppGroup> = Vec::new();
    let n: usize = windows.len();
    let mut i: usize = 0;
    while i < n
        invariant
            i <= n,
            windows@.len() == n,
            groups@ == grouped(windows@, i as int),
        decreases windows@.len() - i,
    {
        proof {
            law_groups_count_every_window_once(windows@, i as int);
        }
        let process: &str = windows[i].process.as_str();
        let mut k: usize = 0;
        let mut found: Option<usize> = None;
        while k < groups.len() && found.is_none()
            invariant
                k <= groups@.len(),
                i < windows@.len(),
                process@ == windows@[i as int].process@,
                forall|q: int| 0 <= q < groups@.len() ==> (#[trigger] groups@[q]).first < i,
                match found {
                    Some(f) => f < groups@.len() && first_true(
                        group_mask(windows@, groups@, process@),
                    ) == Some(f as int),
                    None => forall|q: int|
                        0 <= q < k ==> !group_mask(windows@, groups@, process@)[q],
                },
            decreases groups@.len() - k,
        {
            let g: AppGroup = groups[k];
            assert(groups@[k as int].first < i);
            if same(windows[g.first].process.as_str(), process) {
                proof {
                    lemma_first_hit(group_mask(windows@, groups@, process@), k as int);
                }
                found = Some(k);
            }
            k = k + 1;
        }
        match found {
            Some(f) => {
                let g: AppGroup = groups[f];
                assert(groups@[f as int].count <= i);
                groups[f] = AppGroup { first: g.first, count: g.count + 1 };
            },
            None => {
                proof {
                    lemma_first_miss(group_mask(windows@, groups@, process@));
                }
                groups.push(AppGroup { first: i, count: 1 });
            },
        }
        i = i + 1;
    }
    proof {
        law_groups_count_every_window_once(windows@, windows@.len() as int);
    }
    groups
}

/// The second line of a group: the title of its one window, or how many there
/// are.
pub fn group_subtitle(group: AppGroup, windows: &Vec<WindowInfo>) -> (r: String)
    requires
        group.first < windows@.len(),
    ensures
        r@ == (if group.count == 1 {
            windows@[group.first as int].title@
        } else {
            decimal(group.count as nat) + " windows"@
        }),
{
    if group.count == 1 {
        windows[group.first].title.clone()
    } else {
        let mut s: String = decimal_text(group.count as u64);
        s.append(" windows");
        s
    }
}

/// Whether the executable and the class of a group are ignored already.
pub fn group_ignored(form: &SettingsForm, group: AppGroup) -> (r: (bool, bool))
    requires
        group.first < form.current_windows@.len(),
    ensures
        r.0 == listed(
            form.ignored_processes@,
            form.current_windows@[group.first as int].process@,
        ),
        r.1 == listed(form.ignored_classes@, form.current_windows@[group.first as int].class@),
{
    let w: &WindowInfo = &form.current_windows[group.first];
    (
        holds(&form.ignored_processes, w.process.as_str()),
        holds(&form.ignored_classes, w.class.as_str()),
    )
}

/// How the class of a rule is shown.
pub fn rule_class_label(rule: &IgnoredWindowTitle) -> (r: String)
    ensures
        r@ == (match rule.class {
            Some(c) => c@,
            None => "(any class)"@,
        }),
{
    match &rule.class {
        Some(c) => c.clone(),
        None => "(any class)".to_owned(),
    }
}

/// How the title of a rule is shown.
pub fn rule_title_label(rule: &IgnoredWindowTitle) -> (r: String)
    ensures
        r@ == (match rule.title {
            Some(t) if t@.len() > 0 => t@,
            _ => "(empty title)"@,
        }),
{
    match &rule.title {
        Some(t) => if t.as_str().unicode_len() > 0 {
            t.clone()
        } else {
            "(empty title)".to_owned()
        },
        None => "(empty title)".to_owned(),
    }
}

/// A list to which a name is added holds that name, and what it held before, and
/// nothing else; an empty name is not added. A name that is there is not added
/// again.
pub proof fn law_added_names_are_listed(
    before: Seq<String>,
    after: Seq<String>,
    name: Seq<char>,
    other: Seq<char>,
)
    requires
        added(before, after, name),
    ensures
        listed(after, other) <==> listed(before, other) || (other == name && name.len() > 0),
        listed(before, name) || name.len() == 0 ==> after == before,
{
    if name.len() > 0 && !listed(before, name) {
        let n = before.len() as int;
        assert(after[n]@ == name);
        assert forall|i: int| 0 <= i < n implies #[trigger] after[i] == before[i] by {
            assert(after.drop_last()[i] == after[i]);
        }
        if listed(before, other) {
            let i = choose|i: int| 0 <= i < before.len() && #[trigger] before[i]@ == other;
            assert(after[i]@ == other);
        }
        if listed(after, other) {
            let i = choose|i: int| 0 <= i < after.len() && #[trigger] after[i]@ == other;
            if i < n {
                assert(before[i]@ == other);
            }
        }
    }
}

/// Removing an entry removes that one, and the others keep their order.
pub proof fn law_removing_takes_one_entry(before: Seq<String>, after: Seq<String>, i: int, k: int)
    requires
        0 <= i < before.len(),
        removed(before, after, i),
    ensures
        after.len() == before.len() - 1,
        0 <= k < i ==> after[k] == before[k],
        i < k < before.len() ==> after[k - 1] == before[k],
{
}

} // verus!
