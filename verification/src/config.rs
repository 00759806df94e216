//! User configuration and the process-wide slot it is kept in.
//!
//! Filter changes apply to the next window enumeration. The padding and the
//! resize step are read once, when the tiler is made.
use vstd::prelude::*;

use crate::geometry::PX;
use crate::text::{contains_ignoring_case, lowercase, occurs_in, same, starts_with};

verus! {

#[derive(Debug)]
pub struct Config {
    pub tiling: TilingConfig,
    pub filter: FilterConfig,
    pub api: ApiConfig,
    pub monitors: MonitorsConfig,
    /// Display overrides for apps whose executable name does not tell them
    /// apart.
    pub app_overrides: Vec<AppOverride>,
}

#[derive(Debug)]
pub struct AppOverride {
    /// Text that must occur in the window's full executable path, in either
    /// case.
    pub exe_path_contains: String,
    /// Name to show in place of the executable's.
    pub display_name: String,
    /// Image file to show in place of the window's own icon.
    pub icon_path: Option<String>,
}

#[derive(Debug)]
pub struct MonitorsConfig {
    /// `primary`, or the device name of the monitor that hosts the strip.
    pub tiling_monitor: String,
}

#[derive(Debug)]
pub struct ApiConfig {
    /// Whether to start the local control API.
    pub enabled: bool,
    /// Address to listen on.
    pub bind: String,
    /// TCP port to listen on.
    pub port: u16,
}

#[derive(Debug, Clone, Copy, PartialEq, Eq, Structural)]
pub struct TilingConfig {
    /// Gap between tiled windows.
    pub padding: i64,
    /// How far one resize step goes.
    pub resize_increment: i64,
    /// Animate scroll and focus changes instead of snapping.
    pub smooth_scroll: bool,
    /// Part of the way that one animation step goes, in thousandths; kept
    /// within 50 and 1000 when the tiler takes it.
    pub smooth_scroll_factor: i64,
    /// Move known-slow apps less often during a scroll.
    pub throttle_slow_apps: bool,
}

#[derive(Debug)]
pub struct FilterConfig {
    pub ignored_processes: Vec<String>,
    pub ignored_classes: Vec<String>,
    /// Rules that exempt single windows.
    pub ignored_window_titles: Vec<IgnoredWindowTitle>,
}

#[derive(Debug)]
pub struct IgnoredWindowTitle {
    pub process: String,
    /// Exact title; used when there is no `title_starts_with`.
    pub title: Option<String>,
    /// Title prefix.
    pub title_starts_with: Option<String>,
    /// When present, the window class must be equal too.
    pub class: Option<String>,
}

impl Clone for AppOverride {
    fn clone(&self) -> (r: Self)
        ensures
            r == *self,
    {
        AppOverride {
            exe_path_contains: self.exe_path_contains.clone(),
            display_name: self.display_name.clone(),
            icon_path: self.icon_path.clone(),
        }
    }
}

impl Clone for IgnoredWindowTitle {
    fn clone(&self) -> (r: Self)
        ensures
            r == *self,
    {
        IgnoredWindowTitle {
            process: self.process.clone(),
            title: self.title.clone(),
            title_starts_with: self.title_starts_with.clone(),
            class: self.class.clone(),
        }
    }
}

impl Clone for MonitorsConfig {
    fn clone(&self) -> (r: Self)
        ensures
            r == *self,
    {
        MonitorsConfig { tiling_monitor: self.tiling_monitor.clone() }
    }
}

impl Clone for ApiConfig {
    fn clone(&self) -> (r: Self)
        ensures
            r == *self,
    {
        ApiConfig { enabled: self.enabled, bind: self.bind.clone(), port: self.port }
    }
}

impl FilterConfig {
    /// Same lists, entry by entry.
    pub open spec fn same_as(self, other: Self) -> bool {
        &&& self.ignored_processes@ == other.ignored_processes@
        &&& self.ignored_classes@ == other.ignored_classes@
        &&& self.ignored_window_titles@ == other.ignored_window_titles@
    }
}

impl Clone for FilterConfig {
    fn clone(&self) -> (r: Self)
        ensures
            r.same_as(*self),
    {
        let r = FilterConfig {
            ignored_processes: self.ignored_processes.clone(),
            ignored_classes: self.ignored_classes.clone(),
            ignored_window_titles: self.ignored_window_titles.clone(),
        };
        assert(r.ignored_processes@ =~= self.ignored_processes@);
        assert(r.ignored_classes@ =~= self.ignored_classes@);
        assert(r.ignored_window_titles@ =~= self.ignored_window_titles@);
        r
    }
}

impl Config {
    pub open spec fn same_as(self, other: Self) -> bool {
        &&& self.tiling == other.tiling
        &&& self.filter.same_as(other.filter)
        &&& self.api == other.api
        &&& self.monitors == other.monitors
        &&& self.app_overrides@ == other.app_overrides@
    }

    /// What a fresh installation is configured with.
    pub open spec fn is_default(self) -> bool {
        &&& self.tiling == default_tiling()
        &&& self.filter.ignored_processes@.len() == 0
        &&& self.filter.ignored_classes@.len() == 0
        &&& self.filter.ignored_window_titles@.len() == 0
        &&& !self.api.enabled
        &&& self.api.bind@ == "127.0.0.1"@
        &&& self.api.port == 47812
        &&& self.monitors.tiling_monitor@ == "primary"@
        &&& self.app_overrides@.len() == 0
    }
}

impl Clone for Config {
    fn clone(&self) -> (r: Self)
        ensures
            r.same_as(*self),
    {
        let app_overrides: Vec<AppOverride> = self.app_overrides.clone();
        assert(app_overrides@ =~= self.app_overrides@);
        Config {
            tiling: self.tiling,
            filter: self.filter.clone(),
            api: self.api.clone(),
            monitors: self.monitors.clone(),
            app_overrides,
        }
    }
}

pub open spec fn default_tiling() -> TilingConfig {
    TilingConfig {
        padding: (10 * PX) as i64,
        resize_increment: (20 * PX) as i64,
        smooth_scroll: true,
        smooth_scroll_factor: 250,
        throttle_slow_apps: true,
    }
}

impl Default for TilingConfig {
    fn default() -> (r: Self)
        ensures
            r == default_tiling(),
    {
        TilingConfig {
            padding: 10 * PX,
            resize_increment: 20 * PX,
            smooth_scroll: true,
            smooth_scroll_factor: 250,
            throttle_slow_apps: true,
        }
    }
}

impl Default for ApiConfig {
    fn default() -> (r: Self)
        ensures
            !r.enabled,
            r.bind@ == "127.0.0.1"@,
            r.port == 47812,
    {
        ApiConfig { enabled: false, bind: "127.0.0.1".to_owned(), port: 47812 }
    }
}

impl Default for MonitorsConfig {
    fn default() -> (r: Self)
        ensures
            r.tiling_monitor@ == "primary"@,
    {
        MonitorsConfig { tiling_monitor: "primary".to_owned() }
    }
}

impl Default for FilterConfig {
    fn default() -> (r: Self)
        ensures
            r.ignored_processes@.len() == 0,
            r.ignored_classes@.len() == 0,
            r.ignored_window_titles@.len() == 0,
    {
        FilterConfig {
            ignored_processes: Vec::new(),
            ignored_classes: Vec::new(),
            ignored_window_titles: Vec::new(),
        }
    }
}

impl Default for Config {
    fn default() -> (r: Self)
        ensures
            r.is_default(),
    {
        Config {
            tiling: TilingConfig::default(),
            filter: FilterConfig::default(),
            api: ApiConfig::default(),
            monitors: MonitorsConfig::default(),
            app_overrides: Vec::new(),
        }
    }
}

impl AppOverride {
    pub open spec fn applies_to(self, exe_path: Seq<char>) -> bool {
        occurs_in(lowercase(exe_path), lowercase(self.exe_path_contains@))
    }

    /// Whether this override applies to the executable at `exe_path`. Letter
    /// case does not matter.
    pub fn matches(&self, exe_path: &str) -> (r: bool)
        ensures
            r == self.applies_to(exe_path@),
    {
        contains_ignoring_case(exe_path, self.exe_path_contains.as_str())
    }
}

/// Index of the first override that applies to `exe_path`.
pub fn find_override(overrides: &Vec<AppOverride>, exe_path: &str) -> (r: Option<usize>)
    ensures
        match r {
            Some(i) => {
                &&& i < overrides@.len()
                &&& overrides@[i as int].applies_to(exe_path@)
                &&& forall|j: int|
                    0 <= j < i ==> !(#[trigger] overrides@[j]).applies_to(exe_path@)
            },
            None => forall|j: int|
                0 <= j < overrides@.len() ==> !(#[trigger] overrides@[j]).applies_to(exe_path@),
        },
{
    let mut i: usize = 0;
    while i < overrides.len()
        invariant
            i <= overrides.len(),
            forall|j: int| 0 <= j < i ==> !(#[trigger] overrides@[j]).applies_to(exe_path@),
        decreases overrides.len() - i,
    {
        if overrides[i].matches(exe_path) {
            return Some(i);
        }
        i = i + 1;
    }
    None
}

impl IgnoredWindowTitle {
    /// The prefix decides where there is one, else the exact title; a rule with
    /// neither matches no title.
    pub open spec fn title_matches(self, title: Seq<char>) -> bool {
        match (self.title_starts_with, self.title) {
            (Some(prefix), _) => prefix@.is_prefix_of(title),
            (None, Some(exact)) => exact@ == title,
            (None, None) => false,
        }
    }

    pub open spec fn class_matches(self, class: Seq<char>) -> bool {
        match self.class {
            Some(c) => c@ == class,
            None => true,
        }
    }

    pub open spec fn applies_to(
        self,
        process: Seq<char>,
        title: Seq<char>,
        class: Seq<char>,
    ) -> bool {
        self.process@ == process && self.title_matches(title) && self.class_matches(class)
    }

    /// Whether this rule exempts the given window.
    pub fn matches(&self, process: &str, title: &str, class: &str) -> (r: bool)
        ensures
            r == self.applies_to(process@, title@, class@),
    {
        if !same(self.process.as_str(), process) {
            return false;
        }
        let title_ok: bool = match &self.title_starts_with {
            Some(prefix) => starts_with(title, prefix.as_str()),
            None => match &self.title {
                Some(exact) => same(exact.as_str(), title),
                None => false,
            },
        };
        if !title_ok {
            return false;
        }
        match &self.class {
            Some(c) => same(c.as_str(), class),
            None => true,
        }
    }
}

pub open spec fn some_rule_applies(
    rules: Seq<IgnoredWindowTitle>,
    process: Seq<char>,
    title: Seq<char>,
    class: Seq<char>,
) -> bool {
    exists|i: int| 0 <= i < rules.len() && (#[trigger] rules[i]).applies_to(process, title, class)
}

/// Whether any rule exempts the given window.
pub fn any_rule_matches(
    rules: &Vec<IgnoredWindowTitle>,
    process: &str,
    title: &str,
    class: &str,
) -> (r: bool)
    ensures
        r == some_rule_applies(rules@, process@, title@, class@),
{
    let mut i: usize = 0;
    while i < rules.len()
        invariant
            i <= rules.len(),
            forall|j: int|
                0 <= j < i ==> !(#[trigger] rules@[j]).applies_to(process@, title@, class@),
        decreases rules.len() - i,
    {
        if rules[i].matches(process, title, class) {
            return true;
        }
        i = i + 1;
    }
    false
}

impl IgnoredWindowTitle {
    /// The exact-title rule that these values make.
    pub open spec fn is_exact(
        self,
        process: Seq<char>,
        title: Seq<char>,
        class: Option<Seq<char>>,
    ) -> bool {
        &&& self.process@ == process
        &&& self.title matches Some(t) && t@ == title
        &&& self.same_class(class)
    }

    pub open spec fn same_class(self, class: Option<Seq<char>>) -> bool {
        match (self.class, class) {
            (Some(a), Some(b)) => a@ == b,
            (None, None) => true,
            _ => false,
        }
    }
}

pub open spec fn class_view(class: Option<String>) -> Option<Seq<char>> {
    match class {
        Some(c) => Some(c@),
        None => None,
    }
}

impl FilterConfig {
    /// Whether an exact-title rule with these values is in the list.
    pub open spec fn has_exact(
        self,
        process: Seq<char>,
        title: Seq<char>,
        class: Option<Seq<char>>,
    ) -> bool {
        exists|i: int|
            0 <= i < self.ignored_window_titles@.len() && (
            #[trigger] self.ignored_window_titles@[i]).is_exact(process, title, class)
    }

    /// Adds the exact-title rule for one window unless the list has it, and
    /// tells whether it was added.
    pub fn ignore_window(
        &mut self,
        process: &str,
        title: &str,
        class: Option<String>,
    ) -> (added: bool)
        ensures
            added == !old(self).has_exact(process@, title@, class_view(class)),
            final(self).ignored_processes@ == old(self).ignored_processes@,
            final(self).ignored_classes@ == old(self).ignored_classes@,
            !added ==> final(self).ignored_window_titles@ == old(self).ignored_window_titles@,
            added ==> {
                let rules = final(self).ignored_window_titles@;
                &&& rules.drop_last() == old(self).ignored_window_titles@
                &&& rules.len() == old(self).ignored_window_titles@.len() + 1
                &&& rules.last().is_exact(process@, title@, class_view(class))
                &&& rules.last().title_starts_with is None
            },
    {
        let mut i: usize = 0;
        while i < self.ignored_window_titles.len()
            invariant
                i <= self.ignored_window_titles.len(),
                *self == *old(self),
                forall|j: int|
                    0 <= j < i ==> !(#[trigger] self.ignored_window_titles@[j]).is_exact(
                        process@,
                        title@,
                        class_view(class),
                    ),
            decreases self.ignored_window_titles.len() - i,
        {
            let e: &IgnoredWindowTitle = &self.ignored_window_titles[i];
            let title_same: bool = match &e.title {
                Some(t) => same(t.as_str(), title),
                None => false,
            };
            let class_same: bool = match (&e.class, &class) {
                (Some(a), Some(b)) => same(a.as_str(), b.as_str()),
                (None, None) => true,
                _ => false,
            };
            if same(e.process.as_str(), process) && title_same && class_same {
                return false;
            }
            i = i + 1;
        }
        self.ignored_window_titles.push(
            IgnoredWindowTitle {
                process: process.to_owned(),
                title: Some(title.to_owned()),
                title_starts_with: None,
                class,
            },
        );
        assert(self.ignored_window_titles@.drop_last() =~= old(self).ignored_window_titles@);
        true
    }

    /// Adds `process` to the ignored executables unless it is there, and tells
    /// whether it was added.
    pub fn ignore_process(&mut self, process: &str) -> (added: bool)
        ensures
            added == !listed(old(self).ignored_processes@, process@),
            final(self).ignored_classes@ == old(self).ignored_classes@,
            final(self).ignored_window_titles@ == old(self).ignored_window_titles@,
            grown(old(self).ignored_processes@, final(self).ignored_processes@, process@),
    {
        add_unless_listed(&mut self.ignored_processes, process)
    }
}

/// Whether the list holds the text `s`.
pub open spec fn listed(list: Seq<String>, s: Seq<char>) -> bool {
    exists|i: int| 0 <= i < list.len() && #[trigger] list[i]@ == s
}

/// `after` is `before` with `s` at its end, unless `before` holds `s` already.
pub open spec fn grown(before: Seq<String>, after: Seq<String>, s: Seq<char>) -> bool {
    if listed(before, s) {
        after == before
    } else {
        &&& after.len() == before.len() + 1
        &&& after.drop_last() == before
        &&& after.last()@ == s
    }
}

pub fn add_unless_listed(list: &mut Vec<String>, s: &str) -> (added: bool)
    ensures
        added == !listed(old(list)@, s@),
        grown(old(list)@, final(list)@, s@),
{
    if crate::text::holds(list, s) {
        false
    } else {
        list.push(s.to_owned());
        assert(list@.drop_last() =~= old(list)@);
        true
    }
}

/// Once a window has been ignored by its title, the rules exempt it.
pub proof fn law_ignored_window_is_exempt(
    rules: Seq<IgnoredWindowTitle>,
    i: int,
    process: Seq<char>,
    title: Seq<char>,
    class: Seq<char>,
    with_class: bool,
)
    requires
        0 <= i < rules.len(),
        rules[i].is_exact(process, title, if with_class { Some(class) } else { None }),
        rules[i].title_starts_with is None,
    ensures
        some_rule_applies(rules, process, title, class),
{
    assert(rules[i].applies_to(process, title, class));
}

/// What looking for the configuration file came to.
#[derive(Debug)]
pub enum ConfigFile {
    /// There is no file yet.
    Missing,
    /// The file was read and parsed.
    Parsed(Config),
    /// The file could not be read or parsed.
    Broken(String),
}

/// A configuration to take over, and whether the default file has to be
/// written.
#[derive(Debug)]
pub struct Loaded {
    pub config: Config,
    pub write_default_file: bool,
}

/// Turns what was found on disk into a configuration.
pub fn load_from_disk(file: ConfigFile) -> (r: Result<Loaded, String>)
    ensures
        match file {
            ConfigFile::Missing => r matches Ok(l) && l.write_default_file && l.config.is_default(),
            ConfigFile::Parsed(c) => r == Ok::<Loaded, String>(
                Loaded { config: c, write_default_file: false },
            ),
            ConfigFile::Broken(e) => r == Err::<Loaded, String>(e),
        },
{
    match file {
        ConfigFile::Missing => Ok(Loaded { config: Config::default(), write_default_file: true }),
        ConfigFile::Parsed(config) => Ok(Loaded { config, write_default_file: false }),
        ConfigFile::Broken(e) => Err(e),
    }
}

/// The slot that holds the configuration in force. It is empty until the first
/// one is stored; readers of an empty slot see the defaults.
#[derive(Debug)]
pub struct ConfigStore {
    pub slot: Option<Config>,
}

impl ConfigStore {
    pub open spec fn holds(self, c: Config) -> bool {
        self.slot == Some(c)
    }

    /// The slot after a configuration was to be taken over; where there is none
    /// to take over, nothing changes.
    pub open spec fn taking(self, outcome: Result<Config, String>) -> Self {
        match outcome {
            Ok(c) => ConfigStore { slot: Some(c) },
            Err(_) => self,
        }
    }
}

/// Stores a loaded configuration; a failed load changes nothing.
pub fn init(store: &mut ConfigStore, loaded: Result<Config, String>) -> (r: Result<(), String>)
    ensures
        *final(store) == old(store).taking(loaded),
        match loaded {
            Ok(_) => r is Ok,
            Err(e) => r == Err::<(), String>(e),
        },
{
    match loaded {
        Ok(cfg) => {
            store.slot = Some(cfg);
            Ok(())
        },
        Err(e) => Err(e),
    }
}

/// Stores a configuration that was read again; a failed load keeps the one in
/// force.
pub fn reload(store: &mut ConfigStore, loaded: Result<Config, String>) -> (r: Result<(), String>)
    ensures
        *final(store) == old(store).taking(loaded),
        match loaded {
            Ok(_) => r is Ok,
            Err(e) => r == Err::<(), String>(e),
        },
{
    init(store, loaded)
}

/// What saving `cfg` has to take over, by how writing the file went.
pub open spec fn saving(cfg: Config, written: Result<(), String>) -> Result<Config, String> {
    match written {
        Ok(_) => Ok(cfg),
        Err(e) => Err(e),
    }
}

/// Takes over a configuration once it has been written; where the write failed
/// the one in force stays.
pub fn save(store: &mut ConfigStore, cfg: Config, written: Result<(), String>) -> (r: Result<
    (),
    String,
>)
    ensures
        *final(store) == old(store).taking(saving(cfg, written)),
        match written {
            Ok(_) => r is Ok,
            Err(e) => r == Err::<(), String>(e),
        },
{
    match written {
        Ok(()) => {
            store.slot = Some(cfg);
            Ok(())
        },
        Err(e) => Err(e),
    }
}

/// `c` is the configuration in force.
pub open spec fn in_force(store: ConfigStore, c: Config) -> bool {
    match store.slot {
        Some(s) => c.same_as(s),
        None => c.is_default(),
    }
}

/// What was stored is what is in force, and nothing else is.
pub proof fn law_stored_config_is_in_force(store: ConfigStore, stored: Config, read: Config)
    requires
        store.holds(stored),
        in_force(store, read),
    ensures
        read.same_as(stored),
{
}

/// A configuration that was saved is in force, and stays so when the file is read
/// again: where the file gives back what was written, and where it cannot be
/// read. A configuration that could not be written leaves the one in force
/// before, also when the file, which then still holds that one, is read again.
pub proof fn law_saved_config_outlives_a_reload(
    before: ConfigStore,
    cfg: Config,
    written: Result<(), String>,
    read: Result<Config, String>,
    seen: Config,
)
    requires
        read matches Ok(c) ==> if written is Ok {
            c.same_as(cfg)
        } else {
            in_force(before, c)
        },
    ensures
        written is Ok ==> before.taking(saving(cfg, written)).holds(cfg),
        written is Err ==> before.taking(saving(cfg, written)) == before,
        in_force(before.taking(saving(cfg, written)).taking(read), seen) ==> if written is Ok {
            seen.same_as(cfg)
        } else {
            in_force(before, seen)
        },
{
}

/// A copy of the configuration in force.
pub fn current(store: &ConfigStore) -> (r: Config)
    ensures
        in_force(*store, r),
{
    match &store.slot {
        Some(c) => c.clone(),
        None => Config::default(),
    }
}

/// Without a configuration the gaps are ten pixels wide, a resize step is twenty,
/// scrolling is smoothed by a quarter of the way per frame, and slow applications
/// are spared.
pub proof fn law_default_tiling()
    ensures
        default_tiling().padding == 10_000,
        default_tiling().resize_increment == 20_000,
        default_tiling().smooth_scroll,
        default_tiling().smooth_scroll_factor == 250,
        default_tiling().throttle_slow_apps,
{
}

} // verus!
