use winri::config::{
    add_unless_listed, any_rule_matches, current, find_override, init, load_from_disk, reload,
    save, ApiConfig, AppOverride, Config, ConfigFile, ConfigStore, FilterConfig,
    IgnoredWindowTitle, MonitorsConfig, TilingConfig,
};
use winri::saving::SaveStage;

fn rule(
    process: &str,
    title: Option<&str>,
    prefix: Option<&str>,
    class: Option<&str>,
) -> IgnoredWindowTitle {
    IgnoredWindowTitle {
        process: process.to_string(),
        title: title.map(|t| t.to_string()),
        title_starts_with: prefix.map(|t| t.to_string()),
        class: class.map(|t| t.to_string()),
    }
}

fn app_override(contains: &str, name: &str) -> AppOverride {
    AppOverride {
        exe_path_contains: contains.to_string(),
        display_name: name.to_string(),
        icon_path: None,
    }
}

#[test]
fn a_fresh_installation_has_the_documented_defaults() {
    let c: Config = Config::default();
    assert_eq!(c.tiling.padding, 10_000);
    assert_eq!(c.tiling.resize_increment, 20_000);
    assert!(c.tiling.smooth_scroll);
    assert_eq!(c.tiling.smooth_scroll_factor, 250);
    assert!(c.tiling.throttle_slow_apps);
    assert!(!c.api.enabled);
    assert_eq!(c.api.bind, "127.0.0.1");
    assert_eq!(c.api.port, 47812);
    assert_eq!(c.monitors.tiling_monitor, "primary");
    assert!(c.filter.ignored_processes.is_empty());
    assert!(c.filter.ignored_classes.is_empty());
    assert!(c.filter.ignored_window_titles.is_empty());
    assert!(c.app_overrides.is_empty());
    assert_eq!(TilingConfig::default(), c.tiling);
    assert_eq!(ApiConfig::default().port, 47812);
    assert_eq!(MonitorsConfig::default().tiling_monitor, "primary");
    assert!(FilterConfig::default().ignored_classes.is_empty());
}

#[test]
fn an_override_applies_whatever_the_letter_case() {
    let o: AppOverride = app_override("Photon-Fleet", "Photon");
    assert!(o.matches("C:/Users/me/AppData/photon-fleet/electron.exe"));
    assert!(!o.matches("C:/Users/me/AppData/other/electron.exe"));
}

#[test]
fn the_first_override_that_applies_is_found() {
    let list: Vec<AppOverride> = vec![
        app_override("nothing", "A"),
        app_override("fleet", "B"),
        app_override("photon", "C"),
    ];
    assert_eq!(find_override(&list, "C:/photon-fleet/electron.exe"), Some(1));
    assert_eq!(find_override(&list, "C:/x.exe"), None);
}

#[test]
fn a_prefix_decides_before_an_exact_title() {
    let r: IgnoredWindowTitle = rule("a.exe", Some("exact"), Some("pre"), None);
    assert!(r.matches("a.exe", "prefix of it", "C"));
    assert!(!r.matches("a.exe", "exact", "C"));
    assert!(!r.matches("b.exe", "prefix", "C"));
}

#[test]
fn an_exact_title_must_be_equal_and_so_must_a_class() {
    let r: IgnoredWindowTitle = rule("a.exe", Some("exact"), None, Some("Klass"));
    assert!(r.matches("a.exe", "exact", "Klass"));
    assert!(!r.matches("a.exe", "exact", "Other"));
    assert!(!r.matches("a.exe", "exactly", "Klass"));
}

#[test]
fn a_rule_without_any_title_matches_nothing() {
    assert!(!rule("a.exe", None, None, None).matches("a.exe", "", ""));
}

#[test]
fn one_matching_rule_is_enough() {
    let rules: Vec<IgnoredWindowTitle> =
        vec![rule("a.exe", Some("x"), None, None), rule("a.exe", Some("y"), None, None)];
    assert!(any_rule_matches(&rules, "a.exe", "y", ""));
    assert!(!any_rule_matches(&rules, "a.exe", "z", ""));
}

#[test]
fn an_ignored_window_is_exempt_from_then_on() {
    let mut f: FilterConfig = FilterConfig::default();
    assert!(f.ignore_window("a.exe", "Popup", Some("K".to_string())));
    assert!(any_rule_matches(&f.ignored_window_titles, "a.exe", "Popup", "K"));
    assert!(!f.ignore_window("a.exe", "Popup", Some("K".to_string())));
    assert_eq!(f.ignored_window_titles.len(), 1);
    assert!(f.ignore_window("a.exe", "Popup", None));
    assert_eq!(f.ignored_window_titles.len(), 2);
    assert!(any_rule_matches(&f.ignored_window_titles, "a.exe", "Popup", "another"));
}

#[test]
fn a_process_is_listed_once() {
    let mut f: FilterConfig = FilterConfig::default();
    assert!(f.ignore_process("a.exe"));
    assert!(!f.ignore_process("a.exe"));
    assert_eq!(f.ignored_processes, vec!["a.exe".to_string()]);
    let mut list: Vec<String> = vec!["x".to_string()];
    assert!(add_unless_listed(&mut list, "y"));
    assert_eq!(list, vec!["x".to_string(), "y".to_string()]);
}

#[test]
fn a_missing_file_gives_the_defaults_and_is_written() {
    let loaded = load_from_disk(ConfigFile::Missing).unwrap();
    assert!(loaded.write_default_file);
    assert_eq!(loaded.config.api.port, 47812);
}

#[test]
fn a_parsed_file_is_taken_and_a_broken_one_reported() {
    let mut c: Config = Config::default();
    c.api.port = 9;
    let loaded = load_from_disk(ConfigFile::Parsed(c)).unwrap();
    assert!(!loaded.write_default_file);
    assert_eq!(loaded.config.api.port, 9);
    assert_eq!(load_from_disk(ConfigFile::Broken("bad".to_string())).unwrap_err(), "bad");
}

#[test]
fn what_is_saved_is_what_is_in_force() {
    let mut store: ConfigStore = ConfigStore { slot: None };
    assert_eq!(current(&store).api.port, 47812);
    let mut c: Config = Config::default();
    c.api.port = 1;
    assert!(init(&mut store, Ok(c.clone())).is_ok());
    assert_eq!(current(&store).api.port, 1);
    c.api.port = 2;
    assert!(reload(&mut store, Ok(c.clone())).is_ok());
    assert_eq!(current(&store).api.port, 2);
    c.api.port = 3;
    assert!(save(&mut store, c, Ok(())).is_ok());
    assert_eq!(current(&store).api.port, 3);
}

#[test]
fn a_failure_leaves_the_configuration_in_force() {
    let mut c: Config = Config::default();
    c.api.port = 5;
    let mut store: ConfigStore = ConfigStore { slot: Some(c) };
    assert_eq!(init(&mut store, Err("a".to_string())), Err("a".to_string()));
    assert_eq!(reload(&mut store, Err("b".to_string())), Err("b".to_string()));
    assert_eq!(
        save(&mut store, Config::default(), Err("c".to_string())),
        Err("c".to_string())
    );
    assert_eq!(current(&store).api.port, 5);
}

#[test]
fn a_saved_configuration_outlives_a_reload() {
    let mut store: ConfigStore = ConfigStore { slot: None };
    let mut c: Config = Config::default();
    c.api.port = 7;
    assert!(save(&mut store, c.clone(), Ok(())).is_ok());
    assert!(reload(&mut store, Ok(c.clone())).is_ok());
    assert_eq!(current(&store).api.port, 7);
    assert!(reload(&mut store, Err("gone".to_string())).is_err());
    assert_eq!(current(&store).api.port, 7);
    c.api.port = 8;
    assert!(save(&mut store, c, Err("full".to_string())).is_err());
    assert_eq!(current(&store).api.port, 7);
}

#[test]
fn the_file_is_replaced_only_after_the_text_is_written() {
    let mut stage: SaveStage = SaveStage::CreateDirectory;
    let mut seen: Vec<SaveStage> = Vec::new();
    while stage != SaveStage::Finished {
        seen.push(stage);
        stage = stage.next(Ok(())).unwrap();
    }
    assert_eq!(
        seen,
        vec![
            SaveStage::CreateDirectory,
            SaveStage::Serialize,
            SaveStage::WriteTemp,
            SaveStage::Rename,
        ]
    );
    assert_eq!(SaveStage::WriteTemp.next(Err("full".to_string())), Err("full".to_string()));
}
