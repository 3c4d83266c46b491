use clovis::app_ref::{
    availability_check, classify, default_desktop_dirs, desktop_candidates, process_search_term,
    AppKind, AvailabilityCheck,
};
use clovis::config::{Config, ConfigError};

fn strings(items: &[&str]) -> Vec<String> {
    items.iter().map(|s| s.to_string()).collect()
}

fn entries(items: &[(&str, &[&str])]) -> Vec<(String, Vec<String>)> {
    items.iter().map(|(n, a)| (n.to_string(), strings(a))).collect()
}

#[test]
fn classify_desktop_suffix() {
    assert_eq!(classify("foo.desktop"), AppKind::Desktop);
    assert_eq!(classify(".desktop"), AppKind::Desktop);
    assert_eq!(classify("foo"), AppKind::Command);
    assert_eq!(classify("desktop"), AppKind::Command);
    assert_eq!(classify("foo.desktop.bak"), AppKind::Command);
    assert_eq!(classify(""), AppKind::Command);
}

#[test]
fn search_term_strips_desktop_suffix() {
    assert_eq!(process_search_term("firefox.desktop"), "firefox");
    assert_eq!(process_search_term("firefox"), "firefox");
    assert_eq!(process_search_term(".desktop"), "");
}

#[test]
fn default_dirs_in_order() {
    let dirs = default_desktop_dirs("/home/u");
    assert_eq!(
        dirs,
        strings(&[
            "/usr/share/applications",
            "/usr/local/share/applications",
            "/home/u/.local/share/applications",
            "/run/current-system/sw/share/applications",
            "/home/u/.nix-profile/share/applications",
        ])
    );
}

#[test]
fn candidates_one_per_dir() {
    let dirs = strings(&["/a", "/b/c"]);
    assert_eq!(
        desktop_candidates(&dirs, "x.desktop"),
        strings(&["/a/x.desktop", "/b/c/x.desktop"])
    );
    assert!(desktop_candidates(&Vec::new(), "x.desktop").is_empty());
}

#[test]
fn desktop_ref_asks_only_for_files() {
    let dirs = strings(&["/a", "/b"]);
    match availability_check("foo.desktop", &dirs) {
        AvailabilityCheck::DesktopEntry(paths) => {
            assert_eq!(paths, strings(&["/a/foo.desktop", "/b/foo.desktop"]))
        }
        AvailabilityCheck::Executable(_) => panic!("a desktop entry was resolved as a command"),
    }
}

#[test]
fn command_ref_asks_only_the_search_path() {
    let dirs = strings(&["/a", "/b"]);
    match availability_check("foo", &dirs) {
        AvailabilityCheck::Executable(cmd) => assert_eq!(cmd, "foo"),
        AvailabilityCheck::DesktopEntry(_) => panic!("a command was looked up as a desktop entry"),
    }
}

#[test]
fn empty_config_is_valid() {
    let c = Config::new();
    assert_eq!(c.len(), 0);
    assert!(c.environment_names().is_empty());
    assert_eq!(c.render(), "");
    let c = Config::from_entries(Vec::new()).unwrap();
    assert_eq!(c.len(), 0);
}

#[test]
fn from_entries_keeps_order() {
    let c = Config::from_entries(entries(&[("work", &["b", "a"]), ("play", &["c"])])).unwrap();
    assert_eq!(c.environment_names(), strings(&["work", "play"]));
    assert_eq!(c.apps("work"), Some(&strings(&["b", "a"])));
    assert_eq!(c.apps("play"), Some(&strings(&["c"])));
    assert_eq!(c.apps("none"), None);
    assert!(c.contains_environment("play"));
    assert!(!c.contains_environment("pla"));
    assert_eq!(c.find_environment("play"), Some(1));
}

#[test]
fn duplicate_environment_rejected() {
    let r = Config::from_entries(entries(&[("work", &["a"]), ("work", &["b"])]));
    assert_eq!(r.unwrap_err(), ConfigError::DuplicateEnvironment("work".to_string()));
}

#[test]
fn duplicate_app_rejected() {
    let r = Config::from_entries(entries(&[("work", &["a"]), ("play", &["x", "y", "x"])]));
    assert_eq!(
        r.unwrap_err(),
        ConfigError::DuplicateApp { environment: "play".to_string(), app: "x".to_string() }
    );
}

#[test]
fn save_load_save_round_trip() {
    let saved = entries(&[("work", &["c", "a", "b"]), ("empty", &[]), ("play", &["z"])]);
    let c = Config::from_entries(saved.clone()).unwrap();
    let first = c.to_entries();
    assert_eq!(first, saved);
    let again = Config::from_entries(first.clone()).unwrap().to_entries();
    assert_eq!(again, first);
}

#[test]
fn render_lists_environments_and_apps() {
    let c = Config::from_entries(entries(&[("work", &["a", "b.desktop"]), ("play", &[])])).unwrap();
    assert_eq!(c.render(), "work:\n  - a\n  - b.desktop\nplay:\n");
}
