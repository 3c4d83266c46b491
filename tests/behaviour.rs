use clovis::config::Config;
use clovis::editor::{handle_edit_command, parse_action, EditAction, EditOutcome};
use clovis::launcher::{plan_launch, LaunchError, LaunchStep};
use clovis::validator::validate_config;

fn strings(items: &[&str]) -> Vec<String> {
    items.iter().map(|s| s.to_string()).collect()
}

fn config(items: &[(&str, &[&str])]) -> Config {
    Config::from_entries(items.iter().map(|(n, a)| (n.to_string(), strings(a))).collect()).unwrap()
}

#[test]
fn parse_action_words() {
    assert_eq!(parse_action("add"), Some(EditAction::Add));
    assert_eq!(parse_action("remove"), Some(EditAction::Remove));
    assert_eq!(parse_action("Add"), None);
    assert_eq!(parse_action(""), None);
}

#[test]
fn add_appends_at_end() {
    let mut c = config(&[("e", &["a"])]);
    let r = handle_edit_command(&mut c, "e", "add", "b");
    assert_eq!(r, EditOutcome::Added);
    assert!(r.mutated());
    assert_eq!(c.apps("e"), Some(&strings(&["a", "b"])));
}

#[test]
fn add_twice_second_is_refused() {
    let mut c = config(&[("e", &["a"])]);
    assert_eq!(handle_edit_command(&mut c, "e", "add", "x"), EditOutcome::Added);
    let len = c.apps("e").unwrap().len();
    let r = handle_edit_command(&mut c, "e", "add", "x");
    assert_eq!(r, EditOutcome::AlreadyPresent);
    assert!(!r.mutated());
    assert_eq!(c.apps("e").unwrap().len(), len);
    assert_eq!(c.apps("e"), Some(&strings(&["a", "x"])));
}

#[test]
fn remove_then_add_moves_to_end() {
    let mut c = config(&[("e", &["a", "b", "c"])]);
    assert_eq!(handle_edit_command(&mut c, "e", "remove", "b"), EditOutcome::Removed);
    assert_eq!(c.apps("e"), Some(&strings(&["a", "c"])));
    assert_eq!(handle_edit_command(&mut c, "e", "add", "b"), EditOutcome::Added);
    assert_eq!(c.apps("e"), Some(&strings(&["a", "c", "b"])));
}

#[test]
fn unknown_environment_changes_nothing() {
    let mut c = config(&[("e", &["x"])]);
    let r = handle_edit_command(&mut c, "nosuch", "add", "x");
    assert_eq!(r, EditOutcome::UnknownEnvironment);
    assert!(!r.mutated());
    let r = handle_edit_command(&mut c, "nosuch", "remove", "x");
    assert_eq!(r, EditOutcome::UnknownEnvironment);
    assert!(!r.mutated());
    let r = handle_edit_command(&mut c, "nosuch", "rename", "x");
    assert_eq!(r, EditOutcome::UnknownEnvironment);
    assert_eq!(c.to_entries(), vec![("e".to_string(), strings(&["x"]))]);
    let mut empty = Config::new();
    assert_eq!(handle_edit_command(&mut empty, "nosuch", "add", "x"), EditOutcome::UnknownEnvironment);
    assert_eq!(empty.len(), 0);
}

#[test]
fn remove_missing_app_refused() {
    let mut c = config(&[("e", &["a"])]);
    let r = handle_edit_command(&mut c, "e", "remove", "b");
    assert_eq!(r, EditOutcome::NotPresent);
    assert!(!r.mutated());
    assert_eq!(c.apps("e"), Some(&strings(&["a"])));
}

#[test]
fn invalid_action_refused() {
    let mut c = config(&[("e", &["a"])]);
    let r = handle_edit_command(&mut c, "e", "delete", "a");
    assert_eq!(r, EditOutcome::InvalidAction);
    assert!(!r.mutated());
    assert_eq!(c.apps("e"), Some(&strings(&["a"])));
}

#[test]
fn validate_reports_each_unavailable_pair() {
    let c = config(&[("work", &["a", "b"]), ("play", &["c"])]);
    let report = validate_config(&c, &vec![vec![true, false], vec![false]]);
    let pairs: Vec<(String, String)> =
        report.warnings.iter().map(|w| (w.environment.clone(), w.app.clone())).collect();
    assert_eq!(
        pairs,
        vec![("work".to_string(), "b".to_string()), ("play".to_string(), "c".to_string())]
    );
    assert!(!report.all_valid);
}

#[test]
fn validate_all_valid_only_without_warnings() {
    let c = config(&[("work", &["a", "b"]), ("play", &["c"])]);
    let report = validate_config(&c, &vec![vec![true, true], vec![true]]);
    assert!(report.warnings.is_empty());
    assert!(report.all_valid);
    let report = validate_config(&Config::new(), &Vec::new());
    assert!(report.all_valid);
}

#[test]
fn validate_missing_answer_counts_as_unavailable() {
    let c = config(&[("work", &["a", "b"])]);
    let report = validate_config(&c, &vec![vec![true]]);
    assert_eq!(report.warnings.len(), 1);
    assert_eq!(report.warnings[0].app, "b");
    assert!(!report.all_valid);
}

#[test]
fn launch_skips_running_app() {
    let c = config(&[("env", &["foo", "bar"])]);
    let steps = plan_launch(&c, "env", false, &vec![true, false]).unwrap();
    assert_eq!(
        steps,
        vec![LaunchStep::Skip("foo".to_string()), LaunchStep::Spawn("bar".to_string())]
    );
}

#[test]
fn forced_launch_spawns_everything() {
    let c = config(&[("env", &["foo", "bar"])]);
    let steps = plan_launch(&c, "env", true, &vec![true, false]).unwrap();
    assert_eq!(
        steps,
        vec![LaunchStep::Spawn("foo".to_string()), LaunchStep::Spawn("bar".to_string())]
    );
    let steps = plan_launch(&c, "env", true, &Vec::new()).unwrap();
    assert_eq!(steps.len(), 2);
}

#[test]
fn launch_unknown_environment_fails() {
    let c = config(&[("env", &["foo"])]);
    assert_eq!(plan_launch(&c, "other", false, &Vec::new()), Err(LaunchError::EnvironmentNotFound));
}
