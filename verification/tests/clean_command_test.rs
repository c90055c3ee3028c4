use deoxidizer_lib::clean_command::{CleanCmdAction, CleanCmdEvent, CleanCommand, CleanStop};
use deoxidizer_lib::cleaner::{CleanMode, CleanResult};
use deoxidizer_lib::config::{Config, ConfigError, DefaultMode};
use deoxidizer_lib::project::{DiscoveredProject, ProjectKind};

fn project(name: &str) -> DiscoveredProject {
    DiscoveredProject {
        name: name.to_string(),
        path: format!("/p/{name}"),
        kind: ProjectKind::RustProject,
        artifact_dir: format!("/p/{name}/target"),
        artifact_size: 10,
        last_modified: None,
        breakdown: None,
    }
}

fn loaded_config() -> Config {
    let mut config = Config::with_projects_dir("/p".to_string());
    config.default_mode = DefaultMode::DebugOnly;
    config
}

/// Loads, scans two projects and estimates them (3 and 4 bytes).
fn up_to_plan(dry_run: bool, yes: bool) -> (CleanCommand, CleanCmdAction) {
    let (mut command, action) = CleanCommand::start(dry_run, yes, None, None, None);
    assert!(matches!(action, CleanCmdAction::Load));
    let action = command.step(CleanCmdEvent::Loaded(Ok(loaded_config())));
    assert!(matches!(action, CleanCmdAction::Scan(_)));
    assert_eq!(command.mode, CleanMode::DebugOnly);
    let action = command.step(CleanCmdEvent::Scanned(Ok(vec![project("a"), project("b")])));
    assert!(matches!(action, CleanCmdAction::Estimate(0)));
    let action = command.step(CleanCmdEvent::Estimated(Ok(3)));
    assert!(matches!(action, CleanCmdAction::Estimate(1)));
    let action = command.step(CleanCmdEvent::Estimated(Ok(4)));
    assert!(matches!(action, CleanCmdAction::ShowPlan));
    let action = command.step(CleanCmdEvent::Shown);
    (command, action)
}

#[test]
fn clean_without_config_refuses() {
    let (mut command, _) = CleanCommand::start(false, true, None, None, None);
    let action = command.step(CleanCmdEvent::Loaded(Err(ConfigError::Missing("/h/.deox_config".to_string()))));
    assert!(matches!(action, CleanCmdAction::Done(1)));
    assert!(matches!(command.stop, Some(CleanStop::MissingConfig)));
}

#[test]
fn dry_run_reports_the_estimate_and_never_cleans() {
    let (mut command, action) = up_to_plan(true, true);
    match action {
        CleanCmdAction::ReportDryRun { count, estimate } => {
            assert_eq!(count, 2);
            assert_eq!(estimate, 7);
        }
        _ => panic!("a dry run must report"),
    }
    assert!(matches!(command.step(CleanCmdEvent::Shown), CleanCmdAction::Done(0)));
    assert!(matches!(command.stop, Some(CleanStop::DryRun)));
}

#[test]
fn clean_asks_first_and_declining_exits_zero() {
    let (mut command, action) = up_to_plan(false, false);
    match action {
        CleanCmdAction::Prompt { count, estimate } => {
            assert_eq!(count, 2);
            assert_eq!(estimate, 7);
        }
        _ => panic!("the user must be asked"),
    }
    assert!(matches!(command.step(CleanCmdEvent::Answered(Ok(false))), CleanCmdAction::Done(0)));
    assert!(matches!(command.stop, Some(CleanStop::Cancelled)));
}

#[test]
fn confirmed_clean_reports_errors_with_status_one() {
    let (mut command, _) = up_to_plan(false, false);
    assert!(matches!(command.step(CleanCmdEvent::Answered(Ok(true))), CleanCmdAction::Clean(0)));
    let action = command.step(CleanCmdEvent::Cleaned(CleanResult::Cleaned { bytes_freed: 3 }));
    assert!(matches!(action, CleanCmdAction::Clean(1)));
    let action = command.step(CleanCmdEvent::Cleaned(CleanResult::Error { message: "busy".to_string() }));
    assert!(matches!(action, CleanCmdAction::Done(1)));
    match &command.stop {
        Some(CleanStop::Finished(summary)) => {
            assert_eq!(summary.total_freed, 3);
            assert_eq!(summary.cleaned, 1);
            assert_eq!(summary.errors, 1);
        }
        _ => panic!("expected a summary"),
    }
}

#[test]
fn yes_cleans_without_asking() {
    let (mut command, action) = up_to_plan(false, true);
    assert!(matches!(action, CleanCmdAction::Clean(0)));
    command.step(CleanCmdEvent::Cleaned(CleanResult::Cleaned { bytes_freed: 3 }));
    let action = command.step(CleanCmdEvent::Cleaned(CleanResult::Cleaned { bytes_freed: 4 }));
    assert!(matches!(action, CleanCmdAction::Done(0)));
}

#[test]
fn failed_estimate_and_empty_scan_stop() {
    let (mut command, _) = CleanCommand::start(false, false, None, None, Some(CleanMode::Full));
    command.step(CleanCmdEvent::Loaded(Ok(loaded_config())));
    assert_eq!(command.mode, CleanMode::Full);
    command.step(CleanCmdEvent::Scanned(Ok(vec![project("a")])));
    let action = command.step(CleanCmdEvent::Estimated(Err("target missing".to_string())));
    assert!(matches!(action, CleanCmdAction::Done(1)));

    let (mut command, _) = CleanCommand::start(false, false, Some("  ".to_string()), None, None);
    assert!(matches!(command.step(CleanCmdEvent::Loaded(Ok(loaded_config()))), CleanCmdAction::Done(2)));

    let (mut command, _) = CleanCommand::start(false, false, None, None, None);
    command.step(CleanCmdEvent::Loaded(Ok(loaded_config())));
    assert!(matches!(command.step(CleanCmdEvent::Scanned(Ok(Vec::new()))), CleanCmdAction::Done(0)));
    assert!(matches!(command.stop, Some(CleanStop::NothingFound)));
}
