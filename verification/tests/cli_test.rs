use deoxidizer_lib::cli::{
    apply_scan_overrides, find_inspection_project, project_count, retain_older_than, OverrideError,
    SettingsAction, SettingsArgs, SettingsConfigArgs, SettingsResetArgs,
};
use deoxidizer_lib::config::{CleanBehavior, Config, ConfigError, DefaultMode, Scope};
use deoxidizer_lib::project::{DiscoveredProject, ProjectKind};
use deoxidizer_lib::settings::{parse_name_list, run_settings, update_settings, SettingChange, SettingsStep, SettingsUpdate};
use deoxidizer_lib::setup::{behavior_from_choice, scope_from_choice, setup_config};

fn project(name: &str, modified: Option<i128>) -> DiscoveredProject {
    DiscoveredProject {
        name: name.to_string(),
        path: format!("/p/{name}"),
        kind: ProjectKind::RustProject,
        artifact_dir: format!("/p/{name}/target"),
        artifact_size: 1,
        last_modified: modified,
        breakdown: None,
    }
}

fn base_config() -> Config {
    Config {
        projects_dir: "/projects".to_string(),
        ..Default::default()
    }
}

fn no_options() -> SettingsConfigArgs {
    SettingsConfigArgs {
        projects_dir: None,
        scope: None,
        clean_behavior: None,
        default_mode: None,
        min_size_mb: None,
        ignored_projects: None,
    }
}

#[test]
fn counts_read_naturally() {
    assert_eq!(project_count(0), "0 projects");
    assert_eq!(project_count(1), "1 project");
    assert_eq!(project_count(42), "42 projects");
}

#[test]
fn scan_overrides_apply_and_revalidate() {
    let mut config = base_config();
    assert!(apply_scan_overrides(&mut config, Some("/other".to_string()), Some(5)).is_ok());
    assert_eq!(config.projects_dir, "/other");
    assert_eq!(config.min_size_mb, 5);

    let mut config = base_config();
    assert!(matches!(
        apply_scan_overrides(&mut config, Some("   ".to_string()), Some(5)),
        Err(OverrideError::EmptyPath)
    ));
    assert_eq!(config.projects_dir, "/projects");
    assert_eq!(config.min_size_mb, 0);

    let mut config = base_config();
    assert!(matches!(
        apply_scan_overrides(&mut config, None, Some(u64::MAX)),
        Err(OverrideError::Invalid(ConfigError::Invalid(_)))
    ));
}

#[test]
fn older_than_keeps_stale_only() {
    let projects = vec![project("stale-app", Some(10)), project("fresh-app", Some(100)), project("unknown-app", None)];
    let kept = retain_older_than(projects, 50);
    assert_eq!(kept.len(), 1);
    assert_eq!(kept[0].name, "stale-app");
}

#[test]
fn inspection_prefers_exact_then_contained_path() {
    let projects = vec![project("ws", None), project("app", None)];
    let canonical = vec!["/r/ws".to_string(), "/r/ws/app".to_string()];
    let found = find_inspection_project(projects, &canonical, "/r/ws/app").unwrap();
    assert_eq!(found.name, "app");

    let projects = vec![project("ws", None), project("app", None)];
    let found = find_inspection_project(projects, &canonical, "/r/ws/app/src").unwrap();
    assert_eq!(found.name, "ws");

    let projects = vec![project("ws", None)];
    assert!(find_inspection_project(projects, &vec!["/r/ws".to_string()], "/elsewhere").is_none());
}

#[test]
fn ignored_names_are_split_and_trimmed() {
    assert_eq!(parse_name_list(" a, b ,,c "), vec!["a", "b", "c"]);
    assert!(parse_name_list("").is_empty());
}

#[test]
fn settings_update_applies_options() {
    let args = SettingsConfigArgs {
        scope: Some(Scope::RustOnly),
        min_size_mb: Some(7),
        ignored_projects: Some("x,y".to_string()),
        ..no_options()
    };
    match update_settings(base_config(), args) {
        SettingsUpdate::Save { config, changes } => {
            assert_eq!(config.scope, Scope::RustOnly);
            assert_eq!(config.min_size_mb, 7);
            assert_eq!(config.ignored_projects, vec!["x", "y"]);
            assert_eq!(changes.len(), 3);
            assert!(matches!(changes[0], SettingChange::Scope(Scope::RustOnly)));
        }
        other => panic!("expected Save, got {other:?}"),
    }
    assert!(matches!(update_settings(base_config(), no_options()), SettingsUpdate::NothingSpecified));
    let blank = SettingsConfigArgs {
        projects_dir: Some("  ".to_string()),
        ..no_options()
    };
    match update_settings(base_config(), blank) {
        SettingsUpdate::Invalid(messages) => {
            assert_eq!(messages, vec!["Invalid projects-dir: must not be empty."])
        }
        other => panic!("expected Invalid, got {other:?}"),
    }
    let huge = SettingsConfigArgs {
        min_size_mb: Some(u64::MAX),
        ..no_options()
    };
    match update_settings(base_config(), huge) {
        SettingsUpdate::Invalid(messages) => {
            assert_eq!(messages, vec!["Invalid settings: invalid configuration: min_size_mb is too large."])
        }
        other => panic!("expected Invalid, got {other:?}"),
    }
}

#[test]
fn settings_dispatch() {
    let show = SettingsArgs { action: SettingsAction::Show };
    assert!(matches!(run_settings(show, Err(ConfigError::Missing("/c".to_string()))), SettingsStep::ShowMissing));
    let show = SettingsArgs { action: SettingsAction::Show };
    assert!(matches!(run_settings(show, Err(ConfigError::Parse("bad".to_string()))), SettingsStep::LoadFailed(_)));
    let reset = SettingsArgs { action: SettingsAction::Reset(SettingsResetArgs { yes: true }) };
    assert!(matches!(run_settings(reset, Ok(base_config())), SettingsStep::Reset { confirm: false }));
    let config = SettingsArgs {
        action: SettingsAction::Config(SettingsConfigArgs {
            default_mode: Some(DefaultMode::DepsOnly),
            ..no_options()
        }),
    };
    match run_settings(config, Err(ConfigError::Missing("/c".to_string()))) {
        SettingsStep::Update(SettingsUpdate::Save { config, .. }) => {
            assert_eq!(config.default_mode, DefaultMode::DepsOnly)
        }
        other => panic!("expected Update, got {other:?}"),
    }
}

#[test]
fn setup_choices_build_config() {
    assert_eq!(scope_from_choice(1), Scope::TauriAndRust);
    assert_eq!(scope_from_choice(9), Scope::TauriOnly);
    assert_eq!(behavior_from_choice(1), CleanBehavior::Trash);
    assert_eq!(behavior_from_choice(5), CleanBehavior::Delete);
    let config = setup_config("/code".to_string(), 2, 1);
    assert_eq!(config.version, 2);
    assert_eq!(config.projects_dir, "/code");
    assert_eq!(config.scope, Scope::RustOnly);
    assert_eq!(config.clean_behavior, CleanBehavior::Trash);
    assert_eq!(config.default_mode, DefaultMode::Full);
    assert!(config.validate().is_ok());
}

#[test]
fn settings_show_passes_loaded_config() {
    let show = SettingsArgs { action: SettingsAction::Show };
    match run_settings(show, Ok(base_config())) {
        SettingsStep::Show(config) => assert_eq!(config.projects_dir, "/projects"),
        other => panic!("expected Show, got {other:?}"),
    }
}
