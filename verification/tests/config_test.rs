use deoxidizer_lib::config::{CleanBehavior, Config, ConfigError, DefaultMode, ReadOutcome, Scope};

fn text(s: &str) -> ReadOutcome {
    ReadOutcome::Text(s.to_string())
}

#[test]
fn test_default_config() {
    let config = Config::default();
    assert_eq!(config.version, 2);
    assert_eq!(config.scope, Scope::TauriOnly);
    assert_eq!(config.clean_behavior, CleanBehavior::Delete);
    assert_eq!(config.default_mode, DefaultMode::Full);
    assert_eq!(config.min_size_mb, 0);
    assert!(config.ignored_projects.is_empty());
}

#[test]
fn test_config_roundtrip() {
    let path = "/tmp/deox_test_config.json";

    let config = Config {
        version: 2,
        projects_dir: "/tmp/test-projects".to_string(),
        scope: Scope::TauriAndRust,
        clean_behavior: CleanBehavior::Trash,
        default_mode: DefaultMode::DebugOnly,
        min_size_mb: 100,
        ignored_projects: vec!["my-project".to_string()],
    };

    let saved = config.save().expect("save failed");
    let loaded = Config::load_from(path, ReadOutcome::Text(saved)).expect("load failed");

    assert_eq!(loaded.projects_dir, "/tmp/test-projects");
    assert_eq!(loaded.scope, Scope::TauriAndRust);
    assert_eq!(loaded.clean_behavior, CleanBehavior::Trash);
    assert_eq!(loaded.default_mode, DefaultMode::DebugOnly);
    assert_eq!(loaded.min_size_mb, 100);
    assert_eq!(loaded.ignored_projects, vec!["my-project"]);

    let mut replacement = loaded.clone();
    replacement.min_size_mb = 200;
    let saved = replacement.save().expect("atomic overwrite failed");
    assert_eq!(Config::load_from(path, ReadOutcome::Text(saved)).unwrap().min_size_mb, 200);
}

#[test]
fn test_version_one_config_migrates() {
    let legacy = r#"{
  "version": 1,
  "projects_dir": "/tmp/legacy-projects",
  "scope": "tauri-and-rust",
  "clean_behavior": "trash",
  "default_mode": "debug-only",
  "min_size_mb": 25,
  "ignored_projects": ["legacy-project"]
}"#;

    let config = Config::load_from("legacy.json", text(legacy)).expect("legacy config should migrate");
    assert_eq!(config.version, 2);
    assert_eq!(config.projects_dir, "/tmp/legacy-projects");
    assert_eq!(config.scope, Scope::TauriAndRust);
    assert_eq!(config.clean_behavior, CleanBehavior::Trash);
    assert_eq!(config.default_mode, DefaultMode::DebugOnly);
    assert_eq!(config.min_size_mb, 25);
    assert_eq!(config.ignored_projects, vec!["legacy-project"]);
}

#[test]
fn test_missing_and_malformed_config_are_distinct() {
    assert!(matches!(
        Config::load_from("missing.json", ReadOutcome::NotFound),
        Err(ConfigError::Missing(_))
    ));
    assert!(matches!(
        Config::load_from("malformed.json", text("{not-json")),
        Err(ConfigError::Parse(_))
    ));
}

#[test]
fn test_unsupported_config_version_is_rejected() {
    let future = r#"{
  "version": 99,
  "projects_dir": "/tmp",
  "scope": "tauri-only",
  "clean_behavior": "delete",
  "default_mode": "full",
  "min_size_mb": 0,
  "ignored_projects": []
}"#;
    assert!(matches!(
        Config::load_from("future.json", text(future)),
        Err(ConfigError::UnsupportedVersion(99))
    ));
}

#[test]
fn test_scope_from_str() {
    assert_eq!(Scope::from_str_loose("tauri-only"), Some(Scope::TauriOnly));
    assert_eq!(Scope::from_str_loose("tauri"), Some(Scope::TauriOnly));
    assert_eq!(Scope::from_str_loose("tauri-and-rust"), Some(Scope::TauriAndRust));
    assert_eq!(Scope::from_str_loose("both"), Some(Scope::TauriAndRust));
    assert_eq!(Scope::from_str_loose("rust-only"), Some(Scope::RustOnly));
    assert_eq!(Scope::from_str_loose("rust"), Some(Scope::RustOnly));
    assert_eq!(Scope::from_str_loose("invalid"), None);
}

#[test]
fn test_clean_behavior_from_str() {
    assert_eq!(CleanBehavior::from_str_loose("delete"), Some(CleanBehavior::Delete));
    assert_eq!(CleanBehavior::from_str_loose("trash"), Some(CleanBehavior::Trash));
    assert_eq!(CleanBehavior::from_str_loose("recycle"), Some(CleanBehavior::Trash));
    assert_eq!(CleanBehavior::from_str_loose("invalid"), None);
}

#[test]
fn test_config_path() {
    let path = Config::config_path();
    assert!(path.contains(".deox_config"));
}

#[test]
fn test_tilde_expansion() {
    let mut config = Config {
        projects_dir: "~".to_string(),
        ..Default::default()
    };
    assert_eq!(std::path::PathBuf::from(config.projects_path()), dirs::home_dir().unwrap());

    config.projects_dir = "~/Projects".to_string();
    assert_eq!(
        std::path::PathBuf::from(config.projects_path()),
        dirs::home_dir().unwrap().join("Projects")
    );

    config.projects_dir = "/var/repos".to_string();
    assert_eq!(
        std::path::PathBuf::from(config.projects_path()),
        std::path::PathBuf::from("/var/repos")
    );
}

#[test]
fn test_default_mode_from_str_loose_aliases() {
    let cases: &[(&str, Option<DefaultMode>)] = &[
        ("full", Some(DefaultMode::Full)),
        ("FULL", Some(DefaultMode::Full)),
        ("debug-only", Some(DefaultMode::DebugOnly)),
        ("debug_only", Some(DefaultMode::DebugOnly)),
        ("debug", Some(DefaultMode::DebugOnly)),
        ("DEBUG", Some(DefaultMode::DebugOnly)),
        ("incremental-only", Some(DefaultMode::IncrementalOnly)),
        ("incremental_only", Some(DefaultMode::IncrementalOnly)),
        ("incremental", Some(DefaultMode::IncrementalOnly)),
        ("deps-only", Some(DefaultMode::DepsOnly)),
        ("deps_only", Some(DefaultMode::DepsOnly)),
        ("deps", Some(DefaultMode::DepsOnly)),
        ("invalid", None),
    ];
    for (input, expected) in cases {
        assert_eq!(DefaultMode::from_str_loose(input), *expected, "input: {input}");
    }
}

#[test]
fn test_scope_and_behavior_loose_aliases() {
    assert_eq!(Scope::from_str_loose("all"), Some(Scope::TauriAndRust));
    assert_eq!(Scope::from_str_loose("ALL"), Some(Scope::TauriAndRust));
    assert_eq!(Scope::from_str_loose("BOTH"), Some(Scope::TauriAndRust));
    assert_eq!(CleanBehavior::from_str_loose("rm"), Some(CleanBehavior::Delete));
    assert_eq!(CleanBehavior::from_str_loose("remove"), Some(CleanBehavior::Delete));
    assert_eq!(CleanBehavior::from_str_loose("bin"), Some(CleanBehavior::Trash));
    assert_eq!(CleanBehavior::from_str_loose("BIN"), Some(CleanBehavior::Trash));
    assert_eq!(DefaultMode::from_str_loose("debug"), Some(DefaultMode::DebugOnly));
    assert_eq!(DefaultMode::from_str_loose("incremental"), Some(DefaultMode::IncrementalOnly));
    assert_eq!(DefaultMode::from_str_loose("deps"), Some(DefaultMode::DepsOnly));
}

#[test]
fn test_validate_rejects_empty_projects_dir() {
    for dir in ["", "   "] {
        let config = Config {
            projects_dir: dir.to_string(),
            ..Default::default()
        };
        assert!(matches!(config.validate(), Err(ConfigError::Invalid(_))), "dir: {dir:?}");
    }
}

#[test]
fn test_validate_rejects_min_size_overflow() {
    let config = Config {
        min_size_mb: u64::MAX,
        ..Default::default()
    };
    assert!(matches!(config.validate(), Err(ConfigError::Invalid(_))));
}

#[test]
fn test_unknown_fields_are_rejected() {
    let unknown = r#"{
  "version": 2,
  "projects_dir": "/tmp",
  "scope": "tauri-only",
  "clean_behavior": "delete",
  "default_mode": "full",
  "min_size_mb": 0,
  "ignored_projects": [],
  "unknown_field": 123
}"#;
    assert!(matches!(
        Config::load_from("unknown.json", text(unknown)),
        Err(ConfigError::Parse(_))
    ));
}

#[test]
fn test_load_or_default_falls_back_when_missing() {
    let result = Config::load_or_default_from("/tmp/home/.deox_config", ReadOutcome::NotFound);

    let config = result.expect("missing config should fall back to defaults");
    assert_eq!(config.version, 2);
}

#[test]
fn test_load_or_default_propagates_malformed() {
    let result = Config::load_or_default_from("/tmp/home/.deox_config", text("{not-json"));

    assert!(matches!(result, Err(ConfigError::Parse(_))));
}

#[test]
fn test_v1_without_ignored_projects_migrates() {
    let legacy = r#"{
  "version": 1,
  "projects_dir": "/tmp/legacy-projects",
  "scope": "tauri-only",
  "clean_behavior": "delete",
  "default_mode": "full",
  "min_size_mb": 0
}"#;

    // ignored_projects defaults when absent from v1.
    let config = Config::load_from("legacy-no-ignore.json", text(legacy))
        .expect("v1 without ignored_projects must migrate");
    assert_eq!(config.version, 2);
    assert!(config.ignored_projects.is_empty());
}

#[test]
fn test_v1_unknown_field_rejected() {
    let legacy = r#"{
  "version": 1,
  "projects_dir": "/tmp/legacy-projects",
  "scope": "tauri-only",
  "clean_behavior": "delete",
  "default_mode": "full",
  "min_size_mb": 0,
  "unknown_field": 123
}"#;

    assert!(matches!(
        Config::load_from("legacy-unknown.json", text(legacy)),
        Err(ConfigError::Parse(_))
    ));
}

#[test]
fn test_missing_version_and_zero_version_invalid() {
    let missing = r#"{
  "projects_dir": "/tmp",
  "scope": "tauri-only",
  "clean_behavior": "delete",
  "default_mode": "full",
  "min_size_mb": 0,
  "ignored_projects": []
}"#;
    assert!(matches!(
        Config::load_from("no-version.json", text(missing)),
        Err(ConfigError::Invalid(_))
    ));

    let zero = r#"{
  "version": 0,
  "projects_dir": "/tmp",
  "scope": "tauri-only",
  "clean_behavior": "delete",
  "default_mode": "full",
  "min_size_mb": 0,
  "ignored_projects": []
}"#;
    assert!(matches!(
        Config::load_from("zero-version.json", text(zero)),
        Err(ConfigError::UnsupportedVersion(0))
    ));

    let stringy = r#"{
  "version": "2",
  "projects_dir": "/tmp",
  "scope": "tauri-only",
  "clean_behavior": "delete",
  "default_mode": "full",
  "min_size_mb": 0,
  "ignored_projects": []
}"#;
    assert!(matches!(
        Config::load_from("string-version.json", text(stringy)),
        Err(ConfigError::Invalid(_))
    ));
}

#[test]
fn test_save_to_rejects_invalid_without_truncating() {
    let valid = Config {
        projects_dir: "/tmp/projects".to_string(),
        ..Default::default()
    };
    let before = valid.save().expect("valid save must succeed");

    let empty_dir = Config {
        projects_dir: String::new(),
        ..Default::default()
    };
    assert!(empty_dir.save().is_err());

    let overflow = Config {
        min_size_mb: u64::MAX,
        ..Default::default()
    };
    assert!(overflow.save().is_err());

    // Validation happens before any text is produced; the valid text is unchanged.
    assert_eq!(valid.save().unwrap(), before);
}

#[test]
fn test_tilde_user_and_relative_passthrough() {
    let mut config = Config {
        projects_dir: "~other/x".to_string(),
        ..Default::default()
    };
    assert_eq!(config.projects_path(), "~other/x");

    config.projects_dir = "relative/path".to_string();
    assert_eq!(config.projects_path(), "relative/path");
}

#[test]
fn saved_text_is_pretty_json_with_trailing_newline() {
    let config = Config {
        version: 2,
        projects_dir: "/srv/code".to_string(),
        scope: Scope::RustOnly,
        clean_behavior: CleanBehavior::Delete,
        default_mode: DefaultMode::DepsOnly,
        min_size_mb: 3,
        ignored_projects: vec!["a".to_string(), "b".to_string()],
    };
    let saved = config.save().unwrap();
    assert!(saved.ends_with("}\n"));
    let value: serde_json::Value = serde_json::from_str(&saved).unwrap();
    assert_eq!(value["version"], serde_json::Value::from(2u64));
    assert_eq!(value["scope"], serde_json::Value::from("rust-only"));
    assert_eq!(value["default_mode"], serde_json::Value::from("deps-only"));
    assert_eq!(value["ignored_projects"][1], serde_json::Value::from("b"));
}

#[test]
fn read_failure_is_an_io_error() {
    match Config::load_from("/x", ReadOutcome::Failed("permission denied".to_string())) {
        Err(ConfigError::Io(message)) => assert_eq!(message, "permission denied"),
        other => panic!("expected Io, got {other:?}"),
    }
    match Config::load_or_default_from("/x", ReadOutcome::Failed("boom".to_string())) {
        Err(ConfigError::Io(message)) => assert_eq!(message, "boom"),
        other => panic!("expected Io, got {other:?}"),
    }
}

#[test]
fn missing_error_names_the_path() {
    match Config::load("/home/u/.deox_config", ReadOutcome::NotFound) {
        Err(ConfigError::Missing(path)) => assert_eq!(path, "/home/u/.deox_config"),
        other => panic!("expected Missing, got {other:?}"),
    }
}

#[test]
fn invalid_values_in_file_are_rejected() {
    let bad_scope = r#"{"version": 2, "projects_dir": "/tmp", "scope": "everything",
        "clean_behavior": "delete", "default_mode": "full", "min_size_mb": 0, "ignored_projects": []}"#;
    assert!(matches!(Config::load_from("c", text(bad_scope)), Err(ConfigError::Parse(_))));
    let blank_dir = r#"{"version": 2, "projects_dir": "  ", "scope": "tauri-only",
        "clean_behavior": "delete", "default_mode": "full", "min_size_mb": 0, "ignored_projects": []}"#;
    assert!(matches!(Config::load_from("c", text(blank_dir)), Err(ConfigError::Invalid(_))));
    let not_object = "[1, 2]";
    assert!(matches!(Config::load_from("c", text(not_object)), Err(ConfigError::Parse(_))));
}

#[test]
fn error_messages_describe_each_error() {
    assert_eq!(
        ConfigError::UnsupportedVersion(7).message(),
        "unsupported configuration version 7 (expected 2)"
    );
    assert_eq!(
        ConfigError::Missing("/p".to_string()).message(),
        "configuration file not found: /p"
    );
    assert_eq!(ConfigError::Io("x".to_string()).message(), "configuration I/O error: x");
    assert_eq!(ConfigError::Parse("y".to_string()).message(), "invalid configuration JSON: y");
    assert_eq!(ConfigError::Invalid("z".to_string()).message(), "invalid configuration: z");
}

#[test]
fn load_or_default_keeps_loaded_config() {
    let cfg = Config {
        projects_dir: "/data".to_string(),
        ..Default::default()
    };
    let kept = Config::load_or_default(Ok(cfg)).unwrap();
    assert_eq!(kept.projects_dir, "/data");
}

#[test]
fn projects_path_with_expands_against_given_home() {
    let config = Config {
        projects_dir: "~/code".to_string(),
        ..Default::default()
    };
    assert_eq!(config.projects_path_with(Some("/home/me".to_string())), "/home/me/code");
    assert_eq!(config.projects_path_with(None), "~/code");
    assert_eq!(Config::config_path_in(Some("/home/me".to_string())), "/home/me/.deox_config");
    assert_eq!(Config::config_path_in(None), "./.deox_config");
}

#[test]
fn names_round_trip_through_exact_parse() {
    for scope in [Scope::TauriOnly, Scope::TauriAndRust, Scope::RustOnly] {
        assert_eq!(Scope::from_name(scope.name()), Some(scope));
        assert_eq!(Scope::from_str_loose(scope.name()), Some(scope));
    }
    for mode in [DefaultMode::Full, DefaultMode::DebugOnly, DefaultMode::IncrementalOnly, DefaultMode::DepsOnly] {
        assert_eq!(DefaultMode::from_name(mode.name()), Some(mode));
        assert_eq!(DefaultMode::from_str_loose(mode.name()), Some(mode));
    }
    for behavior in [CleanBehavior::Delete, CleanBehavior::Trash] {
        assert_eq!(CleanBehavior::from_name(behavior.name()), Some(behavior));
        assert_eq!(CleanBehavior::from_str_loose(behavior.name()), Some(behavior));
    }
    assert_eq!(Scope::from_name("TAURI-ONLY"), None);
}
