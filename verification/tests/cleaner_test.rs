use deoxidizer_lib::cleaner::{
    check_resolved_clean_path, check_resolved_target, check_target_parent, clean_path_components,
    collect_subdirs_named, debug_dirs_to_clean, dry_run_result, estimate_freed, saturating_total,
    summarize_results, target_parent, CleanMode, CleanResult, CleanTally, TargetEntry, WalkEntry,
};
use deoxidizer_lib::config::DefaultMode;
use deoxidizer_lib::paths::{same_path, PathPart};

#[test]
fn test_clean_result_partial_and_skipped_shapes() {
    let partial = deoxidizer_lib::cleaner::CleanResult::Partial {
        bytes_freed: 42,
        message: "one path failed".to_string(),
    };
    match partial {
        deoxidizer_lib::cleaner::CleanResult::Partial { bytes_freed, message } => {
            assert_eq!(bytes_freed, 42);
            assert!(!message.is_empty());
        }
        other => panic!("expected Partial, got {other:?}"),
    }
    let skipped = deoxidizer_lib::cleaner::CleanResult::Skipped {
        reason: "No matching directories found".to_string(),
    };
    match skipped {
        deoxidizer_lib::cleaner::CleanResult::Skipped { reason } => {
            assert!(!reason.is_empty());
        }
        other => panic!("expected Skipped, got {other:?}"),
    }
}

#[test]
fn nothing_to_clean_is_skipped() {
    match CleanResult::nothing_to_clean() {
        CleanResult::Skipped { reason } => assert_eq!(reason, "No matching directories found"),
        other => panic!("expected Skipped, got {other:?}"),
    }
}

#[test]
fn clean_mode_names_labels_and_aliases() {
    assert_eq!(CleanMode::from_str_loose("Debug_Only"), Some(CleanMode::DebugOnly));
    assert_eq!(CleanMode::from_str_loose("deps"), Some(CleanMode::DepsOnly));
    assert_eq!(CleanMode::from_str_loose("everything"), None);
    assert_eq!(CleanMode::IncrementalOnly.label(), "incremental-only (*/incremental/)");
    assert_eq!(CleanMode::Full.label(), "full (entire target/)");
    assert_eq!(CleanMode::DepsOnly.name(), "deps-only");
    assert_eq!(CleanMode::from(DefaultMode::DebugOnly), CleanMode::DebugOnly);
}

fn entry(name: &str, is_dir: bool, has_real_debug: bool) -> TargetEntry {
    TargetEntry {
        name: name.to_string(),
        is_dir,
        has_real_debug,
    }
}

#[test]
fn debug_only_includes_triple_debug_dirs() {
    let entries = vec![
        entry("debug", true, false),
        entry("release", true, true),
        entry("x86_64-pc-windows-msvc", true, true),
        entry("CACHEDIR.TAG", false, false),
        entry("aarch64-apple-darwin", true, false),
    ];
    assert_eq!(
        debug_dirs_to_clean("/p/target", true, &entries),
        vec!["/p/target/debug", "/p/target/x86_64-pc-windows-msvc/debug"]
    );
    assert_eq!(
        debug_dirs_to_clean("/p/target", false, &entries),
        vec!["/p/target/x86_64-pc-windows-msvc/debug"]
    );
}

#[test]
fn subdirs_named_keep_walk_order() {
    let walk = vec![
        WalkEntry { path: "/t/debug".to_string(), name: "debug".to_string(), is_dir: true },
        WalkEntry { path: "/t/debug/incremental".to_string(), name: "incremental".to_string(), is_dir: true },
        WalkEntry { path: "/t/debug/deps".to_string(), name: "deps".to_string(), is_dir: true },
        WalkEntry { path: "/t/release/incremental".to_string(), name: "incremental".to_string(), is_dir: true },
        WalkEntry { path: "/t/incremental".to_string(), name: "incremental".to_string(), is_dir: false },
    ];
    assert_eq!(
        collect_subdirs_named(&walk, "incremental"),
        vec!["/t/debug/incremental", "/t/release/incremental"]
    );
    assert_eq!(collect_subdirs_named(&walk, "deps"), vec!["/t/debug/deps"]);
}

#[test]
fn estimate_sums_real_dirs_and_stops_at_first_error() {
    let measured = vec![Some(Ok(10u64)), None, Some(Ok(u64::MAX))];
    assert_eq!(estimate_freed(&measured).unwrap(), u64::MAX);
    let failing = vec![Some(Ok(1u64)), Some(Err("first".to_string())), Some(Err("second".to_string()))];
    assert_eq!(estimate_freed(&failing).unwrap_err(), "first");
    assert_eq!(estimate_freed(&Vec::new()).unwrap(), 0);
}

#[test]
fn dry_run_reports_total_or_first_error() {
    match dry_run_result(&vec![Ok(3), Ok(4)]) {
        CleanResult::Cleaned { bytes_freed } => assert_eq!(bytes_freed, 7),
        other => panic!("expected Cleaned, got {other:?}"),
    }
    match dry_run_result(&vec![Ok(3), Err("cannot inspect".to_string())]) {
        CleanResult::Error { message } => assert_eq!(message, "cannot inspect"),
        other => panic!("expected Error, got {other:?}"),
    }
}

#[test]
fn tally_outcomes() {
    let mut all_good = CleanTally::new();
    all_good.record_removed(5);
    all_good.record_removed(6);
    assert!(matches!(all_good.finish(), CleanResult::Cleaned { bytes_freed: 11 }));

    let mut partial = CleanTally::new();
    partial.record_removed(5);
    partial.record_removal_failure("/t/debug", "busy");
    partial.record_validation_failure("/t/x", "symlink");
    match partial.finish() {
        CleanResult::Partial { bytes_freed, message } => {
            assert_eq!(bytes_freed, 5);
            assert_eq!(message, "Failed to remove /t/debug: busy; Failed to validate /t/x: symlink");
        }
        other => panic!("expected Partial, got {other:?}"),
    }

    let mut failed = CleanTally::new();
    failed.record_removal_failure("/t", "denied");
    match failed.finish() {
        CleanResult::Error { message } => assert_eq!(message, "Failed to remove /t: denied"),
        other => panic!("expected Error, got {other:?}"),
    }
}

#[test]
fn run_summary_counts_cleaned_and_errors() {
    let results = vec![
        CleanResult::Cleaned { bytes_freed: 10 },
        CleanResult::Partial { bytes_freed: 5, message: "x".to_string() },
        CleanResult::Error { message: "y".to_string() },
        CleanResult::Skipped { reason: "z".to_string() },
        CleanResult::Cleaned { bytes_freed: u64::MAX },
    ];
    let summary = summarize_results(&results);
    assert_eq!(summary.total_freed, u64::MAX);
    assert_eq!(summary.cleaned, 3);
    assert_eq!(summary.errors, 2);
    assert_eq!(saturating_total(&vec![1, 2, 3]), 6);
    assert_eq!(saturating_total(&vec![u64::MAX, 2]), u64::MAX);
}

#[test]
fn clean_paths_must_stay_below_target() {
    let parts = clean_path_components("/p/target/debug/deps", "/p/target").unwrap();
    assert_eq!(parts.len(), 2);
    assert!(matches!(&parts[0], PathPart::Normal(n) if n == "debug"));
    assert!(matches!(&parts[1], PathPart::Normal(n) if n == "deps"));
    assert!(clean_path_components("/p/target", "/p/target").unwrap().is_empty());
    assert_eq!(
        clean_path_components("/p/other", "/p/target").unwrap_err(),
        "clean path is outside target directory"
    );
    assert_eq!(
        clean_path_components("/p/targetx/debug", "/p/target").unwrap_err(),
        "clean path is outside target directory"
    );
    assert_eq!(
        clean_path_components("/p/target/../secret", "/p/target").unwrap_err(),
        "clean path contains parent traversal"
    );
    assert!(check_resolved_clean_path("/p/target/debug", "/real/p/target/debug", "/real/p/target").is_ok());
    assert_eq!(
        check_resolved_clean_path("/p/target/debug", "/etc", "/real/p/target").unwrap_err(),
        "clean path /p/target/debug resolved outside target directory"
    );
}

#[test]
fn target_directory_placement() {
    assert_eq!(target_parent("/p/target").unwrap(), "/p");
    assert_eq!(target_parent("/p/build").unwrap_err(), "artifact path is not named target");
    assert!(check_target_parent("/p/", "/p").is_ok());
    assert_eq!(
        check_target_parent("/q", "/p").unwrap_err(),
        "target directory is not directly under project root"
    );
    assert!(check_resolved_target("/p/target", "/p").is_ok());
    assert_eq!(
        check_resolved_target("/elsewhere/target", "/p").unwrap_err(),
        "resolved target directory escaped project root"
    );
    assert!(same_path("/a//b/", "/a/b"));
    assert!(!same_path("/a/b", "/a/c"));
}

#[test]
fn mode_names_parse_back() {
    for mode in [CleanMode::Full, CleanMode::DebugOnly, CleanMode::IncrementalOnly, CleanMode::DepsOnly] {
        assert_eq!(CleanMode::from_str_loose(mode.name()), Some(mode));
    }
}
