use deoxidizer_lib::cleaner::{collect_subdirs_named, debug_dirs_to_clean, estimate_freed, TargetEntry, WalkEntry};
use deoxidizer_lib::config::Scope;
use deoxidizer_lib::project::{DiscoveredProject, ProjectKind, TargetBreakdown, TargetTally};
use deoxidizer_lib::scan_flow::{ScanAction, ScanEvent, ScanRun};
use deoxidizer_lib::scanner::{apply_scan_filters, parse_manifest};

// The mock project of the cleaner tests: target/debug/deps/lib.rlib (4096),
// target/debug/incremental/cache.incr (2048), target/release/deps/lib.rlib
// (1024) and target/debug/binary (512).
fn size_of_dir(dir: &str) -> u64 {
    match dir {
        "/m/target" => 4096 + 2048 + 1024 + 512,
        "/m/target/debug" => 4096 + 2048 + 512,
        "/m/target/release" => 1024,
        "/m/target/debug/incremental" => 2048,
        "/m/target/debug/deps" => 4096,
        "/m/target/release/deps" => 1024,
        _ => 0,
    }
}

fn mock_project(breakdown: bool) -> DiscoveredProject {
    DiscoveredProject {
        name: "test-project".to_string(),
        path: "/m".to_string(),
        kind: ProjectKind::TauriApp,
        artifact_dir: "/m/target".to_string(),
        artifact_size: 4096 + 2048 + 1024 + 512,
        last_modified: None,
        breakdown: if breakdown {
            Some(TargetBreakdown {
                debug_size: 4096 + 2048 + 512,
                release_size: 1024,
                incremental_size: 2048,
                deps_size: 4096 + 1024,
                other_size: 0,
            })
        } else {
            None
        },
    }
}

fn walk() -> Vec<WalkEntry> {
    let dirs = [
        "/m/target/debug",
        "/m/target/debug/deps",
        "/m/target/debug/incremental",
        "/m/target/release",
        "/m/target/release/deps",
    ];
    dirs.iter()
        .map(|path| WalkEntry {
            path: path.to_string(),
            name: path.rsplit('/').next().unwrap().to_string(),
            is_dir: true,
        })
        .collect()
}

fn estimate_of(paths: &[String]) -> u64 {
    let measured: Vec<Option<Result<u64, String>>> = paths.iter().map(|p| Some(Ok(size_of_dir(p)))).collect();
    estimate_freed(&measured).unwrap()
}

fn full_estimate() -> u64 {
    estimate_of(&["/m/target".to_string()])
}

fn debug_only_estimate() -> u64 {
    let entries = vec![
        TargetEntry { name: "debug".to_string(), is_dir: true, has_real_debug: false },
        TargetEntry { name: "release".to_string(), is_dir: true, has_real_debug: false },
    ];
    estimate_of(&debug_dirs_to_clean("/m/target", true, &entries))
}

#[test]
fn test_estimate_freed_full() {
    assert!(full_estimate() > 0);
}

#[test]
fn test_estimate_freed_debug_only() {
    let estimate = debug_only_estimate();
    assert!(estimate > 0);
    assert!(estimate < full_estimate());
}

#[test]
fn test_estimate_freed_incremental_and_deps_match_breakdown() {
    let project = mock_project(true);
    let breakdown = project.breakdown.as_ref().expect("breakdown");
    assert_eq!(breakdown.incremental_size, 2048);
    assert_eq!(breakdown.deps_size, 4096 + 1024);
    assert_eq!(estimate_of(&collect_subdirs_named(&walk(), "incremental")), breakdown.incremental_size);
    assert_eq!(estimate_of(&collect_subdirs_named(&walk(), "deps")), breakdown.deps_size);
}

#[test]
fn test_estimate_without_breakdown_walks_filesystem() {
    let project = mock_project(false);
    assert!(project.breakdown.is_none());
    assert_eq!(full_estimate(), 4096 + 2048 + 1024 + 512);
    assert_eq!(estimate_of(&collect_subdirs_named(&walk(), "incremental")), 2048);
    assert_eq!(estimate_of(&collect_subdirs_named(&walk(), "deps")), 4096 + 1024);
}

fn found(name: &str, size: u64) -> DiscoveredProject {
    DiscoveredProject {
        name: name.to_string(),
        path: format!("/r/{name}"),
        kind: ProjectKind::RustProject,
        artifact_dir: format!("/r/{name}/target"),
        artifact_size: size,
        last_modified: None,
        breakdown: None,
    }
}

#[test]
fn test_scan_respects_ignored_projects() {
    let projects = vec![found("my-tauri-app", 1536), found("my-rust-lib", 0)];
    let kept = apply_scan_filters(projects, 0, &vec!["my-tauri-app".to_string()]).unwrap();
    assert_eq!(kept.len(), 1);
    assert_eq!(kept[0].name, "my-rust-lib");
}

#[test]
fn test_scan_respects_min_size_mb() {
    assert!(apply_scan_filters(vec![found("tiny-app", 1536)], 1, &Vec::new()).unwrap().is_empty());
    let projects = apply_scan_filters(vec![found("tiny-app", 1536)], 0, &Vec::new()).unwrap();
    assert_eq!(projects.len(), 1);
    assert_eq!(projects[0].name, "tiny-app");
}

#[test]
fn test_scan_ignored_projects_is_case_insensitive() {
    assert!(apply_scan_filters(vec![found("MyTauriApp", 1536)], 0, &vec!["mytauriapp".to_string()])
        .unwrap()
        .is_empty());
    assert!(apply_scan_filters(vec![found("MyTauriApp", 1536)], 0, &vec!["MYTAURIAPP".to_string()])
        .unwrap()
        .is_empty());
}

/// Runs a scan over two mock Rust projects, each with an empty `target/`.
fn scan_two_projects() -> Vec<DiscoveredProject> {
    let manifest = |name: &str| format!("[package]\nname = \"{name}\"\nversion = \"0.1.0\"\n");
    let candidates = vec!["/r/zzz-app/Cargo.toml".to_string(), "/r/aaa-app/Cargo.toml".to_string()];
    let (mut run, mut action) = ScanRun::start("/r".to_string(), Scope::TauriAndRust, candidates);
    loop {
        run.warnings.clear();
        let event = match action {
            ScanAction::ReadManifest(path) => {
                let name = if path.contains("aaa-app") { "aaa-app" } else { "zzz-app" };
                ScanEvent::Manifest(if path.ends_with("-app/Cargo.toml") { parse_manifest(&manifest(name)).ok() } else { None })
            }
            ScanAction::ProbeDir(path) => ScanEvent::Probed(path.ends_with("-app/target")),
            ScanAction::Canonicalize(path) => ScanEvent::Canonical(Ok(path)),
            ScanAction::Analyze(_) => ScanEvent::Analyzed(Ok(TargetTally::new())),
            ScanAction::Finish(projects) => return projects,
        };
        action = run.step(event);
    }
}

#[test]
fn test_scan_sort_ties_deterministic() {
    let first = scan_two_projects();
    let second = scan_two_projects();
    assert_eq!(first.len(), 2);
    assert_eq!(first[0].artifact_size, first[1].artifact_size);
    assert!(first[0].artifact_size >= first[1].artifact_size);
    let first_names: Vec<&str> = first.iter().map(|project| project.name.as_str()).collect();
    let second_names: Vec<&str> = second.iter().map(|project| project.name.as_str()).collect();
    assert_eq!(first_names, second_names);
    assert_eq!(first_names, vec!["aaa-app", "zzz-app"]);
}
