use deoxidizer_lib::config::Scope;
use deoxidizer_lib::paths::bounded_ancestors;
use deoxidizer_lib::project::{DiscoveredProject, ProjectKind, TargetBreakdown, TargetTally};
use deoxidizer_lib::scanner::{
    apply_scan_filters, detect_project_kind, extract_project_name, is_artifact_dir, is_hidden,
    is_tauri_dep_entry, is_virtual_manifest, parse_manifest, root_manifest_check, scope_admits, sort_candidates, sort_projects, RootCheck,
    ScanError, TargetClaims,
};

fn manifest(text: &str) -> toml::Value {
    parse_manifest(text).unwrap()
}

fn project(name: &str, size: u64) -> DiscoveredProject {
    DiscoveredProject {
        name: name.to_string(),
        path: format!("/p/{name}"),
        kind: ProjectKind::RustProject,
        artifact_dir: format!("/p/{name}/target"),
        artifact_size: size,
        last_modified: None,
        breakdown: None,
    }
}

fn names(projects: &[DiscoveredProject]) -> Vec<&str> {
    projects.iter().map(|p| p.name.as_str()).collect()
}

#[test]
fn tauri_dependency_detection() {
    let tauri = manifest("[package]\nname = \"a\"\n[dependencies]\ntauri = \"2\"\n");
    assert_eq!(detect_project_kind(&tauri, None), ProjectKind::TauriApp);
    let build = manifest("[package]\nname = \"a\"\n[build-dependencies]\ntauri-build = \"2\"\n");
    assert_eq!(detect_project_kind(&build, None), ProjectKind::TauriApp);
    let plain = manifest("[package]\nname = \"a\"\n[dependencies]\nserde = \"1\"\n");
    assert_eq!(detect_project_kind(&plain, None), ProjectKind::RustProject);
    let dev_only = manifest("[package]\nname = \"a\"\n[dev-dependencies]\ntauri = \"2\"\n");
    assert_eq!(detect_project_kind(&dev_only, None), ProjectKind::RustProject);
    let plugin_only = manifest("[dependencies]\ntauri-plugin-shell = \"2\"\n");
    assert_eq!(detect_project_kind(&plugin_only, None), ProjectKind::RustProject);
}

#[test]
fn renamed_and_target_specific_dependencies() {
    let renamed = manifest("[dependencies]\nframework = { version = \"2\", package = \"tauri\" }\n");
    assert_eq!(detect_project_kind(&renamed, None), ProjectKind::TauriApp);
    let not_tauri = manifest("[dependencies]\ntauri = { version = \"1\", package = \"something-else\" }\n");
    assert_eq!(detect_project_kind(&not_tauri, None), ProjectKind::RustProject);
    let target = manifest("[target.'cfg(windows)'.dependencies]\ntauri = \"2\"\n");
    assert_eq!(detect_project_kind(&target, None), ProjectKind::TauriApp);
    let entry = manifest("x = { package = \"tauri-build\" }\n");
    assert!(is_tauri_dep_entry("x", entry.get("x").unwrap()));
    assert!(is_tauri_dep_entry("tauri", &toml::Value::String("2".to_string())));
    assert!(!is_tauri_dep_entry("serde", &toml::Value::String("1".to_string())));
}

#[test]
fn inherited_workspace_dependencies() {
    let workspace = manifest(
        "[workspace]\nmembers = [\"app\"]\n[workspace.dependencies]\nframework = { version = \"2\", package = \"tauri\" }\n",
    );
    let member = manifest("[package]\nname = \"app\"\n[dependencies]\nframework = { workspace = true }\n");
    assert_eq!(detect_project_kind(&member, Some(&workspace)), ProjectKind::TauriApp);
    assert_eq!(detect_project_kind(&member, None), ProjectKind::RustProject);
    let direct = manifest("[package]\nname = \"app\"\n[dependencies]\ntauri = { workspace = true }\n");
    let plain_ws = manifest("[workspace]\n[workspace.dependencies]\nserde = \"1\"\n");
    assert_eq!(detect_project_kind(&direct, Some(&plain_ws)), ProjectKind::TauriApp);
    let shared = manifest("[workspace]\nmembers = [\"app\"]\n\n[workspace.dependencies]\ntauri = \"2\"\n");
    assert_eq!(detect_project_kind(&shared, None), ProjectKind::TauriApp);
}

#[test]
fn scope_filter() {
    assert!(scope_admits(Scope::TauriOnly, ProjectKind::TauriApp));
    assert!(!scope_admits(Scope::TauriOnly, ProjectKind::RustProject));
    assert!(scope_admits(Scope::RustOnly, ProjectKind::RustProject));
    assert!(!scope_admits(Scope::RustOnly, ProjectKind::TauriApp));
    assert!(scope_admits(Scope::TauriAndRust, ProjectKind::TauriApp));
}

#[test]
fn hidden_and_artifact_directories() {
    assert!(is_hidden(".git"));
    assert!(is_hidden(".hidden"));
    assert!(!is_hidden("."));
    assert!(!is_hidden("visible"));
    assert!(is_artifact_dir("target", true));
    assert!(is_artifact_dir("node_modules", true));
    assert!(!is_artifact_dir("target", false));
    assert!(!is_artifact_dir("src", true));
}

#[test]
fn project_names_prefer_package_name() {
    let named = manifest("[package]\nname = \"my-app\"\n");
    assert_eq!(extract_project_name(&named, "/x/dir-name"), "my-app");
    let empty_name = manifest("[package]\nname = \"\"\n");
    assert_eq!(extract_project_name(&empty_name, "/x/dir-name"), "dir-name");
    let workspace = manifest("[workspace]\n");
    assert_eq!(extract_project_name(&workspace, "/"), "unknown");
    assert!(is_virtual_manifest(&workspace));
    assert!(!is_virtual_manifest(&named));
}

#[test]
fn project_root_identity() {
    let named = manifest("[package]\nname = \"real-project\"\n");
    assert!(matches!(root_manifest_check(Some(&named), "real-project"), RootCheck::Matches));
    assert!(matches!(
        root_manifest_check(Some(&named), "forged-project"),
        RootCheck::Reject(m) if m == "project identity does not match Cargo project forged-project"
    ));
    let workspace = manifest("[workspace]\nmembers = [\"a\"]\n");
    assert!(matches!(root_manifest_check(Some(&workspace), "a"), RootCheck::SearchMembers));
    let neither = manifest("[lib]\n");
    assert!(matches!(
        root_manifest_check(Some(&neither), "a"),
        RootCheck::Reject(m) if m == "project root is not a Cargo package or workspace"
    ));
    assert!(matches!(
        root_manifest_check(None, "a"),
        RootCheck::Reject(m) if m == "project root has no valid Cargo.toml"
    ));
}

#[test]
fn filters_drop_small_and_ignored_projects() {
    let projects = vec![project("big", 3 * 1048576), project("exact", 1048576), project("tiny", 10)];
    let kept = apply_scan_filters(projects, 1, &Vec::new()).unwrap();
    assert_eq!(names(&kept), vec!["big", "exact"]);

    let projects = vec![project("MyTauriApp", 5), project("other", 5)];
    let ignored = vec!["  mytauriapp ".to_string()];
    let kept = apply_scan_filters(projects, 0, &ignored).unwrap();
    assert_eq!(names(&kept), vec!["other"]);

    let projects = vec![project("a", u64::MAX)];
    assert!(apply_scan_filters(projects, u64::MAX, &Vec::new()).is_none());
}

#[test]
fn sort_is_by_size_then_name() {
    let sorted = sort_projects(vec![
        project("zzz-app", 100),
        project("aaa-app", 100),
        project("big", 500),
        project("small", 1),
    ]);
    assert_eq!(names(&sorted), vec!["big", "aaa-app", "zzz-app", "small"]);
}

#[test]
fn shared_target_is_claimed_once() {
    let mut claims = TargetClaims::new();
    assert!(claims.claim("/w/target"));
    assert!(claims.claim("/x/target"));
    assert!(!claims.claim("/w/target"));
    assert!(!claims.claim("/x/target"));
}

#[test]
fn ancestors_stop_at_scan_root() {
    assert_eq!(
        bounded_ancestors("/root/ws/app/src-tauri", "/root"),
        vec!["/root/ws/app/src-tauri", "/root/ws/app", "/root/ws", "/root"]
    );
    assert_eq!(bounded_ancestors("/elsewhere/app", "/root"), Vec::<String>::new());
    assert_eq!(bounded_ancestors("/root", "/root"), vec!["/root"]);
}

#[test]
fn scan_error_messages() {
    let root = ScanError::Root {
        path: "/missing".to_string(),
        message: "configured scan root is not a directory".to_string(),
    };
    assert_eq!(root.message(), "cannot scan /missing: configured scan root is not a directory");
    assert_eq!(
        ScanError::Traversal("denied".to_string()).message(),
        "scan traversal failed: denied"
    );
}

#[test]
fn tally_keeps_total_equal_to_breakdown() {
    let mut tally = TargetTally::new();
    tally.add_file(&vec!["debug".to_string(), "deps".to_string()], 1024, Some(5));
    tally.add_file(&vec!["debug".to_string(), "incremental".to_string()], 512, Some(9));
    tally.add_file(&vec!["release".to_string()], 256, None);
    tally.add_file(&vec!["x86_64-pc-windows-msvc".to_string(), "release".to_string()], 100, Some(7));
    tally.add_file(&vec!["CACHEDIR.TAG".to_string()], 8, None);
    let b: &TargetBreakdown = &tally.breakdown;
    assert_eq!(b.debug_size, 1536);
    assert_eq!(b.deps_size, 1024);
    assert_eq!(b.incremental_size, 512);
    assert_eq!(b.release_size, 356);
    assert_eq!(b.other_size, 8);
    assert_eq!(tally.total_size, b.total());
    assert_eq!(tally.last_modified, Some(9));
}

#[test]
fn no_filters_keep_every_project_in_order() {
    let kept = apply_scan_filters(vec![project("b", 0), project("a", 7)], 0, &Vec::new()).unwrap();
    assert_eq!(names(&kept), vec!["b", "a"]);
}

#[test]
fn candidates_sort_by_path_components() {
    let sorted = sort_candidates(vec![
        "/r/b/Cargo.toml".to_string(),
        "/r/a-b/Cargo.toml".to_string(),
        "/r/a/x/Cargo.toml".to_string(),
        "/r/a/Cargo.toml".to_string(),
    ]);
    assert_eq!(
        sorted,
        vec!["/r/a/Cargo.toml", "/r/a/x/Cargo.toml", "/r/a-b/Cargo.toml", "/r/b/Cargo.toml"]
    );
}

#[test]
fn malformed_manifests_are_refused() {
    assert!(parse_manifest("[package\nname = 1").is_err());
    assert!(parse_manifest("").unwrap().is_table());
}
