use deoxidizer_lib::cleaner::{CleanAction, CleanEvent, CleanResult, CleanRun, Measurement};
use deoxidizer_lib::config::{choose_default_dir, CleanBehavior, Config, DefaultMode, Scope};
use deoxidizer_lib::scan_flow::{choose_target_dir, AncestorProbe, ScanAction, ScanEvent, ScanRun};
use deoxidizer_lib::http::{checked_download_failure_message, checked_fetch_failure_message, is_hint_readable, parse_header_hint};
use deoxidizer_lib::project::{DiscoveredProject, ProjectKind, TargetTally};
use deoxidizer_lib::scanner::{parse_manifest, sort_projects};
use deoxidizer_lib::update_flow::{UpdateAction, UpdateEvent, UpdateRun};
use sha2::{Digest, Sha256};

fn project_at(name: &str, path: &str, size: u64) -> DiscoveredProject {
    DiscoveredProject {
        name: name.to_string(),
        path: path.to_string(),
        kind: ProjectKind::RustProject,
        artifact_dir: format!("{path}/target"),
        artifact_size: size,
        last_modified: None,
        breakdown: None,
    }
}

#[test]
fn sort_keeps_scan_order_for_equal_size_and_name() {
    let input = vec![
        project_at("app", "/first/app", 10),
        project_at("big", "/big", 50),
        project_at("app", "/second/app", 10),
        project_at("app", "/third/app", 10),
    ];
    let sorted = sort_projects(input);
    let paths: Vec<&str> = sorted.iter().map(|p| p.path.as_str()).collect();
    assert_eq!(paths, vec!["/big", "/first/app", "/second/app", "/third/app"]);
}

#[test]
fn scanned_project_breakdown_adds_up() {
    let mut tally = TargetTally::new();
    tally.add_file(&vec!["debug".to_string()], 100, Some(5));
    tally.add_file(&vec!["release".to_string(), "deps".to_string()], 40, Some(9));
    tally.add_file(&vec![], 2, None);
    let project = DiscoveredProject::from_scan("demo".to_string(), "/work/demo".to_string(), ProjectKind::TauriApp, tally);
    assert_eq!(project.artifact_size, 142);
    assert_eq!(project.artifact_dir, std::path::Path::new("/work/demo").join("target").to_string_lossy());
    assert_eq!(project.last_modified, Some(9));
    let breakdown = project.breakdown.clone().unwrap();
    assert_eq!(breakdown.total(), project.artifact_size);
    assert_eq!(breakdown.deps_size, 40);
}

#[test]
fn saved_config_keys_follow_field_order() {
    let config = Config {
        version: 2,
        projects_dir: "/tmp/p".to_string(),
        scope: Scope::RustOnly,
        clean_behavior: CleanBehavior::Delete,
        default_mode: DefaultMode::Full,
        min_size_mb: 3,
        ignored_projects: vec![],
    };
    let text = config.save().unwrap();
    let order = [
        "\"version\"",
        "\"projects_dir\"",
        "\"scope\"",
        "\"clean_behavior\"",
        "\"default_mode\"",
        "\"min_size_mb\"",
        "\"ignored_projects\"",
    ];
    let positions: Vec<usize> = order.iter().map(|key| text.find(key).unwrap()).collect();
    let mut sorted = positions.clone();
    sorted.sort();
    assert_eq!(positions, sorted);
    assert!(text.ends_with("}\n"));
}

#[test]
fn header_hint_offsets_are_bytes_of_the_lowercased_text() {
    // The Kelvin sign lower-cases to a one-byte `k`, so the byte offset of the
    // value in the lower-cased text lands earlier in the original text.
    assert_eq!(parse_header_hint("\u{212A}\u{212A} retry-after: 42", "retry-after"), Some("ter: 42".to_string()));
    assert_eq!(parse_header_hint("retry-after: 7", "retry-after"), Some("7".to_string()));
}

#[test]
fn header_hint_inside_a_character_is_not_readable() {
    assert!(!is_hint_readable("\u{130} retry-after:\u{e9}", "retry-after"));
    assert!(is_hint_readable("retry-after: 5", "retry-after"));
    assert!(is_hint_readable("no hint here", "retry-after"));
    assert_eq!(checked_fetch_failure_message("\u{130} retry-after:\u{e9}", Some(429), None, Some("9")), None);
    assert_eq!(
        checked_fetch_failure_message("boom", Some(429), None, Some("9")),
        Some("HTTP request failed: boom [rate limited; retry later (X-RateLimit-Reset: 9)]".to_string())
    );
    assert_eq!(
        checked_download_failure_message("\u{130} retry-after:\u{e9}", Some(500), None, None),
        Some("Download failed: \u{130} retry-after:\u{e9}".to_string())
    );
}

fn paths(names: &[&str]) -> Vec<String> {
    names.iter().map(|n| n.to_string()).collect()
}

fn inside(path: &str, size: u64) -> Result<Measurement, String> {
    Ok(Measurement { target: "/t".to_string(), canonical: path.to_string(), size })
}

#[test]
fn dry_run_measures_and_removes_nothing() {
    let (mut run, action) = CleanRun::start(paths(&["/t/debug", "/t/release"]), true);
    assert!(matches!(action, CleanAction::Measure(0)));
    let action = run.step(CleanEvent::Measured(inside("/t/debug", 30)));
    assert!(matches!(action, CleanAction::Measure(1)));
    let action = run.step(CleanEvent::Measured(inside("/t/release", 12)));
    match action {
        CleanAction::Finish(CleanResult::Cleaned { bytes_freed }) => assert_eq!(bytes_freed, 42),
        _ => panic!("dry run must finish with the estimate"),
    }
}

#[test]
fn dry_run_stops_at_first_measurement_error() {
    let (mut run, _) = CleanRun::start(paths(&["/t/a", "/t/b"]), true);
    let action = run.step(CleanEvent::Measured(Err("refusing symlink".to_string())));
    match action {
        CleanAction::Finish(CleanResult::Error { message }) => assert_eq!(message, "refusing symlink"),
        _ => panic!("expected an error result"),
    }
}

#[test]
fn run_refuses_a_directory_that_resolves_outside_the_target() {
    let (mut run, _) = CleanRun::start(paths(&["/t/a"]), false);
    let escaped = Ok(Measurement { target: "/t".to_string(), canonical: "/elsewhere/a".to_string(), size: 7 });
    match run.step(CleanEvent::Measured(escaped)) {
        CleanAction::Finish(CleanResult::Error { message }) => assert_eq!(
            message,
            "Failed to validate /t/a: clean path /t/a resolved outside target directory"
        ),
        _ => panic!("an escaping directory must not be removed"),
    }
    let (mut run, _) = CleanRun::start(paths(&["/other/a"]), true);
    match run.step(CleanEvent::Measured(inside("/other/a", 7))) {
        CleanAction::Finish(CleanResult::Error { message }) => assert_eq!(message, "clean path is outside target directory"),
        _ => panic!("a directory outside the target must not count"),
    }
}

#[test]
fn empty_run_has_nothing_to_clean() {
    let (_, action) = CleanRun::start(Vec::new(), false);
    match action {
        CleanAction::Finish(CleanResult::Skipped { reason }) => assert_eq!(reason, "No matching directories found"),
        _ => panic!("expected a skipped result"),
    }
}

#[test]
fn real_run_removes_only_validated_directories() {
    let (mut run, _) = CleanRun::start(paths(&["/t/a", "/t/b", "/t/c"]), false);
    let action = run.step(CleanEvent::Measured(inside("/t/a", 10)));
    assert!(matches!(action, CleanAction::Remove(0)));
    let action = run.step(CleanEvent::Removed(Ok(())));
    assert!(matches!(action, CleanAction::Measure(1)));
    let action = run.step(CleanEvent::Measured(Err("escapes target".to_string())));
    assert!(matches!(action, CleanAction::Measure(2)));
    let action = run.step(CleanEvent::Measured(inside("/t/c", 5)));
    assert!(matches!(action, CleanAction::Remove(2)));
    let action = run.step(CleanEvent::Removed(Err("busy".to_string())));
    match action {
        CleanAction::Finish(CleanResult::Partial { bytes_freed, message }) => {
            assert_eq!(bytes_freed, 10);
            assert_eq!(message, "Failed to validate /t/b: escapes target; Failed to remove /t/c: busy");
        }
        _ => panic!("expected a partial result"),
    }
}

fn digest_of(data: &[u8]) -> String {
    let mut hasher = Sha256::new();
    hasher.update(data);
    hex::encode(hasher.finalize())
}

fn start_update() -> (UpdateRun, UpdateAction) {
    UpdateRun::start(
        "deox.tar.gz".to_string(),
        "https://github.com/a/deox.tar.gz".to_string(),
        "https://github.com/a/SHA256SUMS.txt".to_string(),
        "https://github.com/a/SHA256SUMS.txt.asc".to_string(),
    )
}

#[test]
fn update_checks_signature_before_asset_and_digest_before_install() {
    let asset = b"binary".to_vec();
    let manifest = format!("{}  deox.tar.gz\n", digest_of(&asset));
    let (mut run, action) = start_update();
    assert!(matches!(action, UpdateAction::DownloadChecksums));
    let action = run.step(UpdateEvent::Downloaded(Ok(manifest.clone().into_bytes())));
    assert!(matches!(action, UpdateAction::DownloadSignature));
    let action = run.step(UpdateEvent::Downloaded(Ok(b"sig".to_vec())));
    assert!(matches!(action, UpdateAction::VerifySignature));
    assert!(!run.signature_verified);
    let action = run.step(UpdateEvent::SignatureChecked(Ok(())));
    assert!(matches!(action, UpdateAction::DecodeChecksums));
    let action = run.step(UpdateEvent::Decoded(Ok(manifest)));
    assert!(matches!(action, UpdateAction::DownloadAsset));
    let action = run.step(UpdateEvent::Downloaded(Ok(asset.clone())));
    assert!(matches!(action, UpdateAction::Install));
    assert_eq!(run.asset, asset);
}

#[test]
fn update_stops_on_bad_signature_and_bad_digest() {
    let (mut run, _) = start_update();
    run.step(UpdateEvent::Downloaded(Ok(b"sums".to_vec())));
    run.step(UpdateEvent::Downloaded(Ok(b"sig".to_vec())));
    match run.step(UpdateEvent::SignatureChecked(Err("BADSIG".to_string()))) {
        UpdateAction::Fail(message) => assert_eq!(message, "Checksum signature verification FAILED: BADSIG"),
        _ => panic!("expected a failure"),
    }

    let (mut run, _) = start_update();
    run.step(UpdateEvent::Downloaded(Ok(b"sums".to_vec())));
    run.step(UpdateEvent::Downloaded(Ok(b"sig".to_vec())));
    run.step(UpdateEvent::SignatureChecked(Ok(())));
    run.step(UpdateEvent::Decoded(Ok(format!("{}  deox.tar.gz\n", digest_of(b"other")))));
    assert!(matches!(run.step(UpdateEvent::Downloaded(Ok(b"binary".to_vec()))), UpdateAction::ChecksumMismatch));

    let (mut run, _) = start_update();
    match run.step(UpdateEvent::Downloaded(Err("timeout".to_string()))) {
        UpdateAction::Fail(message) => assert_eq!(message, "Could not download checksums: timeout. Aborting update."),
        _ => panic!("expected a failure"),
    }
}

#[test]
fn loose_spellings_and_their_keys_read_the_same() {
    assert_eq!(Scope::from_str_loose("TAURI_ONLY"), Some(Scope::TauriOnly));
    assert_eq!(Scope::from_str_loose("tauri-only"), Some(Scope::TauriOnly));
    assert_eq!(DefaultMode::from_str_loose("Debug_Only"), DefaultMode::from_str_loose("debug-only"));
    assert_eq!(CleanBehavior::from_str_loose("TRASH"), CleanBehavior::from_str_loose("trash"));
}

#[test]
fn default_dir_choice_takes_first_existing_candidate() {
    let home = Some("/home/u".to_string());
    let expected = std::path::Path::new("/home/u").join("GitHub").to_string_lossy().into_owned();
    assert_eq!(choose_default_dir(home.clone(), &vec![false, true], None), expected);
    assert_eq!(choose_default_dir(home.clone(), &vec![false; 7], Some("/work".to_string())), "/work");
    assert_eq!(choose_default_dir(None, &vec![], None), ".");
    assert_eq!(choose_default_dir(None, &vec![true], Some("/cwd".to_string())), "/cwd");
}

#[test]
fn default_config_is_saveable() {
    let detected = deoxidizer_lib::config::detect_default_projects_dir();
    assert!(!detected.trim().is_empty());
    let config = Config::default();
    let text = config.save().expect("default config must save");
    let loaded = Config::load_from("/tmp/x", deoxidizer_lib::config::ReadOutcome::Text(text)).unwrap();
    assert_eq!(loaded.projects_dir, config.projects_dir);
    assert_eq!(loaded.version, 2);
}

#[test]
fn target_choice_prefers_own_then_nearest_workspace() {
    let probes = vec![
        AncestorProbe { dir: "/r/ws/sub".to_string(), is_workspace: false, real_target: None },
        AncestorProbe { dir: "/r/ws".to_string(), is_workspace: true, real_target: Some("/r/ws/target".to_string()) },
        AncestorProbe { dir: "/r".to_string(), is_workspace: true, real_target: Some("/r/target".to_string()) },
    ];
    assert_eq!(
        choose_target_dir("/r/ws/sub/m", None, &probes),
        Some(("/r/ws".to_string(), "/r/ws/target".to_string()))
    );
    assert_eq!(
        choose_target_dir("/r/ws/sub/m", Some("/r/ws/sub/m/target".to_string()), &probes),
        Some(("/r/ws/sub/m".to_string(), "/r/ws/sub/m/target".to_string()))
    );
    assert_eq!(choose_target_dir("/x", None, &vec![]), None);
}

fn run_scan(
    manifests: &[(&str, &str)],
    real_dirs: &[&str],
    sizes: &[(&str, u64)],
    scope: Scope,
) -> (Vec<DiscoveredProject>, Vec<String>, Vec<String>) {
    let candidates: Vec<String> = manifests.iter().map(|(p, _)| p.to_string()).rev().collect();
    let (mut run, mut action) = ScanRun::start("/r".to_string(), scope, candidates);
    let mut reads = Vec::new();
    let mut warnings = Vec::new();
    loop {
        warnings.extend(run.warnings.drain(..));
        let event = match action {
            ScanAction::ReadManifest(path) => {
                reads.push(path.clone());
                let text = manifests.iter().find(|(p, _)| *p == path).map(|(_, t)| *t);
                ScanEvent::Manifest(text.and_then(|t| parse_manifest(t).ok()))
            }
            ScanAction::ProbeDir(path) => ScanEvent::Probed(real_dirs.contains(&path.as_str())),
            ScanAction::Canonicalize(path) => ScanEvent::Canonical(Ok(path)),
            ScanAction::Analyze(path) => {
                let size = sizes.iter().find(|(p, _)| *p == path).map(|(_, n)| *n);
                match size {
                    Some(n) => {
                        let mut tally = TargetTally::new();
                        tally.add_file(&vec!["debug".to_string()], n, None);
                        ScanEvent::Analyzed(Ok(tally))
                    }
                    None => ScanEvent::Analyzed(Err("unreadable".to_string())),
                }
            }
            ScanAction::Finish(projects) => return (projects, warnings, reads),
        };
        action = run.step(event);
    }
}

#[test]
fn scan_uses_shared_workspace_target_once() {
    let manifests = [
        ("/r/a/Cargo.toml", "[package]\nname = \"a\"\n"),
        ("/r/ws/Cargo.toml", "[workspace]\nmembers = [\"m\", \"n\"]\n"),
        ("/r/ws/m/Cargo.toml", "[package]\nname = \"m\"\n"),
        ("/r/ws/n/Cargo.toml", "[package]\nname = \"n\"\n"),
    ];
    let (projects, warnings, _) =
        run_scan(&manifests, &["/r/a/target", "/r/ws/target"], &[("/r/a/target", 5), ("/r/ws/target", 9)], Scope::TauriAndRust);
    let found: Vec<(&str, &str, u64)> =
        projects.iter().map(|p| (p.name.as_str(), p.path.as_str(), p.artifact_size)).collect();
    assert_eq!(found, vec![("m", "/r/ws", 9), ("a", "/r/a", 5)]);
    for project in &projects {
        assert_eq!(project.breakdown.clone().unwrap().total(), project.artifact_size);
    }
    assert_eq!(
        warnings,
        vec!["Warning: duplicate target directory /r/ws/target for /r/ws/n/Cargo.toml; keeping lexicographically-first claimant"]
    );
}

#[test]
fn scan_skips_invalid_and_out_of_scope_and_counts_analysis_failures() {
    let manifests = [
        ("/r/a/Cargo.toml", "[package]\nname = \"a\"\n"),
        ("/r/b/Cargo.toml", "not = [valid"),
        ("/r/c/Cargo.toml", "[package]\nname = \"c\"\n"),
    ];
    let (projects, warnings, _) = run_scan(&manifests, &["/r/a/target", "/r/c/target"], &[("/r/a/target", 3)], Scope::TauriOnly);
    assert!(projects.is_empty());
    assert_eq!(warnings, vec!["Warning: ignoring unreadable or invalid manifest /r/b/Cargo.toml"]);
    let (projects, warnings, _) = run_scan(&manifests, &["/r/a/target", "/r/c/target"], &[("/r/a/target", 3)], Scope::RustOnly);
    assert_eq!(projects.len(), 1);
    assert_eq!(
        warnings,
        vec![
            "Warning: ignoring unreadable or invalid manifest /r/b/Cargo.toml".to_string(),
            "Warning: cannot analyze target directory /r/c/target: unreadable; skipping project c".to_string(),
            "Warning: skipped 1 project(s) due to target analysis errors.".to_string(),
        ]
    );
}

#[test]
fn unknown_key_is_refused_before_the_version() {
    let text = "{\n  \"version\": 99,\n  \"projects_dir\": \"/tmp\",\n  \"scope\": \"tauri-only\",\n  \"clean_behavior\": \"delete\",\n  \"default_mode\": \"full\",\n  \"min_size_mb\": 0,\n  \"ignored_projects\": [],\n  \"extra\": 1\n}";
    let loaded = Config::load_from("/tmp/c", deoxidizer_lib::config::ReadOutcome::Text(text.to_string()));
    assert!(matches!(loaded, Err(deoxidizer_lib::config::ConfigError::Parse(_))));
}

#[test]
fn version_of_another_type_is_a_parse_error() {
    let with = |version: &str, extra: &str| {
        format!("{{\n  {version}\"projects_dir\": \"/tmp\",\n  \"scope\": \"tauri-only\",\n  \"clean_behavior\": \"delete\",\n  \"default_mode\": \"full\",\n  \"min_size_mb\": 0,\n  \"ignored_projects\": []{extra}\n}}")
    };
    let load = |text: String| Config::load_from("/tmp/c", deoxidizer_lib::config::ReadOutcome::Text(text));
    match load(with("\"version\": null,\n  ", "")) {
        Err(deoxidizer_lib::config::ConfigError::Parse(message)) => {
            assert_eq!(message, "invalid value for field `version`")
        }
        other => panic!("expected a parse error, got {other:?}"),
    }
    assert!(matches!(load(with("", "")), Err(deoxidizer_lib::config::ConfigError::Invalid(_))));
    assert!(matches!(load(with("\"version\": \"2\",\n  ", "")), Err(deoxidizer_lib::config::ConfigError::Invalid(_))));
    match load(with("", ",\n  \"zeta\": 1,\n  \"alpha\": 2")) {
        Err(deoxidizer_lib::config::ConfigError::Parse(message)) => assert_eq!(message, "unknown field `zeta`"),
        other => panic!("expected a parse error, got {other:?}"),
    }
}
