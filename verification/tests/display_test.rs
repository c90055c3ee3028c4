use deoxidizer_lib::display::{
    age_cell, age_label, days_since, debug_cell, error_count, kind_label, percent_of, release_cell, scan_row,
    share_cell, size_cell, size_label, total_artifact_size, truncate_name,
};
use deoxidizer_lib::project::{DiscoveredProject, ProjectKind, TargetBreakdown};

const DAY: i128 = 86_400 * 1_000_000_000;

fn breakdown(debug: u64, release: u64) -> TargetBreakdown {
    TargetBreakdown {
        debug_size: debug,
        release_size: release,
        incremental_size: 0,
        deps_size: 0,
        other_size: 0,
    }
}

#[test]
fn names_are_truncated_with_ellipsis() {
    assert_eq!(truncate_name("short", 20), "short");
    assert_eq!(truncate_name("abcdefghij", 5), "abcd…");
    assert_eq!(truncate_name("abc", 1), "…");
    assert_eq!(truncate_name("abc", 0), "");
    assert_eq!(truncate_name("ééééé", 5), "ééééé");
    assert_eq!(truncate_name("éééééé", 5).chars().count(), 5);
}

#[test]
fn percentages_are_whole_and_capped() {
    assert_eq!(percent_of(1, 4), "25%");
    assert_eq!(percent_of(2, 3), "66%");
    assert_eq!(percent_of(10, 5), "100%");
    assert_eq!(percent_of(u64::MAX, u64::MAX), "100%");
    assert_eq!(percent_of(1, 0), "—");
}

#[test]
fn ages_in_words() {
    assert_eq!(age_label(0), "today");
    assert_eq!(age_label(1), "1 day ago");
    assert_eq!(age_label(12), "12 days ago");
    assert_eq!(days_since(3 * DAY + 5, 5), Some(3));
    assert_eq!(days_since(5, 6), None);
    assert_eq!(days_since(DAY - 1, 0), Some(0));
    assert_eq!(days_since(i128::MAX, i128::MIN), None);
    assert_eq!(age_cell(Some(0), 2 * DAY), "2 days ago");
    assert_eq!(age_cell(None, 2 * DAY), "—");
    assert_eq!(age_cell(Some(3 * DAY), DAY), "—");
}

#[test]
fn sizes_use_binary_units() {
    assert_eq!(size_label(0), "0 B");
    assert_eq!(size_label(512), "512 B");
    assert_eq!(size_label(1024), "1 KiB");
    assert_eq!(size_label(1536), "1.50 KiB");
    assert_eq!(size_cell(0), "—");
    assert_eq!(size_cell(2048), "2 KiB");
    assert_eq!(share_cell(512, 2048), "512 B (25%)");
}

#[test]
fn table_cells() {
    assert_eq!(kind_label(ProjectKind::TauriApp), "🦀 Tauri");
    assert_eq!(kind_label(ProjectKind::RustProject), "⚙ Rust");
    assert_eq!(debug_cell(&Some(breakdown(1024, 0))), "1 KiB");
    assert_eq!(release_cell(&Some(breakdown(1024, 0))), "—");
    assert_eq!(debug_cell(&None), "—");
    assert_eq!(error_count(1), "1 error");
    assert_eq!(error_count(3), "3 errors");
}

#[test]
fn scan_row_cells_and_total() {
    let project = DiscoveredProject {
        name: "a-really-long-project-name".to_string(),
        path: "/p".to_string(),
        kind: ProjectKind::TauriApp,
        artifact_dir: "/p/target".to_string(),
        artifact_size: 3072,
        last_modified: Some(0),
        breakdown: Some(breakdown(2048, 1024)),
    };
    let row = scan_row(0, &project, DAY);
    assert_eq!(row.number, "1");
    assert_eq!(row.name, "a-really-long-proje…");
    assert_eq!(row.kind, "🦀 Tauri");
    assert_eq!(row.total, "3 KiB");
    assert_eq!(row.debug, "2 KiB");
    assert_eq!(row.release, "1 KiB");
    assert_eq!(row.age, "1 day ago");
    let mut other = project.clone();
    other.artifact_size = u64::MAX;
    assert_eq!(total_artifact_size(&vec![project, other]), u64::MAX);
    assert_eq!(total_artifact_size(&Vec::new()), 0);
}
