//! The text of the scan table, the inspection view and the clean summary.
//!
//! Colours and column padding are applied where the text is printed; here
//! each cell is computed from the project data.
use vstd::prelude::*;
use crate::project::{DiscoveredProject, ProjectKind, TargetBreakdown, sat};
use crate::text::{chars_of, decimal, decimal_string, push_char, push_str, string_from_chars};

verus! {

broadcast use vstd::string::group_string_axioms;

/// What `humansize::format_size(bytes, BINARY)` writes for `bytes`.
pub uninterp spec fn binary_size(bytes: u64) -> Seq<char>;

/// `humansize::format_size` with the `BINARY` options (1024-based units,
/// `B`, `KiB`, `MiB`, ..., two decimals unless the value is whole).
///
/// The contract names the result; the one fact stated beside the name is the
/// byte range below 1024, where the source writes the whole number followed
/// by ` B` (scale index 0, no decimals for a whole value).
#[verifier::external_body]
fn format_binary_size(bytes: u64) -> (r: String)
    ensures
        r@ == binary_size(bytes),
        bytes < 1024 ==> r@ == decimal(bytes as nat) + " B"@,
{
    humansize::format_size(bytes, humansize::BINARY)
}

/// The placeholder shown for a missing value.
pub open spec fn dash() -> Seq<char> {
    "—"@
}

/// A byte count in 1024-based units.
pub fn size_label(bytes: u64) -> (r: String)
    ensures
        r@ == binary_size(bytes),
        bytes < 1024 ==> r@ == decimal(bytes as nat) + " B"@,
{
    format_binary_size(bytes)
}

/// A size cell of the table: the size, or a dash for zero.
pub open spec fn size_cell_text(bytes: u64) -> Seq<char> {
    if bytes > 0 {
        binary_size(bytes)
    } else {
        dash()
    }
}

fn dash_string() -> (r: String)
    ensures
        r@ == dash(),
{
    let mut s = String::new();
    push_str(&mut s, "—");
    s
}

/// The size cell of the table for `bytes`.
pub fn size_cell(bytes: u64) -> (r: String)
    ensures
        r@ == size_cell_text(bytes),
{
    if bytes > 0 {
        format_binary_size(bytes)
    } else {
        dash_string()
    }
}

/// The `Debug` column: the debug profile size, or a dash.
pub open spec fn debug_cell_text(b: Option<TargetBreakdown>) -> Seq<char> {
    match b {
        Some(b) => size_cell_text(b.debug_size),
        None => dash(),
    }
}

/// The `Release` column: the release profile size, or a dash.
pub open spec fn release_cell_text(b: Option<TargetBreakdown>) -> Seq<char> {
    match b {
        Some(b) => size_cell_text(b.release_size),
        None => dash(),
    }
}

/// The `Debug` column of a project's row.
pub fn debug_cell(b: &Option<TargetBreakdown>) -> (r: String)
    ensures
        r@ == debug_cell_text(*b),
{
    match b {
        Some(b) => size_cell(b.debug_size),
        None => dash_string(),
    }
}

/// The `Release` column of a project's row.
pub fn release_cell(b: &Option<TargetBreakdown>) -> (r: String)
    ensures
        r@ == release_cell_text(*b),
{
    match b {
        Some(b) => size_cell(b.release_size),
        None => dash_string(),
    }
}

/// The `Type` column.
pub open spec fn kind_label_text(kind: ProjectKind) -> Seq<char> {
    match kind {
        ProjectKind::TauriApp => "🦀 Tauri"@,
        ProjectKind::RustProject => "⚙ Rust"@,
    }
}

/// The `Type` column of a project's row.
pub fn kind_label(kind: ProjectKind) -> (r: String)
    ensures
        r@ == kind_label_text(kind),
{
    let mut s = String::new();
    match kind {
        ProjectKind::TauriApp => push_str(&mut s, "🦀 Tauri"),
        ProjectKind::RustProject => push_str(&mut s, "⚙ Rust"),
    }
    s
}

/// Nanoseconds in a second.
pub const NANOS_PER_SEC: i128 = 1_000_000_000;

/// Seconds in a day.
pub const SECS_PER_DAY: u64 = 86400;

/// Whole days elapsed from `modified` to `now` (both in nanoseconds since
/// the Unix epoch): none when `modified` lies after `now` (the clock reports
/// no elapsed time then) or when the span does not fit the integer types.
pub open spec fn age_in_days(now: int, modified: int) -> Option<int> {
    if modified <= now && now - modified <= i128::MAX && (now - modified) / (NANOS_PER_SEC as int)
        <= u64::MAX {
        Some((now - modified) / (NANOS_PER_SEC as int) / (SECS_PER_DAY as int))
    } else {
        None
    }
}

/// Whole days since `modified`, as of `now`.
pub fn days_since(now: i128, modified: i128) -> (r: Option<u64>)
    ensures
        r matches Some(d) ==> age_in_days(now as int, modified as int) == Some(d as int),
        r is None ==> age_in_days(now as int, modified as int) is None,
{
    if now < modified {
        return None;
    }
    match now.checked_sub(modified) {
        None => None,
        Some(diff) => {
            let secs: i128 = diff / NANOS_PER_SEC;
            if secs > 0xffff_ffff_ffff_ffffi128 {
                None
            } else {
                let secs_u: u64 = secs as u64;
                Some(secs_u / SECS_PER_DAY)
            }
        },
    }
}

/// The age of a build, in words.
pub open spec fn age_text(days: nat) -> Seq<char> {
    if days == 0 {
        "today"@
    } else if days == 1 {
        "1 day ago"@
    } else {
        decimal(days) + " days ago"@
    }
}

/// Writes an age of `days` whole days.
pub fn age_label(days: u64) -> (r: String)
    ensures
        r@ == age_text(days as nat),
{
    if days == 0 {
        let mut s = String::new();
        push_str(&mut s, "today");
        s
    } else if days == 1 {
        let mut s = String::new();
        push_str(&mut s, "1 day ago");
        s
    } else {
        let mut s = decimal_string(days);
        push_str(&mut s, " days ago");
        s
    }
}

/// The `Last Build` column: the age of the newest artifact, or a dash.
pub open spec fn age_cell_text(last_modified: Option<i128>, now: i128) -> Seq<char> {
    match last_modified {
        Some(t) => match age_in_days(now as int, t as int) {
            Some(d) => age_text(d as nat),
            None => dash(),
        },
        None => dash(),
    }
}

/// The `Last Build` column of a project's row, as of `now`.
pub fn age_cell(last_modified: Option<i128>, now: i128) -> (r: String)
    ensures
        r@ == age_cell_text(last_modified, now),
{
    match last_modified {
        Some(t) => match days_since(now, t) {
            Some(d) => age_label(d),
            None => dash_string(),
        },
        None => dash_string(),
    }
}

/// `name` cut to at most `max` characters, the last one an ellipsis when
/// characters were dropped.
pub open spec fn truncated(name: Seq<char>, max: nat) -> Seq<char> {
    if max == 0 {
        Seq::empty()
    } else if name.len() <= max {
        name
    } else if max == 1 {
        seq!['…']
    } else {
        name.take(max - 1).push('…')
    }
}

/// Truncate a project name to `max` characters, appending `…`.
///
/// Counts characters, not terminal columns: wide characters may occupy more
/// columns than `max`.
pub fn truncate_name(name: &str, max: usize) -> (r: String)
    ensures
        r@ == truncated(name@, max as nat),
        r@.len() <= max,
        name@.len() <= max ==> r@ == name@,
{
    if max == 0 {
        return String::new();
    }
    let cs = chars_of(name);
    if cs.len() <= max {
        return string_from_chars(cs.as_slice());
    }
    if max == 1 {
        let mut s = String::new();
        push_char(&mut s, '…');
        assert(s@ =~= seq!['…']);
        return s;
    }
    let keep = max - 1;
    let mut s = string_from_chars(&cs.as_slice()[0..keep]);
    assert(cs@.subrange(0, keep as int) =~= name@.take(keep as int));
    push_char(&mut s, '…');
    s
}

/// `part / total` as a whole-number percentage, at most 100.
pub open spec fn percent_value(part: nat, total: nat) -> nat {
    let p = part * 100 / total;
    if p > 100 {
        100
    } else {
        p
    }
}

/// The percentage text of a subset row: a dash for an empty total.
pub open spec fn percent_text(part: u64, total: u64) -> Seq<char> {
    if total == 0 {
        dash()
    } else {
        decimal(percent_value(part as nat, total as nat)) + "%"@
    }
}

/// Format `part / total` as a whole-number percentage for subset rows.
pub fn percent_of(part: u64, total: u64) -> (r: String)
    ensures
        r@ == percent_text(part, total),
{
    if total == 0 {
        return dash_string();
    }
    let scaled: u128 = (part as u128) * 100;
    let q: u128 = scaled / (total as u128);
    let p: u64 = if q > 100 { 100 } else { q as u64 };
    assert(p == percent_value(part as nat, total as nat));
    let mut s = decimal_string(p);
    push_str(&mut s, "%");
    s
}

/// A subset row of the inspection view: the size and its share of the total.
pub open spec fn share_text(part: u64, total: u64) -> Seq<char> {
    binary_size(part) + " ("@ + percent_text(part, total) + ")"@
}

/// Writes `<size> (<percent>)` for a subset of `total`.
pub fn share_cell(part: u64, total: u64) -> (r: String)
    ensures
        r@ == share_text(part, total),
{
    let mut s = format_binary_size(part);
    push_str(&mut s, " (");
    let pct = percent_of(part, total);
    push_str(&mut s, pct.as_str());
    push_str(&mut s, ")");
    s
}

/// Sum of the artifact sizes of `ps[..n]`, saturating at `u64::MAX`.
pub open spec fn total_size_of(ps: Seq<DiscoveredProject>, n: nat) -> int
    decreases n,
{
    if n == 0 || n > ps.len() {
        0
    } else {
        sat(total_size_of(ps, (n - 1) as nat) + ps[n - 1].artifact_size)
    }
}

/// The total artifact size shown under the table, saturating.
pub fn total_artifact_size(projects: &Vec<DiscoveredProject>) -> (r: u64)
    ensures
        r == total_size_of(projects@, projects@.len()),
{
    let mut total: u64 = 0;
    let mut i: usize = 0;
    while i < projects.len()
        invariant
            i <= projects@.len(),
            total == total_size_of(projects@, i as nat),
        decreases projects@.len() - i,
    {
        total = total.saturating_add(projects[i].artifact_size);
        i = i + 1;
    }
    total
}

/// `1 error` or `N errors`.
pub open spec fn error_count_text(count: nat) -> Seq<char> {
    if count == 1 {
        "1 error"@
    } else {
        decimal(count) + " errors"@
    }
}

/// The error count of the clean summary.
pub fn error_count(count: usize) -> (r: String)
    ensures
        r@ == error_count_text(count as nat),
{
    if count == 1 {
        let mut s = String::new();
        push_str(&mut s, "1 error");
        s
    } else {
        let mut s = decimal_string(count as u64);
        push_str(&mut s, " errors");
        s
    }
}

/// The cells of one row of the scan table, before padding and colour.
#[derive(Debug)]
pub struct ScanRow {
    pub number: String,
    pub name: String,
    pub kind: String,
    pub total: String,
    pub debug: String,
    pub release: String,
    pub age: String,
}

/// Width of the `Project` column.
pub const NAME_WIDTH: usize = 20;

/// The row of the project at position `index` (counted from zero) of the
/// scan table, as of `now`.
pub fn scan_row(index: usize, project: &DiscoveredProject, now: i128) -> (r: ScanRow)
    requires
        index < usize::MAX,
    ensures
        r.number@ == decimal(index as nat + 1),
        r.name@ == truncated(project.name@, NAME_WIDTH as nat),
        r.kind@ == kind_label_text(project.kind),
        r.total@ == binary_size(project.artifact_size),
        r.debug@ == debug_cell_text(project.breakdown),
        r.release@ == release_cell_text(project.breakdown),
        r.age@ == age_cell_text(project.last_modified, now),
{
    ScanRow {
        number: decimal_string((index + 1) as u64),
        name: truncate_name(project.name.as_str(), NAME_WIDTH),
        kind: kind_label(project.kind),
        total: format_binary_size(project.artifact_size),
        debug: debug_cell(&project.breakdown),
        release: release_cell(&project.breakdown),
        age: age_cell(project.last_modified, now),
    }
}

} // verus!
