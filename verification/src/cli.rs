//! The command-line surface: the parsed arguments and the decisions the
//! commands make from them.
use vstd::prelude::*;
use crate::cleaner::CleanMode;
use crate::config::{check_config, CleanBehavior, Config, ConfigError, ConfigView, DefaultMode, Scope};
use crate::paths::{path_components, path_has_prefix, same_path, starts_with as path_starts_with};
use crate::project::DiscoveredProject;
use crate::text::{decimal, decimal_string, push_str, str_eq, trim, trimmed};

verus! {

broadcast use vstd::string::group_string_axioms;

/// Largest `--min-size-mb` accepted: `u64::MAX / 1 MiB`, so the size in bytes
/// cannot overflow.
pub const MAX_MIN_SIZE_MB: u64 = 17592186044415;

/// Largest `--older-than` in days (100 years).
pub const MAX_OLDER_THAN_DAYS: u32 = 36500;

/// The parsed command line.
pub struct Cli {
    pub command: Option<Commands>,
    /// Check for updates and self-update the binary.
    pub update: bool,
}

/// The subcommands.
pub enum Commands {
    /// Run the interactive setup wizard.
    Setup(SetupArgs),
    /// Scan and clean build artifacts.
    Clean(CleanArgs),
    /// Scan and display artifact sizes without deleting.
    Scan(ScanArgs),
    /// Manage deoxidizer configuration.
    Settings(SettingsArgs),
    /// Show detailed breakdown of a specific project's artifacts.
    Inspect(InspectArgs),
}

/// Arguments of `setup`.
pub struct SetupArgs {
    /// Apply default settings without interactive prompts.
    pub use_defaults: bool,
    /// Skip the overwrite confirmation when `--default` would replace a file.
    pub yes: bool,
}

/// Arguments of `clean`.
pub struct CleanArgs {
    /// Clean mode: full, debug-only, incremental-only, deps-only.
    pub mode: Option<CliCleanMode>,
    /// Skip confirmation prompts.
    pub yes: bool,
    /// Preview what would be cleaned without changing files.
    pub dry_run: bool,
    /// Only include projects at least this large (in MiB, overrides config).
    pub min_size: Option<u64>,
    /// Only clean projects not modified in N days.
    pub older_than: Option<u32>,
    /// Override the configured projects directory for this run.
    pub path: Option<String>,
}

/// The clean modes accepted by `--mode`.
#[derive(Clone, Copy, Debug, PartialEq, Eq, Structural)]
pub enum CliCleanMode {
    Full,
    DebugOnly,
    IncrementalOnly,
    DepsOnly,
}

/// The clean mode a `--mode` value selects.
pub open spec fn cli_mode_of(mode: CliCleanMode) -> CleanMode {
    match mode {
        CliCleanMode::Full => CleanMode::Full,
        CliCleanMode::DebugOnly => CleanMode::DebugOnly,
        CliCleanMode::IncrementalOnly => CleanMode::IncrementalOnly,
        CliCleanMode::DepsOnly => CleanMode::DepsOnly,
    }
}

impl From<CliCleanMode> for CleanMode {
    fn from(mode: CliCleanMode) -> (r: Self) {
        match mode {
            CliCleanMode::Full => CleanMode::Full,
            CliCleanMode::DebugOnly => CleanMode::DebugOnly,
            CliCleanMode::IncrementalOnly => CleanMode::IncrementalOnly,
            CliCleanMode::DepsOnly => CleanMode::DepsOnly,
        }
    }
}

impl vstd::std_specs::convert::FromSpecImpl<CliCleanMode> for CleanMode {
    open spec fn obeys_from_spec() -> bool {
        true
    }

    open spec fn from_spec(v: CliCleanMode) -> CleanMode {
        cli_mode_of(v)
    }
}

/// Arguments of `scan`.
pub struct ScanArgs {
    /// Override the configured projects directory for this run.
    pub path: Option<String>,
    /// Only show projects at least this large (in MiB, overrides config).
    pub min_size: Option<u64>,
    /// Only show projects not modified in N days.
    pub older_than: Option<u32>,
}

/// Arguments of `settings`.
pub struct SettingsArgs {
    pub action: SettingsAction,
}

/// The `settings` subcommands.
pub enum SettingsAction {
    /// Display current configuration.
    Show,
    /// Update configuration values.
    Config(SettingsConfigArgs),
    /// Reset configuration to defaults.
    Reset(SettingsResetArgs),
}

/// Arguments of `settings config`.
pub struct SettingsConfigArgs {
    pub projects_dir: Option<String>,
    pub scope: Option<Scope>,
    pub clean_behavior: Option<CleanBehavior>,
    pub default_mode: Option<DefaultMode>,
    pub min_size_mb: Option<u64>,
    /// Comma-separated project names to ignore (empty clears the list).
    pub ignored_projects: Option<String>,
}

/// Arguments of `settings reset`.
pub struct SettingsResetArgs {
    /// Skip confirmation prompt.
    pub yes: bool,
}

/// Arguments of `inspect`.
pub struct InspectArgs {
    /// Path to the project to inspect.
    pub project: String,
    /// Override the scope filter for inspection (default: tauri-and-rust).
    pub scope: Option<Scope>,
}

/// `1 project` or `N projects`.
pub open spec fn count_noun(count: nat, singular: Seq<char>, plural: Seq<char>) -> Seq<char> {
    if count == 1 {
        "1 "@ + singular
    } else {
        decimal(count) + " "@ + plural
    }
}

/// Format `1 project` vs `N projects` for user-facing counts.
pub fn project_count(count: usize) -> (r: String)
    ensures
        r@ == count_noun(count as nat, "project"@, "projects"@),
{
    let mut s = String::new();
    if count == 1 {
        push_str(&mut s, "1 project");
        proof {
            reveal_strlit("1 project");
            reveal_strlit("1 ");
            reveal_strlit("project");
            assert("1 project"@ =~= "1 "@ + "project"@);
        }
    } else {
        s = decimal_string(count as u64);
        push_str(&mut s, " projects");
        proof {
            reveal_strlit(" projects");
            reveal_strlit(" ");
            reveal_strlit("projects");
            assert(" projects"@ =~= " "@ + "projects"@);
        }
    }
    s
}

/// Why `--path` / `--min-size-mb` overrides were refused (a usage error).
#[derive(Debug)]
pub enum OverrideError {
    /// `--path` was blank.
    EmptyPath,
    /// The overridden configuration breaks a configuration rule.
    Invalid(ConfigError),
}

/// The configuration with `--path` and `--min-size-mb` applied.
pub open spec fn overridden(c: ConfigView, path: Option<Seq<char>>, min_size: Option<u64>) -> ConfigView {
    ConfigView {
        projects_dir: match path {
            Some(p) => p,
            None => c.projects_dir,
        },
        min_size_mb: match min_size {
            Some(m) => m,
            None => c.min_size_mb,
        },
        ..c
    }
}

/// Apply `--path` / `--min-size-mb` overrides, then re-validate.
///
/// A blank `--path` is refused before anything changes; otherwise the
/// overrides are applied and the result must pass the configuration rules.
pub fn apply_scan_overrides(config: &mut Config, path: Option<String>, min_size: Option<u64>) -> (r: Result<(), OverrideError>)
    ensures
        match path {
            Some(p) if trimmed(p@).len() == 0 => r matches Err(OverrideError::EmptyPath) && final(config)@ == old(config)@,
            _ => {
                let o = overridden(old(config)@, match path {
                    Some(p) => Some(p@),
                    None => None,
                }, min_size);
                &&& final(config)@ == o
                &&& match check_config(o) {
                    Ok(_) => r is Ok,
                    Err(e) => r matches Err(OverrideError::Invalid(x)) && x@ == e,
                }
            },
        },
{
    if let Some(p) = &path {
        let t = trim(p.as_str());
        if t.as_str().is_empty() {
            return Err(OverrideError::EmptyPath);
        }
    }
    if let Some(p) = path {
        config.projects_dir = p;
    }
    if let Some(m) = min_size {
        config.min_size_mb = m;
    }
    match config.validate() {
        Ok(()) => Ok(()),
        Err(e) => Err(OverrideError::Invalid(e)),
    }
}

/// Nanoseconds in a day.
pub const NANOS_PER_DAY: i128 = 86_400_000_000_000;

/// The cutoff for `--older-than days`: `now` (nanoseconds relative to the
/// Unix epoch) less `days` days; none when that instant is out of range.
pub fn older_than_cutoff(now: i128, days: u32) -> (r: Option<i128>)
    ensures
        now - days * NANOS_PER_DAY >= i128::MIN ==> r == Some((now - days * NANOS_PER_DAY) as i128),
        now - days * NANOS_PER_DAY < i128::MIN ==> r is None,
{
    let span: i128 = (days as i128) * NANOS_PER_DAY;
    now.checked_sub(span)
}

/// Whether a project was last modified before the cutoff; a project with no
/// known modification time never qualifies.
pub open spec fn modified_before(p: DiscoveredProject, cutoff: i128) -> bool {
    p.last_modified matches Some(t) && t < cutoff
}

/// The projects last modified before the cutoff, in order.
pub open spec fn older_ones(ps: Seq<DiscoveredProject>, cutoff: i128) -> Seq<DiscoveredProject>
    decreases ps.len(),
{
    if ps.len() == 0 {
        Seq::empty()
    } else {
        let rest = older_ones(ps.drop_first(), cutoff);
        if modified_before(ps[0], cutoff) {
            seq![ps[0]] + rest
        } else {
            rest
        }
    }
}

/// `--older-than` keeps exactly the projects last modified before the
/// cutoff, every one of them, in their original order: the projects with
/// no modification time and those modified at or after the cutoff are the
/// only ones left out.
pub proof fn law_older_than_keeps_every_stale_project(ps: Seq<DiscoveredProject>, cutoff: i128)
    ensures
        older_ones(ps, cutoff) == ps.filter(|p: DiscoveredProject| p.last_modified matches Some(t) && t < cutoff),
    decreases ps.len(),
{
    if ps.len() > 0 {
        law_older_than_keeps_every_stale_project(ps.drop_first(), cutoff);
        assert(ps =~= seq![ps[0]] + ps.drop_first());
        ps.drop_first().lemma_filter_prepend(ps[0], |p: DiscoveredProject| p.last_modified matches Some(t) && t < cutoff);
    } else {
        reveal(Seq::filter);
        assert(older_ones(ps, cutoff) =~= ps.filter(|p: DiscoveredProject| p.last_modified matches Some(t) && t < cutoff));
    }
}

/// Keep only projects last modified before `cutoff` (nanoseconds relative to
/// the Unix epoch): those not modified in the last N days.
pub fn retain_older_than(projects: Vec<DiscoveredProject>, cutoff: i128) -> (r: Vec<DiscoveredProject>)
    ensures
        r@ == older_ones(projects@, cutoff),
{
    let ghost all = projects@;
    let mut input = projects;
    let mut out: Vec<DiscoveredProject> = Vec::new();
    while input.len() > 0
        invariant
            out@ + older_ones(input@, cutoff) == older_ones(all, cutoff),
        decreases input@.len(),
    {
        let ghost before = input@;
        let ghost out_before = out@;
        let p = input.remove(0);
        assert(input@ =~= before.drop_first());
        let keep = match p.last_modified {
            Some(t) => t < cutoff,
            None => false,
        };
        if keep {
            out.push(p);
        }
        assert(out@ + older_ones(input@, cutoff) =~= out_before + older_ones(before, cutoff));
    }
    assert(out@ =~= older_ones(all, cutoff));
    out
}

/// The index of the first path satisfying `pred`.
pub open spec fn first_where(paths: Seq<Seq<char>>, pred: spec_fn(Seq<char>) -> bool) -> Option<int>
    decreases paths.len(),
{
    if paths.len() == 0 {
        None
    } else {
        match first_where(paths.drop_last(), pred) {
            Some(i) => Some(i),
            None => if pred(paths.last()) {
                Some(paths.len() - 1)
            } else {
                None
            },
        }
    }
}

proof fn lemma_first_where_prefix(paths: Seq<Seq<char>>, pred: spec_fn(Seq<char>) -> bool, i: int)
    requires
        0 <= i <= paths.len(),
        first_where(paths.take(i), pred) is Some,
    ensures
        first_where(paths, pred) == first_where(paths.take(i), pred),
    decreases paths.len() - i,
{
    if i < paths.len() {
        assert(paths.take(i + 1).drop_last() =~= paths.take(i));
        lemma_first_where_prefix(paths, pred, i + 1);
    } else {
        assert(paths.take(i) =~= paths);
    }
}

proof fn lemma_first_where_none(paths: Seq<Seq<char>>, pred: spec_fn(Seq<char>) -> bool)
    requires
        forall|k: int| 0 <= k < paths.len() ==> !pred(#[trigger] paths[k]),
    ensures
        first_where(paths, pred) is None,
    decreases paths.len(),
{
    if paths.len() > 0 {
        lemma_first_where_none(paths.drop_last(), pred);
    }
}

proof fn lemma_first_where_at(paths: Seq<Seq<char>>, pred: spec_fn(Seq<char>) -> bool, i: int)
    requires
        0 <= i < paths.len(),
        forall|k: int| 0 <= k < i ==> !pred(#[trigger] paths[k]),
        pred(paths[i]),
    ensures
        first_where(paths, pred) == Some(i),
{
    lemma_first_where_none(paths.take(i), pred);
    assert(paths.take(i + 1).drop_last() =~= paths.take(i));
    lemma_first_where_prefix(paths, pred, i + 1);
}

/// The project an explicit inspection path names: the first project whose
/// (canonical) path is the requested path (component by component), else the first one whose path is
/// a whole-component prefix of it (a file inside a project).
pub open spec fn inspection_index(paths: Seq<Seq<char>>, requested: Seq<char>) -> Option<int> {
    match first_where(paths, |p: Seq<char>| path_components(p) == path_components(requested)) {
        Some(i) => Some(i),
        None => first_where(paths, |p: Seq<char>| path_has_prefix(requested, p)),
    }
}

fn inspection_position(canonical: &Vec<String>, requested: &str) -> (r: Option<usize>)
    ensures
        match inspection_index(crate::text::views(canonical@), requested@) {
            Some(i) => r matches Some(j) && j == i && j < canonical@.len(),
            None => r is None,
        },
{
    let ghost paths = crate::text::views(canonical@);
    let ghost exact = |p: Seq<char>| path_components(p) == path_components(requested@);
    let ghost prefix = |p: Seq<char>| path_has_prefix(requested@, p);
    let mut i: usize = 0;
    while i < canonical.len()
        invariant
            i <= canonical@.len(),
            paths == crate::text::views(canonical@),
            exact == |p: Seq<char>| path_components(p) == path_components(requested@),
            forall|k: int| 0 <= k < i ==> !exact(#[trigger] paths[k]),
        decreases canonical@.len() - i,
    {
        if same_path(canonical[i].as_str(), requested) {
            proof {
                lemma_first_where_at(paths, exact, i as int);
            }
            return Some(i);
        }
        i = i + 1;
    }
    proof {
        lemma_first_where_none(paths, exact);
    }
    let mut i: usize = 0;
    while i < canonical.len()
        invariant
            i <= canonical@.len(),
            paths == crate::text::views(canonical@),
            prefix == |p: Seq<char>| path_has_prefix(requested@, p),
            exact == |p: Seq<char>| path_components(p) == path_components(requested@),
            first_where(paths, exact) is None,
            forall|k: int| 0 <= k < i ==> !prefix(#[trigger] paths[k]),
        decreases canonical@.len() - i,
    {
        if path_starts_with(requested, canonical[i].as_str()) {
            proof {
                lemma_first_where_at(paths, prefix, i as int);
                assert(prefix =~= (|p: Seq<char>| path_has_prefix(requested@, p)));
                assert(exact =~= (|p: Seq<char>| path_components(p) == path_components(requested@)));
            }
            return Some(i);
        }
        i = i + 1;
    }
    proof {
        lemma_first_where_none(paths, prefix);
        assert(prefix =~= (|p: Seq<char>| path_has_prefix(requested@, p)));
        assert(exact =~= (|p: Seq<char>| path_components(p) == path_components(requested@)));
    }
    None
}

/// Picks the project for `deox inspect <path>`. `canonical[i]` is project
/// `i`'s path resolved the same way as `requested` (or as given when it
/// cannot be resolved).
pub fn find_inspection_project(projects: Vec<DiscoveredProject>, canonical: &Vec<String>, requested: &str) -> (r: Option<DiscoveredProject>)
    requires
        canonical@.len() == projects@.len(),
    ensures
        match inspection_index(crate::text::views(canonical@), requested@) {
            Some(i) => r == Some(projects@[i]),
            None => r is None,
        },
{
    match inspection_position(canonical, requested) {
        Some(i) => {
            let mut projects = projects;
            let found = projects.remove(i);
            Some(found)
        },
        None => None,
    }
}

} // verus!
