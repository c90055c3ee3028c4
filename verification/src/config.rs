//! The persisted configuration: its values, their loose spellings on the
//! command line, validation, and the JSON file format with its migration
//! from version 1.
use vstd::prelude::*;
use crate::json_doc::{
    flat_document, json_array, json_as_array, json_as_str, json_as_u64, json_document, json_get,
    entry_keys, json_error_text, json_object, json_object_keys, json_pretty_text, json_string, json_to_pretty_string, json_u64,
    json_view, json_views, parse_json, scalar_json, shallow_json, JsonView,
};
use crate::paths::{join, path_is_absolute, path_join};
use crate::text::{
    ascii_lower, chars_of, is_ascii_char, lowercase, owned, push_char, push_str, str_eq, to_lowercase,
    trim, trimmed, decimal, decimal_string, views, lemma_not_blank,
};

verus! {

broadcast use vstd::string::group_string_axioms;

/// The configuration schema version written by this release.
pub const CONFIG_VERSION: u32 = 2;

/// The version-1 schema, which loads and migrates to the current one.
pub const LEGACY_CONFIG_VERSION: u32 = 1;

/// One mebibyte: the unit of `min_size_mb`.
pub const MIB: u64 = 1048576;

/// `s` with every `_` turned into `-`.
pub open spec fn dashes(s: Seq<char>) -> Seq<char> {
    s.map_values(|c: char| if c == '_' { '-' } else { c })
}

/// The key a loose spelling is matched by: lower-cased, `_` read as `-`.
pub open spec fn loose_key(s: Seq<char>) -> Seq<char> {
    dashes(lowercase(s))
}

pub open spec fn all_ascii(s: Seq<char>) -> bool {
    forall|i: int| 0 <= i < s.len() ==> is_ascii_char(#[trigger] s[i])
}

/// `str::replace('_', "-")`.
fn replace_underscores(s: &str) -> (r: String)
    ensures
        r@ == dashes(s@),
{
    let cs = chars_of(s);
    let mut out = String::new();
    let mut i: usize = 0;
    while i < cs.len()
        invariant
            i <= cs@.len(),
            cs@ == s@,
            out@ == dashes(s@.take(i as int)),
        decreases cs@.len() - i,
    {
        let c = cs[i];
        push_char(&mut out, if c == '_' { '-' } else { c });
        i = i + 1;
        assert(dashes(s@.take(i as int)) =~= dashes(s@.take(i - 1)).push(if c == '_' { '-' } else { c }));
    }
    assert(s@.take(cs@.len() as int) =~= s@);
    out
}

/// Lower-cases `s` and reads `_` as `-`.
fn loose(s: &str) -> (r: String)
    ensures
        r@ == loose_key(s@),
        all_ascii(s@) ==> r@ == dashes(ascii_lower(s@)),
{
    let lower = to_lowercase(s);
    replace_underscores(lower.as_str())
}

/// Project scanning scope.
#[derive(Debug, Clone, Copy, PartialEq, Eq, Structural)]
pub enum Scope {
    TauriOnly,
    TauriAndRust,
    RustOnly,
}

impl Scope {
    /// The kebab-case name used in the configuration file.
    pub open spec fn spec_name(self) -> Seq<char> {
        match self {
            Scope::TauriOnly => "tauri-only"@,
            Scope::TauriAndRust => "tauri-and-rust"@,
            Scope::RustOnly => "rust-only"@,
        }
    }

    /// The scope that a normalised loose spelling names.
    pub open spec fn spec_loose(k: Seq<char>) -> Option<Scope> {
        if k == "tauri-only"@ || k == "tauri"@ {
            Some(Scope::TauriOnly)
        } else if k == "tauri-and-rust"@ || k == "both"@ || k == "all"@ {
            Some(Scope::TauriAndRust)
        } else if k == "rust-only"@ || k == "rust"@ {
            Some(Scope::RustOnly)
        } else {
            None
        }
    }

    /// The scope whose configuration-file name is exactly `k`.
    pub open spec fn spec_exact(k: Seq<char>) -> Option<Scope> {
        if k == "tauri-only"@ {
            Some(Scope::TauriOnly)
        } else if k == "tauri-and-rust"@ {
            Some(Scope::TauriAndRust)
        } else if k == "rust-only"@ {
            Some(Scope::RustOnly)
        } else {
            None
        }
    }

    /// The kebab-case name: `tauri-only`, `tauri-and-rust` or `rust-only`.
    pub fn name(&self) -> (r: &'static str)
        ensures
            r@ == self.spec_name(),
    {
        match self {
            Scope::TauriOnly => "tauri-only",
            Scope::TauriAndRust => "tauri-and-rust",
            Scope::RustOnly => "rust-only",
        }
    }

    /// Reads a scope from user input: case-insensitive, `_` or `-`, with the
    /// aliases `tauri`, `both`, `all` and `rust`.
    pub fn from_str_loose(s: &str) -> (r: Option<Self>)
        ensures
            r == Scope::spec_loose(loose_key(s@)),
            all_ascii(s@) ==> r == Scope::spec_loose(dashes(ascii_lower(s@))),
    {
        let k = loose(s);
        let k = k.as_str();
        if str_eq(k, "tauri-only") || str_eq(k, "tauri") {
            Some(Scope::TauriOnly)
        } else if str_eq(k, "tauri-and-rust") || str_eq(k, "both") || str_eq(k, "all") {
            Some(Scope::TauriAndRust)
        } else if str_eq(k, "rust-only") || str_eq(k, "rust") {
            Some(Scope::RustOnly)
        } else {
            None
        }
    }

    /// Reads a scope from its exact configuration-file name.
    pub fn from_name(s: &str) -> (r: Option<Self>)
        ensures
            r == Scope::spec_exact(s@),
    {
        if str_eq(s, "tauri-only") {
            Some(Scope::TauriOnly)
        } else if str_eq(s, "tauri-and-rust") {
            Some(Scope::TauriAndRust)
        } else if str_eq(s, "rust-only") {
            Some(Scope::RustOnly)
        } else {
            None
        }
    }
}

/// Cleaning behavior.
#[derive(Debug, Clone, Copy, PartialEq, Eq, Structural)]
pub enum CleanBehavior {
    Delete,
    Trash,
}

impl CleanBehavior {
    /// The name used in the configuration file.
    pub open spec fn spec_name(self) -> Seq<char> {
        match self {
            CleanBehavior::Delete => "delete"@,
            CleanBehavior::Trash => "trash"@,
        }
    }

    /// The behavior that a lower-cased loose spelling names.
    pub open spec fn spec_loose(k: Seq<char>) -> Option<CleanBehavior> {
        if k == "delete"@ || k == "rm"@ || k == "remove"@ {
            Some(CleanBehavior::Delete)
        } else if k == "trash"@ || k == "recycle"@ || k == "bin"@ {
            Some(CleanBehavior::Trash)
        } else {
            None
        }
    }

    /// The behavior whose configuration-file name is exactly `k`.
    pub open spec fn spec_exact(k: Seq<char>) -> Option<CleanBehavior> {
        if k == "delete"@ {
            Some(CleanBehavior::Delete)
        } else if k == "trash"@ {
            Some(CleanBehavior::Trash)
        } else {
            None
        }
    }

    /// The name: `delete` or `trash`.
    pub fn name(&self) -> (r: &'static str)
        ensures
            r@ == self.spec_name(),
    {
        match self {
            CleanBehavior::Delete => "delete",
            CleanBehavior::Trash => "trash",
        }
    }

    /// Reads a behavior from user input, case-insensitively, with the
    /// aliases `rm`, `remove`, `recycle` and `bin`.
    pub fn from_str_loose(s: &str) -> (r: Option<Self>)
        ensures
            r == CleanBehavior::spec_loose(lowercase(s@)),
            all_ascii(s@) ==> r == CleanBehavior::spec_loose(ascii_lower(s@)),
    {
        let k = to_lowercase(s);
        let k = k.as_str();
        if str_eq(k, "delete") || str_eq(k, "rm") || str_eq(k, "remove") {
            Some(CleanBehavior::Delete)
        } else if str_eq(k, "trash") || str_eq(k, "recycle") || str_eq(k, "bin") {
            Some(CleanBehavior::Trash)
        } else {
            None
        }
    }

    /// Reads a behavior from its exact configuration-file name.
    pub fn from_name(s: &str) -> (r: Option<Self>)
        ensures
            r == CleanBehavior::spec_exact(s@),
    {
        if str_eq(s, "delete") {
            Some(CleanBehavior::Delete)
        } else if str_eq(s, "trash") {
            Some(CleanBehavior::Trash)
        } else {
            None
        }
    }
}

/// Default clean mode.
#[derive(Debug, Clone, Copy, PartialEq, Eq, Structural)]
pub enum DefaultMode {
    Full,
    DebugOnly,
    IncrementalOnly,
    DepsOnly,
}

impl DefaultMode {
    /// The kebab-case name used in the configuration file.
    pub open spec fn spec_name(self) -> Seq<char> {
        match self {
            DefaultMode::Full => "full"@,
            DefaultMode::DebugOnly => "debug-only"@,
            DefaultMode::IncrementalOnly => "incremental-only"@,
            DefaultMode::DepsOnly => "deps-only"@,
        }
    }

    /// The mode that a normalised loose spelling names.
    pub open spec fn spec_loose(k: Seq<char>) -> Option<DefaultMode> {
        if k == "full"@ {
            Some(DefaultMode::Full)
        } else if k == "debug-only"@ || k == "debug"@ {
            Some(DefaultMode::DebugOnly)
        } else if k == "incremental-only"@ || k == "incremental"@ {
            Some(DefaultMode::IncrementalOnly)
        } else if k == "deps-only"@ || k == "deps"@ {
            Some(DefaultMode::DepsOnly)
        } else {
            None
        }
    }

    /// The mode whose configuration-file name is exactly `k`.
    pub open spec fn spec_exact(k: Seq<char>) -> Option<DefaultMode> {
        if k == "full"@ {
            Some(DefaultMode::Full)
        } else if k == "debug-only"@ {
            Some(DefaultMode::DebugOnly)
        } else if k == "incremental-only"@ {
            Some(DefaultMode::IncrementalOnly)
        } else if k == "deps-only"@ {
            Some(DefaultMode::DepsOnly)
        } else {
            None
        }
    }

    /// The kebab-case name: `full`, `debug-only`, `incremental-only` or `deps-only`.
    pub fn name(&self) -> (r: &'static str)
        ensures
            r@ == self.spec_name(),
    {
        match self {
            DefaultMode::Full => "full",
            DefaultMode::DebugOnly => "debug-only",
            DefaultMode::IncrementalOnly => "incremental-only",
            DefaultMode::DepsOnly => "deps-only",
        }
    }

    /// Reads a mode from user input: case-insensitive, `_` or `-`, with the
    /// short forms `debug`, `incremental` and `deps`.
    pub fn from_str_loose(s: &str) -> (r: Option<Self>)
        ensures
            r == DefaultMode::spec_loose(loose_key(s@)),
            all_ascii(s@) ==> r == DefaultMode::spec_loose(dashes(ascii_lower(s@))),
    {
        let k = loose(s);
        let k = k.as_str();
        if str_eq(k, "full") {
            Some(DefaultMode::Full)
        } else if str_eq(k, "debug-only") || str_eq(k, "debug") {
            Some(DefaultMode::DebugOnly)
        } else if str_eq(k, "incremental-only") || str_eq(k, "incremental") {
            Some(DefaultMode::IncrementalOnly)
        } else if str_eq(k, "deps-only") || str_eq(k, "deps") {
            Some(DefaultMode::DepsOnly)
        } else {
            None
        }
    }

    /// Reads a mode from its exact configuration-file name.
    pub fn from_name(s: &str) -> (r: Option<Self>)
        ensures
            r == DefaultMode::spec_exact(s@),
    {
        if str_eq(s, "full") {
            Some(DefaultMode::Full)
        } else if str_eq(s, "debug-only") {
            Some(DefaultMode::DebugOnly)
        } else if str_eq(s, "incremental-only") {
            Some(DefaultMode::IncrementalOnly)
        } else if str_eq(s, "deps-only") {
            Some(DefaultMode::DepsOnly)
        } else {
            None
        }
    }
}


/// Errors of loading, validating and saving the configuration.
#[derive(Debug)]
pub enum ConfigError {
    /// No configuration file exists at the path.
    Missing(String),
    /// The file exists but could not be read or written.
    Io(String),
    /// The file is not valid JSON or does not have the configuration's shape.
    Parse(String),
    /// The file's schema version is not one this release reads.
    UnsupportedVersion(u32),
    /// The values break a rule of the configuration.
    Invalid(String),
}

/// A configuration error with its texts as character sequences.
pub enum ConfigErrorView {
    Missing(Seq<char>),
    Io(Seq<char>),
    Parse(Seq<char>),
    UnsupportedVersion(u32),
    Invalid(Seq<char>),
}

impl View for ConfigError {
    type V = ConfigErrorView;

    open spec fn view(&self) -> ConfigErrorView {
        match self {
            ConfigError::Missing(p) => ConfigErrorView::Missing(p@),
            ConfigError::Io(m) => ConfigErrorView::Io(m@),
            ConfigError::Parse(m) => ConfigErrorView::Parse(m@),
            ConfigError::UnsupportedVersion(v) => ConfigErrorView::UnsupportedVersion(*v),
            ConfigError::Invalid(m) => ConfigErrorView::Invalid(m@),
        }
    }
}

impl ConfigError {
    /// The user-facing description.
    pub open spec fn spec_message(e: ConfigErrorView) -> Seq<char> {
        match e {
            ConfigErrorView::Missing(p) => "configuration file not found: "@ + p,
            ConfigErrorView::Io(m) => "configuration I/O error: "@ + m,
            ConfigErrorView::Parse(m) => "invalid configuration JSON: "@ + m,
            ConfigErrorView::UnsupportedVersion(v) => "unsupported configuration version "@ + decimal(
                v as nat,
            ) + " (expected "@ + decimal(CONFIG_VERSION as nat) + ")"@,
            ConfigErrorView::Invalid(m) => "invalid configuration: "@ + m,
        }
    }

    /// The user-facing description.
    pub fn message(&self) -> (r: String)
        ensures
            r@ == ConfigError::spec_message(self@),
    {
        let mut out = String::new();
        match self {
            ConfigError::Missing(p) => {
                push_str(&mut out, "configuration file not found: ");
                push_str(&mut out, p.as_str());
            },
            ConfigError::Io(m) => {
                push_str(&mut out, "configuration I/O error: ");
                push_str(&mut out, m.as_str());
            },
            ConfigError::Parse(m) => {
                push_str(&mut out, "invalid configuration JSON: ");
                push_str(&mut out, m.as_str());
            },
            ConfigError::UnsupportedVersion(v) => {
                push_str(&mut out, "unsupported configuration version ");
                let n = decimal_string(*v as u64);
                push_str(&mut out, n.as_str());
                push_str(&mut out, " (expected ");
                let e = decimal_string(CONFIG_VERSION as u64);
                push_str(&mut out, e.as_str());
                push_str(&mut out, ")");
            },
            ConfigError::Invalid(m) => {
                push_str(&mut out, "invalid configuration: ");
                push_str(&mut out, m.as_str());
            },
        }
        out
    }
}

/// The persisted configuration for deoxidizer.
#[derive(Debug)]
pub struct Config {
    /// Schema version for future migrations.
    pub version: u32,
    /// Root directory to scan for projects.
    pub projects_dir: String,
    /// Which project types to include.
    pub scope: Scope,
    /// Whether to permanently delete or move to OS trash.
    pub clean_behavior: CleanBehavior,
    /// Default clean mode when none is specified.
    pub default_mode: DefaultMode,
    /// Minimum artifact size in MiB to include in results (0 = show all).
    pub min_size_mb: u64,
    /// Project names to never auto-clean.
    pub ignored_projects: Vec<String>,
}

/// A configuration as plain values.
pub struct ConfigView {
    pub version: u32,
    pub projects_dir: Seq<char>,
    pub scope: Scope,
    pub clean_behavior: CleanBehavior,
    pub default_mode: DefaultMode,
    pub min_size_mb: u64,
    pub ignored_projects: Seq<Seq<char>>,
}

impl View for Config {
    type V = ConfigView;

    open spec fn view(&self) -> ConfigView {
        ConfigView {
            version: self.version,
            projects_dir: self.projects_dir@,
            scope: self.scope,
            clean_behavior: self.clean_behavior,
            default_mode: self.default_mode,
            min_size_mb: self.min_size_mb,
            ignored_projects: views(self.ignored_projects@),
        }
    }
}

/// Copies a vector of strings.
pub fn clone_strings(v: &Vec<String>) -> (r: Vec<String>)
    ensures
        views(r@) == views(v@),
{
    let mut out: Vec<String> = Vec::new();
    let mut i: usize = 0;
    while i < v.len()
        invariant
            i <= v@.len(),
            views(out@) == views(v@).take(i as int),
        decreases v@.len() - i,
    {
        let item: &String = &v[i];
        let copy: String = item.clone();
        assert(copy@ == v@[i as int]@);
        let ghost before = out@;
        out.push(copy);
        proof {
            assert(out@ == before.push(copy));
            assert(views(before).len() == before.len());
            assert(before.len() == i);
            assert(views(out@).len() == i + 1);
            assert forall|k: int| 0 <= k < i + 1 implies #[trigger] views(out@)[k] == views(v@).take(i + 1)[k] by {
                if k < i {
                    assert(views(out@)[k] == out@[k]@);
                    assert(out@[k] == before[k]);
                    assert(views(before)[k] == views(v@).take(i as int)[k]);
                }
            }
        }
        i = i + 1;
        assert(views(out@) =~= views(v@).take(i as int));
    }
    assert(views(v@).take(v@.len() as int) =~= views(v@));
    out
}

impl Clone for Config {
    fn clone(&self) -> (r: Self)
        ensures
            r@ == self@,
    {
        Config {
            version: self.version,
            projects_dir: self.projects_dir.clone(),
            scope: self.scope,
            clean_behavior: self.clean_behavior,
            default_mode: self.default_mode,
            min_size_mb: self.min_size_mb,
            ignored_projects: clone_strings(&self.ignored_projects),
        }
    }
}

/// The configuration rules: the current schema version, a projects directory
/// that is not blank, and a minimum size whose byte count fits in `u64`.
pub open spec fn check_config(c: ConfigView) -> Result<(), ConfigErrorView> {
    if c.version != CONFIG_VERSION {
        Err(ConfigErrorView::UnsupportedVersion(c.version))
    } else if trimmed(c.projects_dir).len() == 0 {
        Err(ConfigErrorView::Invalid("projects_dir must not be empty"@))
    } else if c.min_size_mb * MIB > u64::MAX {
        Err(ConfigErrorView::Invalid("min_size_mb is too large"@))
    } else {
        Ok(())
    }
}

pub open spec fn unit_result_view(r: Result<(), ConfigError>) -> Result<(), ConfigErrorView> {
    match r {
        Ok(_) => Ok(()),
        Err(e) => Err(e@),
    }
}

pub open spec fn config_result_view(r: Result<Config, ConfigError>) -> Result<ConfigView, ConfigErrorView> {
    match r {
        Ok(c) => Ok(c@),
        Err(e) => Err(e@),
    }
}

/// `dirs::home_dir`, as a string. The home directory comes from the
/// environment, so nothing is stated of it.
#[verifier::external_body]
pub(crate) fn home_dir() -> (r: Option<String>) {
    dirs::home_dir().map(|home| home.to_string_lossy().into_owned())
}

/// `Path::is_dir` (follows links). It reads the filesystem, so nothing is stated of it.
#[verifier::external_body]
fn is_existing_dir(path: &str) -> (r: bool) {
    std::path::Path::new(path).is_dir()
}

/// `std::path::absolute(".")`: the process's current directory. Which
/// directory it is comes from the process state and is not stated; what the
/// documentation promises, that a path it returns is absolute, is. An
/// absolute path begins with a root or a drive prefix, so it is not blank.
#[verifier::external_body]
fn current_dir() -> (r: Option<String>)
    ensures
        r matches Some(d) ==> path_is_absolute(d@) && trimmed(d@).len() > 0,
{
    std::path::absolute(".").ok().map(|dir| dir.to_string_lossy().into_owned())
}

/// The usual source folders looked for under the home directory, in the
/// order they are tried.
pub open spec fn default_dir_candidates() -> Seq<Seq<char>> {
    seq!["Documents/GitHub"@, "GitHub"@, "Projects"@, "repos"@, "src"@, "dev"@, "code"@]
}

/// The first of the probed candidates that was found to exist.
pub open spec fn first_found(found: Seq<bool>, k: int) -> Option<int>
    decreases found.len() - k,
{
    if k < 0 || k >= found.len() || k >= default_dir_candidates().len() {
        None
    } else if found[k] {
        Some(k)
    } else {
        first_found(found, k + 1)
    }
}

/// The default projects directory: under the home directory, the first
/// candidate found to exist (`found[k]` says whether candidate `k` exists);
/// else the current directory; else `.`.
pub open spec fn default_dir_choice(home: Option<Seq<char>>, found: Seq<bool>, cwd: Option<Seq<char>>) -> Seq<char> {
    let fallback = match cwd {
        Some(d) => d,
        None => "."@,
    };
    match home {
        None => fallback,
        Some(h) => match first_found(found, 0) {
            Some(k) => path_join(h, default_dir_candidates()[k]),
            None => fallback,
        },
    }
}

/// With a home directory, the default projects directory is home joined
/// with the first of `Documents/GitHub`, `GitHub`, `Projects`, `repos`,
/// `src`, `dev`, `code` found to exist, whichever of the seven it is; the
/// current directory (else `.`) is used only when none of the seven was
/// found, or without a home directory.
pub proof fn law_default_dir_is_first_existing_candidate(
    home: Option<Seq<char>>,
    found: Seq<bool>,
    cwd: Option<Seq<char>>,
    k: int,
)
    ensures
        home is Some && 0 <= k < 7 && k < found.len() && found[k] && (forall|j: int| 0 <= j < k ==> !found[j])
            ==> default_dir_choice(home, found, cwd) == path_join(
            home->Some_0,
            seq!["Documents/GitHub"@, "GitHub"@, "Projects"@, "repos"@, "src"@, "dev"@, "code"@][k],
        ),
        (home is None || forall|j: int| 0 <= j < 7 && j < found.len() ==> !found[j]) ==> default_dir_choice(
            home,
            found,
            cwd,
        ) == match cwd {
            Some(d) => d,
            None => "."@,
        },
{
    assert forall|i: int| 0 <= i <= 7 implies (forall|j: int| i <= j < 7 && j < found.len() ==> !found[j])
        ==> #[trigger] first_found(found, i) is None by {
        lemma_first_found_none(found, i);
    }
    if home is Some && 0 <= k < 7 && k < found.len() && found[k] && (forall|j: int| 0 <= j < k ==> !found[j]) {
        lemma_first_found_at(found, 0, k);
    }
}

proof fn lemma_first_found_none(found: Seq<bool>, i: int)
    requires
        0 <= i <= 7,
    ensures
        (forall|j: int| i <= j < 7 && j < found.len() ==> !found[j]) ==> first_found(found, i) is None,
    decreases 7 - i,
{
    if i < 7 {
        lemma_first_found_none(found, i + 1);
    }
}

proof fn lemma_first_found_at(found: Seq<bool>, i: int, k: int)
    requires
        0 <= i <= k < 7,
        k < found.len(),
        found[k],
        forall|j: int| 0 <= j < k ==> !found[j],
    ensures
        first_found(found, i) == Some(k),
    decreases k - i,
{
    if i < k {
        lemma_first_found_at(found, i + 1, k);
    }
}

pub open spec fn owned_opt_view(o: Option<String>) -> Option<Seq<char>> {
    match o {
        Some(s) => Some(s@),
        None => None,
    }
}

fn candidate_names() -> (r: [&'static str; 7])
    ensures
        forall|k: int| 0 <= k < 7 ==> (#[trigger] r@[k])@ == default_dir_candidates()[k],
        forall|k: int| 0 <= k < 7 ==> trimmed((#[trigger] r@[k])@).len() > 0,
{
    let candidates: [&str; 7] = ["Documents/GitHub", "GitHub", "Projects", "repos", "src", "dev", "code"];
    proof {
        reveal_strlit("Documents/GitHub");
        reveal_strlit("GitHub");
        reveal_strlit("Projects");
        reveal_strlit("repos");
        reveal_strlit("src");
        reveal_strlit("dev");
        reveal_strlit("code");
        assert forall|k: int| 0 <= k < 7 implies trimmed((#[trigger] candidates@[k])@).len() > 0 by {
            lemma_not_blank(candidates@[k]@, 0);
        }
    }
    candidates
}

/// Picks the default projects directory from what was found: the first
/// candidate under `home` that `found` marks as existing, else `cwd`, else
/// `.`. The result is not blank when `cwd` is not.
pub fn choose_default_dir(home: Option<String>, found: &Vec<bool>, cwd: Option<String>) -> (r: String)
    ensures
        r@ == default_dir_choice(owned_opt_view(home), found@, owned_opt_view(cwd)),
        (cwd matches Some(d) ==> trimmed(d@).len() > 0) ==> trimmed(r@).len() > 0,
{
    let candidates = candidate_names();
    if let Some(h) = &home {
        let mut k: usize = 0;
        while k < 7 && k < found.len() && !found[k]
            invariant
                k <= 7,
                first_found(found@, 0) == first_found(found@, k as int),
            decreases 7 - k,
        {
            assert(default_dir_candidates().len() == 7);
            k = k + 1;
        }
        assert(default_dir_candidates().len() == 7);
        if k < 7 && k < found.len() {
            assert(first_found(found@, k as int) == Some(k as int));
            let path = join(h.as_str(), candidates[k]);
            assert(trimmed(candidates@[k as int]@).len() > 0);
            return path;
        }
        assert(first_found(found@, k as int) is None);
    }
    match cwd {
        Some(dir) => dir,
        None => {
            let mut dot = String::new();
            push_str(&mut dot, ".");
            proof {
                reveal_strlit(".");
                assert(dot@ =~= "."@);
                lemma_not_blank(dot@, 0);
            }
            dot
        },
    }
}

/// Try to auto-detect a sensible default projects directory: the first of
/// the usual source folders that exists under the home directory, else the
/// current directory, else `.`. The home directory, which folders exist and
/// the current directory come from the machine; the result is the choice
/// for what the lookups returned, and it is never blank.
pub fn detect_default_projects_dir() -> (r: String)
    ensures
        trimmed(r@).len() > 0,
        exists|home: Option<Seq<char>>, found: Seq<bool>, cwd: Option<Seq<char>>|
            r@ == default_dir_choice(home, found, cwd) && (cwd matches Some(d) ==> path_is_absolute(d)),
{
    let candidates = candidate_names();
    let home = home_dir();
    let mut found: Vec<bool> = Vec::new();
    let mut hit = false;
    if let Some(h) = &home {
        let mut i: usize = 0;
        while i < 7 && !hit
            invariant
                i <= 7,
            decreases 7 - i,
        {
            let path = join(h.as_str(), candidates[i]);
            let exists = is_existing_dir(path.as_str());
            found.push(exists);
            if exists {
                hit = true;
            }
            i = i + 1;
        }
    }
    let cwd = if hit {
        None
    } else {
        current_dir()
    };
    let ghost home_view = owned_opt_view(home);
    let ghost cwd_view = owned_opt_view(cwd);
    let ghost found_view = found@;
    let r = choose_default_dir(home, &found, cwd);
    assert(r@ == default_dir_choice(home_view, found_view, cwd_view) && (cwd_view matches Some(d) ==> path_is_absolute(d)));
    r
}

impl Config {
    /// The default settings with the given projects directory.
    pub open spec fn spec_defaults(projects_dir: Seq<char>) -> ConfigView {
        ConfigView {
            version: CONFIG_VERSION,
            projects_dir,
            scope: Scope::TauriOnly,
            clean_behavior: CleanBehavior::Delete,
            default_mode: DefaultMode::Full,
            min_size_mb: 0,
            ignored_projects: Seq::empty(),
        }
    }

    /// The default settings for a given projects directory.
    pub fn with_projects_dir(projects_dir: String) -> (r: Config)
        ensures
            r@ == Config::spec_defaults(projects_dir@),
    {
        let r = Config {
            version: CONFIG_VERSION,
            projects_dir,
            scope: Scope::TauriOnly,
            clean_behavior: CleanBehavior::Delete,
            default_mode: DefaultMode::Full,
            min_size_mb: 0,
            ignored_projects: Vec::new(),
        };
        assert(views(r.ignored_projects@) =~= Seq::<Seq<char>>::empty());
        r
    }

    /// Checks the configuration rules.
    pub fn validate(&self) -> (r: Result<(), ConfigError>)
        ensures
            unit_result_view(r) == check_config(self@),
    {
        if self.version != CONFIG_VERSION {
            return Err(ConfigError::UnsupportedVersion(self.version));
        }
        let dir = trim(self.projects_dir.as_str());
        if dir.as_str().is_empty() {
            let mut m = String::new();
            push_str(&mut m, "projects_dir must not be empty");
            return Err(ConfigError::Invalid(m));
        }
        if self.min_size_mb.checked_mul(MIB).is_none() {
            let mut m = String::new();
            push_str(&mut m, "min_size_mb is too large");
            return Err(ConfigError::Invalid(m));
        }
        Ok(())
    }

    /// Uses defaults only when no configuration file exists: a missing file
    /// gives the default settings, any other outcome of loading is kept.
    pub fn load_or_default(loaded: Result<Config, ConfigError>) -> (r: Result<Config, ConfigError>)
        ensures
            match loaded {
                Err(ConfigError::Missing(_)) => r matches Ok(c) && c@ == Config::spec_defaults(c.projects_dir@),
                _ => r == loaded,
            },
    {
        match loaded {
            Ok(config) => Ok(config),
            Err(ConfigError::Missing(_)) => Ok(Config::default()),
            Err(error) => Err(error),
        }
    }

    /// The projects directory with `~` and a leading `~/` expanded against `home`.
    pub open spec fn spec_projects_path(dir: Seq<char>, home: Option<Seq<char>>) -> Seq<char> {
        if dir.len() >= 2 && dir.take(2) == "~/"@ && home is Some {
            path_join(home->0, dir.skip(2))
        } else if dir == "~"@ && home is Some {
            home->0
        } else {
            dir
        }
    }

    /// Expands the projects directory against the given home directory.
    /// `~user` forms and relative paths pass through unchanged.
    pub fn projects_path_with(&self, home: Option<String>) -> (r: String)
        ensures
            r@ == Config::spec_projects_path(
                self.projects_dir@,
                match home {
                    Some(h) => Some(h@),
                    None => None,
                },
            ),
    {
        proof {
            reveal_strlit("~/");
            reveal_strlit("~");
        }
        let dir = chars_of(self.projects_dir.as_str());
        if dir.len() >= 2 && dir[0] == '~' && dir[1] == '/' {
            assert(dir@.take(2) =~= "~/"@);
            if let Some(h) = home {
                let mut rest = String::new();
                let mut i: usize = 2;
                while i < dir.len()
                    invariant
                        2 <= i <= dir@.len(),
                        rest@ == dir@.subrange(2, i as int),
                    decreases dir@.len() - i,
                {
                    push_char(&mut rest, dir[i]);
                    i = i + 1;
                    assert(rest@ =~= dir@.subrange(2, i as int));
                }
                assert(rest@ =~= dir@.skip(2));
                return join(h.as_str(), rest.as_str());
            }
        } else if str_eq(self.projects_dir.as_str(), "~") {
            if let Some(h) = home {
                return h;
            }
        } else {
            assert(!(dir@.len() >= 2 && dir@.take(2) == "~/"@)) by {
                if dir@.len() >= 2 && dir@.take(2) == "~/"@ {
                    assert(dir@.take(2)[0] == dir@[0]);
                    assert(dir@.take(2)[1] == dir@[1]);
                }
            }
        }
        self.projects_dir.clone()
    }

    /// Returns the projects directory with safe `~` expansion against the
    /// home directory, whatever the environment gives as home.
    pub fn projects_path(&self) -> (r: String)
        ensures
            exists|home: Option<Seq<char>>| r@ == Config::spec_projects_path(self.projects_dir@, home),
    {
        let home = home_dir();
        let ghost h = match &home {
            Some(x) => Some(x@),
            None => None,
        };
        let r = self.projects_path_with(home);
        assert(r@ == Config::spec_projects_path(self.projects_dir@, h));
        r
    }
}

impl Default for Config {
    fn default() -> (r: Config)
        ensures
            r@ == Config::spec_defaults(r.projects_dir@),
            trimmed(r.projects_dir@).len() > 0,
            check_config(r@) is Ok,
    {
        Config::with_projects_dir(detect_default_projects_dir())
    }
}


/// The keys a configuration file may hold.
pub open spec fn allowed_key(k: Seq<char>) -> bool {
    ||| k == "version"@
    ||| k == "projects_dir"@
    ||| k == "scope"@
    ||| k == "clean_behavior"@
    ||| k == "default_mode"@
    ||| k == "min_size_mb"@
    ||| k == "ignored_projects"@
}

/// The error for a required field that is missing or has the wrong shape.
pub open spec fn field_error(m: Map<Seq<char>, JsonView>, key: Seq<char>) -> ConfigErrorView {
    if m.contains_key(key) {
        ConfigErrorView::Parse("invalid value for field `"@ + key + "`"@)
    } else {
        ConfigErrorView::Parse("missing field `"@ + key + "`"@)
    }
}

/// The message for a key that the configuration does not have.
/// The first key, in the document's key order from position `i` on, that
/// the configuration does not have.
pub open spec fn first_unknown_key(keys: Seq<Seq<char>>, i: int) -> Option<Seq<char>>
    decreases keys.len() - i,
{
    if i < 0 || i >= keys.len() {
        None
    } else if !allowed_key(keys[i]) {
        Some(keys[i])
    } else {
        first_unknown_key(keys, i + 1)
    }
}

pub open spec fn unknown_field_message(key: Seq<char>) -> Seq<char> {
    "unknown field `"@ + key + "`"@
}

/// The error for a version that is absent or not a `u32`.
pub open spec fn bad_version_error() -> ConfigErrorView {
    ConfigErrorView::Invalid("configuration version must be an unsigned 32-bit integer"@)
}

/// The schema version a configuration object declares.
pub open spec fn version_of(m: Map<Seq<char>, JsonView>) -> Result<u32, ConfigErrorView> {
    if m.contains_key("version"@) {
        match m["version"@] {
            JsonView::UInt(v) => if v <= u32::MAX {
                Ok(v as u32)
            } else {
                Err(field_error(m, "version"@))
            },
            JsonView::Str(_) => Err(bad_version_error()),
            _ => Err(field_error(m, "version"@)),
        }
    } else {
        Err(bad_version_error())
    }
}

/// The string held by entry `key`, if it is a string.
pub open spec fn str_field(m: Map<Seq<char>, JsonView>, key: Seq<char>) -> Option<Seq<char>> {
    if m.contains_key(key) {
        match m[key] {
            JsonView::Str(s) => Some(s),
            _ => None,
        }
    } else {
        None
    }
}

/// The unsigned integer held by entry `key`, if it is one.
pub open spec fn u64_field(m: Map<Seq<char>, JsonView>, key: Seq<char>) -> Option<u64> {
    if m.contains_key(key) {
        match m[key] {
            JsonView::UInt(n) => Some(n),
            _ => None,
        }
    } else {
        None
    }
}

/// The ignored project names: absent means none; otherwise an array of strings.
pub open spec fn ignored_field(m: Map<Seq<char>, JsonView>) -> Option<Seq<Seq<char>>> {
    if m.contains_key("ignored_projects"@) {
        match m["ignored_projects"@] {
            JsonView::Array(items) => if forall|i: int| 0 <= i < items.len() ==> #[trigger] items[i] is Str {
                Some(items.map_values(|x: JsonView| x->Str_0))
            } else {
                None
            },
            _ => None,
        }
    } else {
        Some(Seq::empty())
    }
}

/// The configuration a (version-checked) object describes, in the current
/// schema version.
pub open spec fn fields_of(m: Map<Seq<char>, JsonView>) -> Result<ConfigView, ConfigErrorView> {
    match str_field(m, "projects_dir"@) {
        None => Err(field_error(m, "projects_dir"@)),
        Some(dir) => match Scope::spec_exact(str_field(m, "scope"@).unwrap_or(Seq::empty())) {
            None => Err(field_error(m, "scope"@)),
            Some(scope) => match CleanBehavior::spec_exact(
                str_field(m, "clean_behavior"@).unwrap_or(Seq::empty()),
            ) {
                None => Err(field_error(m, "clean_behavior"@)),
                Some(behavior) => match DefaultMode::spec_exact(
                    str_field(m, "default_mode"@).unwrap_or(Seq::empty()),
                ) {
                    None => Err(field_error(m, "default_mode"@)),
                    Some(mode) => match u64_field(m, "min_size_mb"@) {
                        None => Err(field_error(m, "min_size_mb"@)),
                        Some(min) => match ignored_field(m) {
                            None => Err(field_error(m, "ignored_projects"@)),
                            Some(ignored) => Ok(
                                ConfigView {
                                    version: CONFIG_VERSION,
                                    projects_dir: dir,
                                    scope,
                                    clean_behavior: behavior,
                                    default_mode: mode,
                                    min_size_mb: min,
                                    ignored_projects: ignored,
                                },
                            ),
                        },
                    },
                },
            },
        },
    }
}

/// What reading a configuration document gives.
pub enum ConfigDecode {
    Decoded(ConfigView),
    Failed(ConfigErrorView),
    /// The object holds a key that the configuration does not have.
    UnknownField,
}

/// Reading a configuration document, in this order: an object; no unknown
/// keys (the first one in the document is named); a version that is an
/// unsigned 32-bit integer (a missing or string version is invalid, any
/// other value a parse error); well-shaped fields; version 1 (migrated) or
/// 2; values that pass the configuration rules.
pub open spec fn decode_config_view(j: JsonView) -> ConfigDecode {
    match j {
        JsonView::Object(m, order) => if first_unknown_key(order, 0) is Some {
            ConfigDecode::UnknownField
        } else {
            match version_of(m) {
                Err(e) => ConfigDecode::Failed(e),
                Ok(v) => match fields_of(m) {
                    Err(e) => ConfigDecode::Failed(e),
                    Ok(c) => if v != CONFIG_VERSION && v != LEGACY_CONFIG_VERSION {
                        ConfigDecode::Failed(ConfigErrorView::UnsupportedVersion(v))
                    } else {
                        match check_config(c) {
                            Ok(_) => ConfigDecode::Decoded(c),
                            Err(e) => ConfigDecode::Failed(e),
                        }
                    },
                },
            }
        },
        _ => ConfigDecode::Failed(ConfigErrorView::Parse("expected a JSON object"@)),
    }
}

/// Whether `r` is what reading the document `j` gives.
pub open spec fn decoded_as(r: Result<Config, ConfigError>, j: JsonView) -> bool {
    match decode_config_view(j) {
        ConfigDecode::Decoded(c) => r matches Ok(x) && x@ == c,
        ConfigDecode::Failed(e) => r matches Err(x) && x@ == e,
        ConfigDecode::UnknownField => r matches Err(ConfigError::Parse(msg)) && msg@ == unknown_field_message(
            first_unknown_key(j->Object_1, 0)->Some_0,
        ),
    }
}

/// The order in which the configuration's keys are written: the order of
/// its fields.
pub open spec fn config_key_order() -> Seq<Seq<char>> {
    seq![
        "version"@,
        "projects_dir"@,
        "scope"@,
        "clean_behavior"@,
        "default_mode"@,
        "min_size_mb"@,
        "ignored_projects"@,
    ]
}

/// What reading the document `j` gives.
pub open spec fn decoded_view(j: JsonView) -> Result<ConfigView, ConfigErrorView> {
    match decode_config_view(j) {
        ConfigDecode::Decoded(c) => Ok(c),
        ConfigDecode::Failed(e) => Err(e),
        ConfigDecode::UnknownField => Err(
            ConfigErrorView::Parse(unknown_field_message(first_unknown_key(j->Object_1, 0)->Some_0)),
        ),
    }
}

/// What reading the configuration file at `path` gives, from what reading
/// the file gave: missing, a read error, or the file's text.
pub open spec fn load_view(path: Seq<char>, read: ReadOutcome) -> Result<ConfigView, ConfigErrorView> {
    match read {
        ReadOutcome::NotFound => Err(ConfigErrorView::Missing(path)),
        ReadOutcome::Failed(m) => Err(ConfigErrorView::Io(m@)),
        ReadOutcome::Text(t) => match json_document(t@) {
            None => Err(ConfigErrorView::Parse(json_error_text(t@))),
            Some(j) => decoded_view(j),
        },
    }
}

proof fn lemma_decoded_view(r: Result<Config, ConfigError>, j: JsonView)
    requires
        decoded_as(r, j),
    ensures
        config_result_view(r) == decoded_view(j),
{
}

/// The document a configuration is written as, its keys in field order.
pub open spec fn encode_config(c: ConfigView) -> JsonView {
    JsonView::Object(
        Map::empty()
            .insert("version"@, JsonView::UInt(c.version as u64))
            .insert("projects_dir"@, JsonView::Str(c.projects_dir))
            .insert("scope"@, JsonView::Str(c.scope.spec_name()))
            .insert("clean_behavior"@, JsonView::Str(c.clean_behavior.spec_name()))
            .insert("default_mode"@, JsonView::Str(c.default_mode.spec_name()))
            .insert("min_size_mb"@, JsonView::UInt(c.min_size_mb))
            .insert("ignored_projects"@, JsonView::Array(c.ignored_projects.map_values(|s: Seq<char>| JsonView::Str(s)))),
        config_key_order(),
    )
}

fn owned_text(s: &str) -> (r: String)
    ensures
        r@ == s@,
{
    let mut out = String::new();
    push_str(&mut out, s);
    assert(out@ =~= s@);
    out
}

fn quoted_field_message(prefix: &str, key: &str) -> (r: String)
    ensures
        r@ == prefix@ + key@ + "`"@,
{
    let mut out = String::new();
    push_str(&mut out, prefix);
    push_str(&mut out, key);
    push_str(&mut out, "`");
    out
}

/// The error for a field that is missing or malformed.
fn field_error_of(v: &serde_json::Value, key: &str) -> (r: ConfigError)
    requires
        json_view(*v) is Object,
    ensures
        r@ == field_error(json_view(*v)->Object_0, key@),
{
    if json_get(v, key).is_some() {
        ConfigError::Parse(quoted_field_message("invalid value for field `", key))
    } else {
        ConfigError::Parse(quoted_field_message("missing field `", key))
    }
}

/// The string held by a field of an object.
fn string_field(v: &serde_json::Value, key: &str) -> (r: Option<String>)
    requires
        json_view(*v) is Object,
    ensures
        match r {
            Some(s) => str_field(json_view(*v)->Object_0, key@) == Some(s@),
            None => str_field(json_view(*v)->Object_0, key@) is None,
        },
{
    match json_get(v, key) {
        Some(x) => json_as_str(x),
        None => None,
    }
}

fn is_allowed_key(k: &str) -> (r: bool)
    ensures
        r == allowed_key(k@),
{
    str_eq(k, "version") || str_eq(k, "projects_dir") || str_eq(k, "scope") || str_eq(k, "clean_behavior")
        || str_eq(k, "default_mode") || str_eq(k, "min_size_mb") || str_eq(k, "ignored_projects")
}

/// The ignored project names of a configuration object.
fn read_ignored(v: &serde_json::Value) -> (r: Option<Vec<String>>)
    requires
        json_view(*v) is Object,
    ensures
        match r {
            Some(names) => ignored_field(json_view(*v)->Object_0) == Some(views(names@)),
            None => ignored_field(json_view(*v)->Object_0) is None,
        },
{
    let mut ignored: Vec<String> = Vec::new();
    match json_get(v, "ignored_projects") {
        None => {
            assert(views(ignored@) =~= Seq::<Seq<char>>::empty());
            Some(ignored)
        },
        Some(x) => {
            let items = match json_as_array(x) {
                Some(items) => items,
                None => return None,
            };
            let ghost iv = json_views(items@);
            let mut i: usize = 0;
            while i < items.len()
                invariant
                    i <= items@.len(),
                    iv == json_views(items@),
                    json_view(*v) is Object,
                    json_view(*v)->Object_0.contains_key("ignored_projects"@),
                    json_view(*v)->Object_0["ignored_projects"@] == JsonView::Array(iv),
                    forall|k: int| 0 <= k < i ==> #[trigger] iv[k] is Str,
                    views(ignored@) == iv.take(i as int).map_values(|x: JsonView| x->Str_0),
                decreases items@.len() - i,
            {
                let name = match json_as_str(&items[i]) {
                    Some(name) => name,
                    None => {
                        assert(!(iv[i as int] is Str));
                        return None;
                    },
                };
                assert(iv[i as int] == JsonView::Str(name@));
                let ghost before = ignored@;
                ignored.push(name);
                proof {
                    let target = iv.take(i + 1).map_values(|x: JsonView| x->Str_0);
                    assert(views(before).len() == before.len());
                    assert(views(ignored@).len() == target.len());
                    assert forall|k: int| 0 <= k < i + 1 implies #[trigger] views(ignored@)[k] == target[k] by {
                        if k < i {
                            assert(ignored@[k] == before[k]);
                            assert(views(before)[k] == iv.take(i as int).map_values(|x: JsonView| x->Str_0)[k]);
                        }
                    }
                    assert(views(ignored@) =~= target);
                }
                i = i + 1;
            }
            assert(iv.take(items@.len() as int) =~= iv);
            Some(ignored)
        },
    }
}

/// The configuration fields of a version-checked object.
fn read_fields(v: &serde_json::Value) -> (r: Result<Config, ConfigError>)
    requires
        json_view(*v) is Object,
    ensures
        config_result_view(r) == fields_of(json_view(*v)->Object_0),
{
    let ghost m = json_view(*v)->Object_0;
    let dir = match string_field(v, "projects_dir") {
        Some(dir) => dir,
        None => return Err(field_error_of(v, "projects_dir")),
    };
    let scope = match string_field(v, "scope") {
        Some(name) => Scope::from_name(name.as_str()),
        None => None,
    };
    proof {
        reveal_strlit("tauri-only");
        reveal_strlit("tauri-and-rust");
        reveal_strlit("rust-only");
        assert("tauri-only"@.len() == 10 && "tauri-and-rust"@.len() == 14 && "rust-only"@.len() == 9);
    }
    assert(scope == Scope::spec_exact(str_field(m, "scope"@).unwrap_or(Seq::empty())));
    let scope = match scope {
        Some(scope) => scope,
        None => return Err(field_error_of(v, "scope")),
    };
    let behavior = match string_field(v, "clean_behavior") {
        Some(name) => CleanBehavior::from_name(name.as_str()),
        None => None,
    };
    proof {
        reveal_strlit("delete");
        reveal_strlit("trash");
        assert("delete"@.len() == 6 && "trash"@.len() == 5);
    }
    assert(behavior == CleanBehavior::spec_exact(str_field(m, "clean_behavior"@).unwrap_or(Seq::empty())));
    let behavior = match behavior {
        Some(behavior) => behavior,
        None => return Err(field_error_of(v, "clean_behavior")),
    };
    let mode = match string_field(v, "default_mode") {
        Some(name) => DefaultMode::from_name(name.as_str()),
        None => None,
    };
    proof {
        reveal_strlit("full");
        reveal_strlit("debug-only");
        reveal_strlit("incremental-only");
        reveal_strlit("deps-only");
        assert("full"@.len() == 4 && "debug-only"@.len() == 10 && "incremental-only"@.len() == 16
            && "deps-only"@.len() == 9);
    }
    assert(mode == DefaultMode::spec_exact(str_field(m, "default_mode"@).unwrap_or(Seq::empty())));
    let mode = match mode {
        Some(mode) => mode,
        None => return Err(field_error_of(v, "default_mode")),
    };
    let min = match json_get(v, "min_size_mb") {
        Some(x) => json_as_u64(x),
        None => None,
    };
    let min = match min {
        Some(min) => min,
        None => return Err(field_error_of(v, "min_size_mb")),
    };
    let ignored = match read_ignored(v) {
        Some(ignored) => ignored,
        None => return Err(field_error_of(v, "ignored_projects")),
    };
    Ok(Config {
        version: CONFIG_VERSION,
        projects_dir: dir,
        scope,
        clean_behavior: behavior,
        default_mode: mode,
        min_size_mb: min,
        ignored_projects: ignored,
    })
}

impl Config {
    /// Reads a configuration from a parsed JSON document, in the order of
    /// `decode_config_view`. Version-1 documents come back as version 2.
    pub fn from_json(v: &serde_json::Value) -> (r: Result<Config, ConfigError>)
        ensures
            decoded_as(r, json_view(*v)),
    {
        let keys = match json_object_keys(v) {
            Some(keys) => keys,
            None => return Err(ConfigError::Parse(owned_text("expected a JSON object"))),
        };
        let ghost m = json_view(*v)->Object_0;
        let mut i: usize = 0;
        while i < keys.len()
            invariant
                i <= keys@.len(),
                json_view(*v) == JsonView::Object(m, json_view(*v)->Object_1),
                keys@.map_values(|k: String| k@) == json_view(*v)->Object_1,
                first_unknown_key(json_view(*v)->Object_1, 0) == first_unknown_key(json_view(*v)->Object_1, i as int),
            decreases keys@.len() - i,
        {
            assert(json_view(*v)->Object_1[i as int] == keys@[i as int]@);
            if !is_allowed_key(keys[i].as_str()) {
                let msg = quoted_field_message("unknown field `", keys[i].as_str());
                assert(first_unknown_key(json_view(*v)->Object_1, i as int) == Some(keys@[i as int]@));
                return Err(ConfigError::Parse(msg));
            }
            i = i + 1;
        }
        assert(first_unknown_key(json_view(*v)->Object_1, i as int) is None);
        let version: u32 = match json_get(v, "version") {
            None => return Err(ConfigError::Invalid(owned_text("configuration version must be an unsigned 32-bit integer"))),
            Some(x) => match json_as_u64(x) {
                Some(n) => if n <= 4294967295u64 {
                    n as u32
                } else {
                    return Err(field_error_of(v, "version"));
                },
                None => if json_as_str(x).is_some() {
                    return Err(ConfigError::Invalid(owned_text("configuration version must be an unsigned 32-bit integer")));
                } else {
                    return Err(field_error_of(v, "version"));
                },
            },
        };
        assert(version_of(m) == Ok::<u32, ConfigErrorView>(version));
        let config = read_fields(v)?;
        if version != CONFIG_VERSION && version != LEGACY_CONFIG_VERSION {
            return Err(ConfigError::UnsupportedVersion(version));
        }
        config.validate()?;
        Ok(config)
    }

    /// Reads a configuration from the text of a configuration file.
    pub fn from_json_text(text: &str) -> (r: Result<Config, ConfigError>)
        ensures
            match json_document(text@) {
                None => r matches Err(ConfigError::Parse(m)) && m@ == json_error_text(text@),
                Some(j) => decoded_as(r, j),
            },
    {
        match parse_json(text) {
            Ok(v) => Config::from_json(&v),
            Err(message) => Err(ConfigError::Parse(message)),
        }
    }
}


proof fn lemma_key_names()
    ensures
        "version"@.len() == 7,
        "projects_dir"@.len() == 12,
        "scope"@.len() == 5,
        "clean_behavior"@.len() == 14,
        "default_mode"@.len() == 12,
        "min_size_mb"@.len() == 11,
        "ignored_projects"@.len() == 16,
        "projects_dir"@[0] == 'p',
        "default_mode"@[0] == 'd',
{
    reveal_strlit("version");
    reveal_strlit("projects_dir");
    reveal_strlit("scope");
    reveal_strlit("clean_behavior");
    reveal_strlit("default_mode");
    reveal_strlit("min_size_mb");
    reveal_strlit("ignored_projects");
}

proof fn lemma_names_distinct()
    ensures
        forall|x: Scope| #[trigger] Scope::spec_exact(x.spec_name()) == Some(x),
        forall|x: CleanBehavior| #[trigger] CleanBehavior::spec_exact(x.spec_name()) == Some(x),
        forall|x: DefaultMode| #[trigger] DefaultMode::spec_exact(x.spec_name()) == Some(x),
{
    reveal_strlit("tauri-only");
    reveal_strlit("tauri-and-rust");
    reveal_strlit("rust-only");
    reveal_strlit("delete");
    reveal_strlit("trash");
    reveal_strlit("full");
    reveal_strlit("debug-only");
    reveal_strlit("incremental-only");
    reveal_strlit("deps-only");
    assert("tauri-only"@.len() == 10 && "tauri-and-rust"@.len() == 14 && "rust-only"@.len() == 9);
    assert("delete"@.len() == 6 && "trash"@.len() == 5);
    assert("full"@.len() == 4 && "debug-only"@.len() == 10 && "incremental-only"@.len() == 16
        && "deps-only"@.len() == 9);
}

/// A configuration document that reads successfully is a current one: a
/// version-1 file migrates to version 2, and what comes out passes the
/// configuration rules; a well-formed document of any other version fails
/// as unsupported.
pub proof fn law_loaded_configs_are_current(j: JsonView)
    ensures
        decode_config_view(j) matches ConfigDecode::Decoded(c) ==> c.version == CONFIG_VERSION
            && check_config(c) is Ok,
        j matches JsonView::Object(m, _) ==> (version_of(m) matches Ok(v) ==> (v != CONFIG_VERSION && v
            != LEGACY_CONFIG_VERSION && first_unknown_key(j->Object_1, 0) is None
            && fields_of(m) is Ok ==> decode_config_view(j) == ConfigDecode::Failed(
            ConfigErrorView::UnsupportedVersion(v),
        ))),
{
}

/// A name written with lower-case letters and `-` only.
pub open spec fn kebab_name(s: Seq<char>) -> bool {
    forall|i: int| 0 <= i < s.len() ==> (('a' <= #[trigger] s[i] && s[i] <= 'z') || s[i] == '-')
}

pub(crate) proof fn lemma_kebab_is_its_own_key(s: Seq<char>)
    requires
        kebab_name(s),
    ensures
        all_ascii(s),
        dashes(ascii_lower(s)) == s,
        ascii_lower(s) == s,
{
    assert(ascii_lower(s) =~= s);
    assert(dashes(s) =~= s);
}

/// On ASCII input, the key a loose spelling is matched by is its own key:
/// the key is ASCII again, and lower-casing it and reading `_` as `-` once
/// more changes nothing. So reading a spelling and reading its key give the
/// same scope, behaviour and mode (for example `TAURI_ONLY` and
/// `tauri-only`).
pub proof fn law_ascii_loose_key_is_stable(s: Seq<char>)
    requires
        all_ascii(s),
    ensures
        all_ascii(dashes(ascii_lower(s))),
        dashes(ascii_lower(dashes(ascii_lower(s)))) == dashes(ascii_lower(s)),
        ascii_lower(dashes(ascii_lower(s))) == dashes(ascii_lower(s)),
        Scope::spec_loose(dashes(ascii_lower(dashes(ascii_lower(s))))) == Scope::spec_loose(dashes(ascii_lower(s))),
        CleanBehavior::spec_loose(ascii_lower(ascii_lower(s))) == CleanBehavior::spec_loose(ascii_lower(s)),
        DefaultMode::spec_loose(dashes(ascii_lower(dashes(ascii_lower(s))))) == DefaultMode::spec_loose(
            dashes(ascii_lower(s)),
        ),
{
    let k = dashes(ascii_lower(s));
    assert forall|i: int| 0 <= i < k.len() implies is_ascii_char(#[trigger] k[i]) by {
        assert(is_ascii_char(s[i]));
    }
    assert(ascii_lower(k) =~= k);
    assert(dashes(k) =~= k);
    assert(ascii_lower(ascii_lower(s)) =~= ascii_lower(s));
}

/// Every name the tool writes for a scope, a clean behaviour or a default
/// mode is read back as that value, by the exact reader and by the loose
/// reader of command-line input.
pub proof fn law_written_names_read_back()
    ensures
        forall|x: Scope| #![auto] all_ascii(x.spec_name())
            && Scope::spec_loose(dashes(ascii_lower(x.spec_name()))) == Some(x)
            && Scope::spec_exact(x.spec_name()) == Some(x),
        forall|x: CleanBehavior| #![auto] all_ascii(x.spec_name())
            && CleanBehavior::spec_loose(ascii_lower(x.spec_name())) == Some(x)
            && CleanBehavior::spec_exact(x.spec_name()) == Some(x),
        forall|x: DefaultMode| #![auto] all_ascii(x.spec_name())
            && DefaultMode::spec_loose(dashes(ascii_lower(x.spec_name()))) == Some(x)
            && DefaultMode::spec_exact(x.spec_name()) == Some(x),
{
    lemma_names_distinct();
    reveal_strlit("tauri-only");
    reveal_strlit("tauri-and-rust");
    reveal_strlit("rust-only");
    reveal_strlit("delete");
    reveal_strlit("trash");
    reveal_strlit("full");
    reveal_strlit("debug-only");
    reveal_strlit("incremental-only");
    reveal_strlit("deps-only");
    reveal_strlit("tauri");
    reveal_strlit("both");
    reveal_strlit("all");
    reveal_strlit("rust");
    reveal_strlit("rm");
    reveal_strlit("remove");
    reveal_strlit("recycle");
    reveal_strlit("bin");
    reveal_strlit("debug");
    reveal_strlit("incremental");
    reveal_strlit("deps");
    assert forall|x: Scope| #![auto] all_ascii(x.spec_name())
        && Scope::spec_loose(dashes(ascii_lower(x.spec_name()))) == Some(x) by {
        lemma_kebab_is_its_own_key(x.spec_name());
    }
    assert forall|x: CleanBehavior| #![auto] all_ascii(x.spec_name())
        && CleanBehavior::spec_loose(ascii_lower(x.spec_name())) == Some(x) by {
        lemma_kebab_is_its_own_key(x.spec_name());
    }
    assert forall|x: DefaultMode| #![auto] all_ascii(x.spec_name())
        && DefaultMode::spec_loose(dashes(ascii_lower(x.spec_name()))) == Some(x) by {
        lemma_kebab_is_its_own_key(x.spec_name());
    }
}

/// Writing a valid configuration and reading it back gives the same
/// configuration: every value, and the ignored project names in order.
pub proof fn lemma_config_round_trip(c: ConfigView)
    requires
        check_config(c) is Ok,
    ensures
        decode_config_view(encode_config(c)) == ConfigDecode::Decoded(c),
{
    lemma_key_names();
    lemma_names_distinct();
    let order = config_key_order();
    assert(first_unknown_key(order, 7) is None);
    assert(first_unknown_key(order, 6) is None);
    assert(first_unknown_key(order, 5) is None);
    assert(first_unknown_key(order, 4) is None);
    assert(first_unknown_key(order, 3) is None);
    assert(first_unknown_key(order, 2) is None);
    assert(first_unknown_key(order, 1) is None);
    assert(first_unknown_key(order, 0) is None);
    let j = encode_config(c);
    let m = j->Object_0;
    assert(m.contains_key("version"@) && m["version"@] == JsonView::UInt(c.version as u64));
    assert(version_of(m) == Ok::<u32, ConfigErrorView>(c.version));
    assert(forall|k: Seq<char>| #[trigger] m.contains_key(k) ==> allowed_key(k));
    assert(str_field(m, "projects_dir"@) == Some(c.projects_dir));
    assert(str_field(m, "scope"@) == Some(c.scope.spec_name()));
    assert(str_field(m, "clean_behavior"@) == Some(c.clean_behavior.spec_name()));
    assert(str_field(m, "default_mode"@) == Some(c.default_mode.spec_name()));
    assert(u64_field(m, "min_size_mb"@) == Some(c.min_size_mb));
    let items = c.ignored_projects.map_values(|s: Seq<char>| JsonView::Str(s));
    assert(m["ignored_projects"@] == JsonView::Array(items));
    assert(forall|i: int| 0 <= i < items.len() ==> #[trigger] items[i] is Str);
    assert(items.map_values(|x: JsonView| x->Str_0) =~= c.ignored_projects);
    assert(ignored_field(m) == Some(c.ignored_projects));
    let back = fields_of(m)->Ok_0;
    assert(back == c);
}

proof fn lemma_config_document_is_flat(c: ConfigView)
    ensures
        flat_document(encode_config(c)),
{
    let m = encode_config(c)->Object_0;
    let items = c.ignored_projects.map_values(|s: Seq<char>| JsonView::Str(s));
    assert(forall|i: int| 0 <= i < items.len() ==> scalar_json(#[trigger] items[i]));
    assert(shallow_json(JsonView::Array(items)));
    assert forall|k: Seq<char>| #[trigger] m.contains_key(k) implies shallow_json(m[k]) by {
        if k == "ignored_projects"@ {
            assert(m[k] == JsonView::Array(items));
        }
    }
}

impl Config {
    /// The JSON document of this configuration.
    pub fn to_json(&self) -> (r: serde_json::Value)
        ensures
            json_view(r) == encode_config(self@),
    {
        proof {
            lemma_key_names();
        }
        let mut names: Vec<serde_json::Value> = Vec::new();
        let mut i: usize = 0;
        while i < self.ignored_projects.len()
            invariant
                i <= self.ignored_projects@.len(),
                json_views(names@) == views(self.ignored_projects@).take(i as int).map_values(
                    |s: Seq<char>| JsonView::Str(s),
                ),
            decreases self.ignored_projects@.len() - i,
        {
            let item: &String = &self.ignored_projects[i];
            let copy: String = item.clone();
            let value = json_string(copy);
            let ghost before = names@;
            names.push(value);
            proof {
                let target = views(self.ignored_projects@).take(i + 1).map_values(|s: Seq<char>| JsonView::Str(s));
                assert(json_views(before).len() == before.len());
                assert(json_views(names@).len() == target.len());
                assert forall|k: int| 0 <= k < i + 1 implies #[trigger] json_views(names@)[k] == target[k] by {
                    if k < i {
                        assert(names@[k] == before[k]);
                        assert(json_views(before)[k] == views(self.ignored_projects@).take(i as int).map_values(
                            |s: Seq<char>| JsonView::Str(s))[k]);
                    }
                }
                assert(json_views(names@) =~= target);
            }
            i = i + 1;
        }
        assert(views(self.ignored_projects@).take(self.ignored_projects@.len() as int) =~= views(self.ignored_projects@));
        let mut pairs: Vec<(String, serde_json::Value)> = Vec::new();
        pairs.push((owned_text("version"), json_u64(self.version as u64)));
        pairs.push((owned_text("projects_dir"), json_string(self.projects_dir.clone())));
        pairs.push((owned_text("scope"), json_string(owned_text(self.scope.name()))));
        pairs.push((owned_text("clean_behavior"), json_string(owned_text(self.clean_behavior.name()))));
        pairs.push((owned_text("default_mode"), json_string(owned_text(self.default_mode.name()))));
        pairs.push((owned_text("min_size_mb"), json_u64(self.min_size_mb)));
        pairs.push((owned_text("ignored_projects"), json_array(names)));
        let r = json_object(pairs);
        proof {
            let expected = encode_config(self@)->Object_0;
            let got = json_view(r)->Object_0;
            assert(pairs@[0].0@ == "version"@);
            assert(pairs@[1].0@ == "projects_dir"@);
            assert(pairs@[2].0@ == "scope"@);
            assert(pairs@[3].0@ == "clean_behavior"@);
            assert(pairs@[4].0@ == "default_mode"@);
            assert(pairs@[5].0@ == "min_size_mb"@);
            assert(pairs@[6].0@ == "ignored_projects"@);
            assert forall|k: Seq<char>| #[trigger] got.contains_key(k) implies expected.contains_key(k) by {
                let i = choose|i: int| 0 <= i < pairs@.len() && pairs@[i].0@ == k;
                assert(0 <= i < 7);
            }
            assert(got.contains_key(pairs@[0].0@));
            assert(got.contains_key(pairs@[1].0@));
            assert(got.contains_key(pairs@[2].0@));
            assert(got.contains_key(pairs@[3].0@));
            assert(got.contains_key(pairs@[4].0@));
            assert(got.contains_key(pairs@[5].0@));
            assert(got.contains_key(pairs@[6].0@));
            assert(got =~= expected);
            assert(entry_keys(pairs@) =~= config_key_order());
        }
        r
    }

    /// Save config: the exact text written to the configuration file. The
    /// configuration is checked first, then written as pretty-printed JSON
    /// followed by a newline.
    ///
    /// Reading the saved text back gives the same configuration.
    pub fn save(&self) -> (r: Result<String, ConfigError>)
        ensures
            match check_config(self@) {
                Err(e) => r matches Err(x) && x@ == e,
                Ok(_) => r matches Ok(text) && text@ == json_pretty_text(encode_config(self@)) + "\n"@
                    && json_document(text@) == Some(encode_config(self@))
                    && decode_config_view(encode_config(self@)) == ConfigDecode::Decoded(self@),
            },
    {
        self.validate()?;
        let value = self.to_json();
        proof {
            lemma_config_document_is_flat(self@);
            lemma_config_round_trip(self@);
        }
        match json_to_pretty_string(&value) {
            Ok(mut text) => {
                push_str(&mut text, "\n");
                Ok(text)
            },
            Err(message) => Err(ConfigError::Io(message)),
        }
    }
}


/// Name of the configuration file in the home directory.
pub const CONFIG_FILENAME: &'static str = ".deox_config";

/// What reading the configuration file gave.
#[derive(Debug)]
pub enum ReadOutcome {
    /// The file's text.
    Text(String),
    /// No file exists at the path.
    NotFound,
    /// Reading failed; the error's text.
    Failed(String),
}

impl Config {
    /// The configuration file's path: `.deox_config` in the home directory,
    /// or in `.` when the home directory is unknown.
    pub fn config_path_in(home: Option<String>) -> (r: String)
        ensures
            r@ == path_join(
                match home {
                    Some(h) => h@,
                    None => "."@,
                },
                ".deox_config"@,
            ),
    {
        match home {
            Some(h) => join(h.as_str(), CONFIG_FILENAME),
            None => join(".", CONFIG_FILENAME),
        }
    }

    /// Returns the path to the config file: `~/.deox_config`.
    pub fn config_path() -> (r: String)
        ensures
            exists|dir: Seq<char>| r@ == path_join(dir, ".deox_config"@),
    {
        let home = home_dir();
        let ghost dir = match &home {
            Some(h) => h@,
            None => "."@,
        };
        let r = Config::config_path_in(home);
        assert(r@ == path_join(dir, ".deox_config"@));
        r
    }

    /// Load config from the file at `path`, given what reading it gave:
    /// a missing file is reported as such so callers that can safely use
    /// defaults do so explicitly, while destructive commands can refuse to
    /// proceed; a read failure is an I/O error; otherwise the text is
    /// decoded and checked.
    pub fn load_from(path: &str, read: ReadOutcome) -> (r: Result<Config, ConfigError>)
        ensures
            config_result_view(r) == load_view(path@, read),
            match read {
                ReadOutcome::NotFound => r matches Err(ConfigError::Missing(p)) && p@ == path@,
                ReadOutcome::Failed(m) => r matches Err(ConfigError::Io(x)) && x@ == m@,
                ReadOutcome::Text(t) => match json_document(t@) {
                    None => r matches Err(ConfigError::Parse(m)) && m@ == json_error_text(t@),
                    Some(j) => decoded_as(r, j),
                },
            },
    {
        match read {
            ReadOutcome::NotFound => Err(ConfigError::Missing(owned(path))),
            ReadOutcome::Failed(m) => Err(ConfigError::Io(m)),
            ReadOutcome::Text(t) => {
                let r = Config::from_json_text(t.as_str());
                proof {
                    if let Some(j) = json_document(t@) {
                        lemma_decoded_view(r, j);
                    }
                }
                r
            },
        }
    }

    /// Load config from the file at `path`, using defaults only when no
    /// file exists there.
    pub fn load_or_default_from(path: &str, read: ReadOutcome) -> (r: Result<Config, ConfigError>)
        ensures
            match read {
                ReadOutcome::NotFound => r matches Ok(c) && c@ == Config::spec_defaults(c.projects_dir@),
                ReadOutcome::Failed(m) => r matches Err(ConfigError::Io(x)) && x@ == m@,
                ReadOutcome::Text(t) => match json_document(t@) {
                    None => r matches Err(ConfigError::Parse(m)) && m@ == json_error_text(t@),
                    Some(j) => decoded_as(r, j),
                },
            },
    {
        Config::load_or_default(Config::load_from(path, read))
    }

    /// Load config from `~/.deox_config` (whose path is `path`), given what
    /// reading it gave.
    pub fn load(path: &str, read: ReadOutcome) -> (r: Result<Config, ConfigError>)
        ensures
            config_result_view(r) == load_view(path@, read),
            match read {
                ReadOutcome::NotFound => r matches Err(ConfigError::Missing(p)) && p@ == path@,
                ReadOutcome::Failed(m) => r matches Err(ConfigError::Io(x)) && x@ == m@,
                ReadOutcome::Text(t) => match json_document(t@) {
                    None => r matches Err(ConfigError::Parse(m)) && m@ == json_error_text(t@),
                    Some(j) => decoded_as(r, j),
                },
            },
    {
        Config::load_from(path, read)
    }
}

} // verus!
