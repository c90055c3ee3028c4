//! Cleaning modes, the directories each mode removes, and how the outcome of
//! a cleaning pass is reported.
use vstd::prelude::*;
use crate::config::{all_ascii, dashes, lemma_kebab_is_its_own_key, loose_key, DefaultMode};
use crate::paths::{
    components, file_name, join, parent, part_view, part_views, path_components, path_file_name, path_has_prefix, path_join,
    path_parent, same_parts, same_path, starts_with as path_starts_with, PathPart, PathPartView,
};
use crate::project::sat;
use crate::text::{ascii_lower, join as join_strings, joined, push_str, str_eq, views};

verus! {

broadcast use vstd::string::group_string_axioms;

/// The clean mode determines what gets removed.
#[derive(Debug, Clone, Copy, PartialEq, Eq, Structural)]
pub enum CleanMode {
    /// Delete entire target/ directory.
    Full,
    /// Delete debug/ but keep release/.
    DebugOnly,
    /// Delete incremental/ caches only.
    IncrementalOnly,
    /// Delete deps/ caches only.
    DepsOnly,
}

impl CleanMode {
    /// The mode that a normalised loose spelling names.
    pub open spec fn spec_loose(k: Seq<char>) -> Option<CleanMode> {
        if k == "full"@ {
            Some(CleanMode::Full)
        } else if k == "debug-only"@ || k == "debug"@ {
            Some(CleanMode::DebugOnly)
        } else if k == "incremental-only"@ || k == "incremental"@ {
            Some(CleanMode::IncrementalOnly)
        } else if k == "deps-only"@ || k == "deps"@ {
            Some(CleanMode::DepsOnly)
        } else {
            None
        }
    }

    /// The kebab-case name.
    pub open spec fn spec_name(self) -> Seq<char> {
        match self {
            CleanMode::Full => "full"@,
            CleanMode::DebugOnly => "debug-only"@,
            CleanMode::IncrementalOnly => "incremental-only"@,
            CleanMode::DepsOnly => "deps-only"@,
        }
    }

    /// The description shown to users.
    pub open spec fn spec_label(self) -> Seq<char> {
        match self {
            CleanMode::Full => "full (entire target/)"@,
            CleanMode::DebugOnly => "debug-only (target/debug/)"@,
            CleanMode::IncrementalOnly => "incremental-only (*/incremental/)"@,
            CleanMode::DepsOnly => "deps-only (*/deps/)"@,
        }
    }

    /// Reads a mode from user input: case-insensitive, `_` or `-`, with the
    /// short forms `debug`, `incremental` and `deps`.
    pub fn from_str_loose(s: &str) -> (r: Option<Self>)
        ensures
            r == CleanMode::spec_loose(loose_key(s@)),
            all_ascii(s@) ==> r == CleanMode::spec_loose(dashes(ascii_lower(s@))),
    {
        match DefaultMode::from_str_loose(s) {
            Some(mode) => Some(CleanMode::from(mode)),
            None => None,
        }
    }

    /// The description shown to users.
    pub fn label(&self) -> (r: &'static str)
        ensures
            r@ == self.spec_label(),
    {
        match self {
            CleanMode::Full => "full (entire target/)",
            CleanMode::DebugOnly => "debug-only (target/debug/)",
            CleanMode::IncrementalOnly => "incremental-only (*/incremental/)",
            CleanMode::DepsOnly => "deps-only (*/deps/)",
        }
    }

    /// The kebab-case name: `full`, `debug-only`, `incremental-only` or `deps-only`.
    pub fn name(&self) -> (r: &'static str)
        ensures
            r@ == self.spec_name(),
    {
        match self {
            CleanMode::Full => "full",
            CleanMode::DebugOnly => "debug-only",
            CleanMode::IncrementalOnly => "incremental-only",
            CleanMode::DepsOnly => "deps-only",
        }
    }
}

/// The clean mode for each configured default mode.
pub open spec fn mode_of(mode: DefaultMode) -> CleanMode {
    match mode {
        DefaultMode::Full => CleanMode::Full,
        DefaultMode::DebugOnly => CleanMode::DebugOnly,
        DefaultMode::IncrementalOnly => CleanMode::IncrementalOnly,
        DefaultMode::DepsOnly => CleanMode::DepsOnly,
    }
}

impl From<DefaultMode> for CleanMode {
    fn from(mode: DefaultMode) -> (r: Self) {
        match mode {
            DefaultMode::Full => CleanMode::Full,
            DefaultMode::DebugOnly => CleanMode::DebugOnly,
            DefaultMode::IncrementalOnly => CleanMode::IncrementalOnly,
            DefaultMode::DepsOnly => CleanMode::DepsOnly,
        }
    }
}

impl vstd::std_specs::convert::FromSpecImpl<DefaultMode> for CleanMode {
    open spec fn obeys_from_spec() -> bool {
        true
    }

    open spec fn from_spec(v: DefaultMode) -> CleanMode {
        mode_of(v)
    }
}

/// Result of a clean operation on a single project.
#[derive(Debug)]
pub enum CleanResult {
    Cleaned { bytes_freed: u64 },
    Partial { bytes_freed: u64, message: String },
    Skipped { reason: String },
    Error { message: String },
}

impl CleanResult {
    /// The result when a mode finds nothing to remove.
    pub fn nothing_to_clean() -> (r: CleanResult)
        ensures
            r matches CleanResult::Skipped { reason } && reason@ == "No matching directories found"@,
    {
        let mut reason = String::new();
        push_str(&mut reason, "No matching directories found");
        CleanResult::Skipped { reason }
    }
}

/// A top-level entry of a target directory, as the debug-only mode reads it.
pub struct TargetEntry {
    /// The entry's file name.
    pub name: String,
    /// Whether the entry is a directory (links are not followed).
    pub is_dir: bool,
    /// Whether `<entry>/debug` is a real directory (not a link).
    pub has_real_debug: bool,
}

/// Whether the entry is a target-triple directory with a debug profile.
pub open spec fn triple_debug_dir(e: TargetEntry) -> bool {
    e.is_dir && e.name@ != "debug"@ && e.name@ != "release"@ && e.has_real_debug
}

/// The debug directories the debug-only mode removes, in listing order after
/// `target/debug` itself.
pub open spec fn debug_dirs(target: Seq<char>, top_debug_real: bool, entries: Seq<TargetEntry>) -> Seq<Seq<char>>
    decreases entries.len(),
{
    if entries.len() == 0 {
        if top_debug_real {
            seq![path_join(target, "debug"@)]
        } else {
            Seq::empty()
        }
    } else {
        let rest = debug_dirs(target, top_debug_real, entries.drop_last());
        let e = entries.last();
        if triple_debug_dir(e) {
            rest.push(path_join(path_join(target, e.name@), "debug"@))
        } else {
            rest
        }
    }
}

/// The debug-only mode cleans `target/debug` when it is a real directory,
/// then `target/<name>/debug` for every listed entry that is a directory,
/// is named neither `debug` nor `release`, and has a real `debug`
/// directory: one path per such entry, none left out, in listing order.
pub proof fn law_debug_only_covers_every_triple(target: Seq<char>, top_debug_real: bool, entries: Seq<TargetEntry>)
    ensures
        debug_dirs(target, top_debug_real, entries) == (if top_debug_real {
            seq![path_join(target, "debug"@)]
        } else {
            Seq::empty()
        }) + entries.filter(
            |e: TargetEntry| e.is_dir && e.name@ != "debug"@ && e.name@ != "release"@ && e.has_real_debug,
        ).map_values(|e: TargetEntry| path_join(path_join(target, e.name@), "debug"@)),
    decreases entries.len(),
{
    let f = |e: TargetEntry| e.is_dir && e.name@ != "debug"@ && e.name@ != "release"@ && e.has_real_debug;
    let g = |e: TargetEntry| path_join(path_join(target, e.name@), "debug"@);
    let head = if top_debug_real {
        seq![path_join(target, "debug"@)]
    } else {
        Seq::<Seq<char>>::empty()
    };
    reveal(Seq::filter);
    if entries.len() == 0 {
        assert(entries.filter(f) =~= Seq::<TargetEntry>::empty());
        assert(debug_dirs(target, top_debug_real, entries) =~= head + entries.filter(f).map_values(g));
    } else {
        law_debug_only_covers_every_triple(target, top_debug_real, entries.drop_last());
        let e = entries.last();
        if f(e) {
            assert(entries.filter(f) == entries.drop_last().filter(f).push(e));
            assert(entries.filter(f).map_values(g) =~= entries.drop_last().filter(f).map_values(g).push(g(e)));
        } else {
            assert(entries.filter(f) == entries.drop_last().filter(f));
        }
        assert(debug_dirs(target, top_debug_real, entries) =~= head + entries.filter(f).map_values(g));
    }
}

/// Paths the debug-only mode cleans: `target/debug` when it is a real
/// directory, then `target/<triple>/debug` for each directory entry other
/// than `debug` and `release` whose `debug` is a real directory (e.g.
/// `target/x86_64-pc-windows-msvc/debug`).
pub fn debug_dirs_to_clean(target: &str, top_debug_real: bool, entries: &Vec<TargetEntry>) -> (r: Vec<String>)
    ensures
        views(r@) == debug_dirs(target@, top_debug_real, entries@),
{
    let mut dirs: Vec<String> = Vec::new();
    if top_debug_real {
        dirs.push(join(target, "debug"));
    }
    proof {
        assert(views(dirs@) =~= debug_dirs(target@, top_debug_real, entries@.take(0)));
    }
    let mut i: usize = 0;
    while i < entries.len()
        invariant
            i <= entries@.len(),
            views(dirs@) == debug_dirs(target@, top_debug_real, entries@.take(i as int)),
        decreases entries@.len() - i,
    {
        let e = &entries[i];
        let ghost before = dirs@;
        assert(entries@.take(i + 1).drop_last() =~= entries@.take(i as int));
        if e.is_dir && !str_eq(e.name.as_str(), "debug") && !str_eq(e.name.as_str(), "release") && e.has_real_debug {
            let triple = join(target, e.name.as_str());
            let path = join(triple.as_str(), "debug");
            dirs.push(path);
            proof {
                assert(views(dirs@) =~= views(before).push(path@));
            }
        }
        i = i + 1;
    }
    assert(entries@.take(entries@.len() as int) =~= entries@);
    dirs
}

/// One entry of a bounded walk of the target directory.
pub struct WalkEntry {
    pub path: String,
    pub name: String,
    pub is_dir: bool,
}

/// The paths of the directory entries named `name`, in walk order.
pub open spec fn named_dirs(entries: Seq<WalkEntry>, name: Seq<char>) -> Seq<Seq<char>>
    decreases entries.len(),
{
    if entries.len() == 0 {
        Seq::empty()
    } else {
        let rest = named_dirs(entries.drop_last(), name);
        let e = entries.last();
        if e.is_dir && e.name@ == name {
            rest.push(e.path@)
        } else {
            rest
        }
    }
}

/// Collects the directories with a specific name (`incremental` or `deps`)
/// from a walk of the target directory up to depth 3.
pub fn collect_subdirs_named(entries: &Vec<WalkEntry>, target_name: &str) -> (r: Vec<String>)
    ensures
        views(r@) == named_dirs(entries@, target_name@),
{
    let mut out: Vec<String> = Vec::new();
    let mut i: usize = 0;
    while i < entries.len()
        invariant
            i <= entries@.len(),
            views(out@) == named_dirs(entries@.take(i as int), target_name@),
        decreases entries@.len() - i,
    {
        let e = &entries[i];
        let ghost before = out@;
        assert(entries@.take(i + 1).drop_last() =~= entries@.take(i as int));
        if e.is_dir && str_eq(e.name.as_str(), target_name) {
            let path = e.path.clone();
            out.push(path);
            proof {
                assert(views(out@) =~= views(before).push(path@));
            }
        }
        i = i + 1;
    }
    assert(entries@.take(entries@.len() as int) =~= entries@);
    out
}

/// Sizes of the paths a mode would clean: `None` for a path that is not a
/// real directory (skipped), otherwise its measured size or the error that
/// stopped the measurement.
pub open spec fn estimate(measured: Seq<Option<Result<u64, String>>>) -> Result<int, Seq<char>>
    decreases measured.len(),
{
    if measured.len() == 0 {
        Ok(0)
    } else {
        match estimate(measured.drop_last()) {
            Err(e) => Err(e),
            Ok(t) => match measured.last() {
                None => Ok(t),
                Some(Err(e)) => Err(e@),
                Some(Ok(n)) => Ok(sat(t + n)),
            },
        }
    }
}

pub open spec fn estimate_result_view(r: Result<u64, String>) -> Result<int, Seq<char>> {
    match r {
        Ok(n) => Ok(n as int),
        Err(e) => Err(e@),
    }
}

/// How many bytes a project + mode would free (for a dry run): the saturating
/// sum of the sizes of the real directories, or the first measurement error.
pub fn estimate_freed(measured: &Vec<Option<Result<u64, String>>>) -> (r: Result<u64, String>)
    ensures
        estimate_result_view(r) == estimate(measured@),
{
    let mut total: u64 = 0;
    let mut i: usize = 0;
    while i < measured.len()
        invariant
            i <= measured@.len(),
            estimate(measured@.take(i as int)) == Ok::<int, Seq<char>>(total as int),
        decreases measured@.len() - i,
    {
        assert(measured@.take(i + 1).drop_last() =~= measured@.take(i as int));
        match &measured[i] {
            None => {},
            Some(Err(e)) => {
                let e = e.clone();
                proof {
                    assert(estimate(measured@.take(i + 1)) == Err::<int, Seq<char>>(e@));
                    lemma_estimate_error_sticks(measured@, i + 1);
                }
                return Err(e);
            },
            Some(Ok(n)) => {
                total = total.saturating_add(*n);
            },
        }
        i = i + 1;
    }
    assert(measured@.take(measured@.len() as int) =~= measured@);
    Ok(total)
}

proof fn lemma_estimate_error_sticks(measured: Seq<Option<Result<u64, String>>>, i: int)
    requires
        0 <= i <= measured.len(),
        estimate(measured.take(i)) is Err,
    ensures
        estimate(measured) == estimate(measured.take(i)),
    decreases measured.len() - i,
{
    if i < measured.len() {
        assert(measured.take(i + 1).drop_last() =~= measured.take(i));
        lemma_estimate_error_sticks(measured, i + 1);
    } else {
        assert(measured.take(i) =~= measured);
    }
}

/// Whether `r` reports a dry run whose measurements were `sizes`: the
/// saturating sum of the sizes, or an error for the first that failed.
pub open spec fn dry_run_outcome(sizes: Seq<Result<u64, String>>, r: CleanResult) -> bool {
    match estimate(sizes.map_values(|s: Result<u64, String>| Some(s))) {
        Ok(n) => r matches CleanResult::Cleaned { bytes_freed } && bytes_freed == n,
        Err(e) => r matches CleanResult::Error { message } && message@ == e,
    }
}

/// The outcome of a dry run over the existing directories: the saturating sum
/// of their sizes, or an error result for the first one that failed to measure.
pub fn dry_run_result(sizes: &Vec<Result<u64, String>>) -> (r: CleanResult)
    ensures
        dry_run_outcome(sizes@, r),
{
    let mut measured: Vec<Option<Result<u64, String>>> = Vec::new();
    let mut i: usize = 0;
    while i < sizes.len()
        invariant
            i <= sizes@.len(),
            measured@ == sizes@.take(i as int).map_values(|s: Result<u64, String>| Some(s)),
        decreases sizes@.len() - i,
    {
        let item: Result<u64, String> = match &sizes[i] {
            Ok(n) => Ok(*n),
            Err(e) => {
                let copy: String = e.clone();
                Err(copy)
            },
        };
        assert(item == sizes@[i as int]);
        measured.push(Some(item));
        i = i + 1;
        assert(measured@ =~= sizes@.take(i as int).map_values(|s: Result<u64, String>| Some(s)));
    }
    assert(sizes@.take(sizes@.len() as int) =~= sizes@);
    match estimate_freed(&measured) {
        Ok(n) => CleanResult::Cleaned { bytes_freed: n },
        Err(message) => CleanResult::Error { message },
    }
}


/// Whether `r` is the result of a cleaning pass that ended with tally `t`:
/// cleaned when nothing failed; partial when some bytes were freed despite
/// errors; an error when nothing was freed. Error messages are joined with
/// `; `.
pub open spec fn finished_as(t: CleanTally, r: CleanResult) -> bool {
    &&& t.errors@.len() == 0 ==> r == (CleanResult::Cleaned { bytes_freed: t.freed })
    &&& t.errors@.len() > 0 && t.freed > 0 ==> (r matches CleanResult::Partial { bytes_freed, message }
        && bytes_freed == t.freed && message@ == joined(views(t.errors@), "; "@))
    &&& t.errors@.len() > 0 && t.freed == 0 ==> (r matches CleanResult::Error { message }
        && message@ == joined(views(t.errors@), "; "@))
}

/// The running outcome of cleaning one project's directories.
pub struct CleanTally {
    /// Bytes of the directories removed so far.
    pub freed: u64,
    /// One message per directory that could not be validated or removed.
    pub errors: Vec<String>,
}

fn failure_message(prefix: &str, path: &str, error: &str) -> (r: String)
    ensures
        r@ == prefix@ + path@ + ": "@ + error@,
{
    let mut m = String::new();
    push_str(&mut m, prefix);
    push_str(&mut m, path);
    push_str(&mut m, ": ");
    push_str(&mut m, error);
    m
}

impl CleanTally {
    /// Nothing removed, no errors.
    pub fn new() -> (r: CleanTally)
        ensures
            r.freed == 0,
            r.errors@.len() == 0,
    {
        CleanTally { freed: 0, errors: Vec::new() }
    }

    /// A directory failed validation and was left alone.
    pub fn record_validation_failure(&mut self, path: &str, error: &str)
        ensures
            final(self).freed == old(self).freed,
            views(final(self).errors@) == views(old(self).errors@).push("Failed to validate "@ + path@ + ": "@ + error@),
    {
        let m = failure_message("Failed to validate ", path, error);
        let ghost before = self.errors@;
        self.errors.push(m);
        assert(views(self.errors@) =~= views(before).push(m@));
    }

    /// A directory of `size` bytes was removed.
    pub fn record_removed(&mut self, size: u64)
        requires
            old(self).freed + size <= u64::MAX,
        ensures
            final(self).freed == old(self).freed + size,
            final(self).errors@ == old(self).errors@,
    {
        self.freed = self.freed + size;
    }

    /// Removing a directory failed.
    pub fn record_removal_failure(&mut self, path: &str, error: &str)
        ensures
            final(self).freed == old(self).freed,
            views(final(self).errors@) == views(old(self).errors@).push("Failed to remove "@ + path@ + ": "@ + error@),
    {
        let m = failure_message("Failed to remove ", path, error);
        let ghost before = self.errors@;
        self.errors.push(m);
        assert(views(self.errors@) =~= views(before).push(m@));
    }

    /// The project's result: cleaned when nothing failed; partial when some
    /// bytes were freed despite errors; an error when nothing was freed.
    /// Error messages are joined with `; `.
    pub fn finish(self) -> (r: CleanResult)
        ensures
            finished_as(self, r),
    {
        if self.errors.len() > 0 {
            let message = join_strings(&self.errors, "; ");
            if self.freed > 0 {
                CleanResult::Partial { bytes_freed: self.freed, message }
            } else {
                CleanResult::Error { message }
            }
        } else {
            CleanResult::Cleaned { bytes_freed: self.freed }
        }
    }
}


/// What validating and measuring a directory to clean found: the target
/// directory it was checked against, the directory's resolved path and its
/// size.
pub struct Measurement {
    pub target: String,
    pub canonical: String,
    pub size: u64,
}

pub open spec fn size_view(r: Result<u64, String>) -> Result<u64, Seq<char>> {
    match r {
        Ok(n) => Ok(n),
        Err(e) => Err(e@),
    }
}

/// What a measurement of the directory at `path` counts as: its size when
/// the path lies inside the target directory (component-wise, with no `..`)
/// and resolves inside it; otherwise the reason it does not, or the failure
/// reported.
pub open spec fn effective_size(path: Seq<char>, m: Result<Measurement, String>) -> Result<u64, Seq<char>> {
    match m {
        Err(e) => Err(e@),
        Ok(x) => match clean_path_check(path, x.target@) {
            Err(e) => Err(e),
            Ok(_) => if path_has_prefix(x.canonical@, x.target@) {
                Ok(x.size)
            } else {
                Err("clean path "@ + path + " resolved outside target directory"@)
            },
        },
    }
}

fn checked_size(path: &str, m: Result<Measurement, String>) -> (r: Result<u64, String>)
    ensures
        size_view(r) == effective_size(path@, m),
{
    match m {
        Err(e) => Err(e),
        Ok(x) => match clean_path_components(path, x.target.as_str()) {
            Err(e) => Err(e),
            Ok(_) => match check_resolved_clean_path(path, x.canonical.as_str(), x.target.as_str()) {
                Err(e) => Err(e),
                Ok(()) => Ok(x.size),
            },
        },
    }
}

/// A path with `prefix` before it, as an owned string.
fn prefixed(prefix: &str, path: &str) -> (r: String)
    ensures
        r@ == prefix@ + path@,
{
    let mut m = String::new();
    push_str(&mut m, prefix);
    push_str(&mut m, path);
    m
}

/// A project root must be a real directory, not a symbolic link (links are
/// not followed when it is inspected).
pub fn check_project_root_entry(is_symlink: bool, is_dir: bool) -> (r: Result<(), String>)
    ensures
        r is Ok <==> !is_symlink && is_dir,
        r matches Err(e) ==> e@ == "project root is not a real directory"@,
{
    if is_symlink || !is_dir {
        Err(crate::text::owned("project root is not a real directory"))
    } else {
        Ok(())
    }
}

/// A target directory must be a real directory, not a symbolic link.
pub fn check_target_entry(is_symlink: bool, is_dir: bool) -> (r: Result<(), String>)
    ensures
        r is Ok <==> !is_symlink && is_dir,
        r matches Err(e) ==> e@ == "target directory is missing or is a symlink"@,
{
    if is_symlink || !is_dir {
        Err(crate::text::owned("target directory is missing or is a symlink"))
    } else {
        Ok(())
    }
}

/// No directory on the way from the target down to a clean path may be a
/// symbolic link.
pub fn check_clean_path_entry(path: &str, is_symlink: bool) -> (r: Result<(), String>)
    ensures
        r is Ok <==> !is_symlink,
        r matches Err(e) ==> e@ == "refusing symlinked clean path "@ + path@,
{
    if is_symlink {
        Err(prefixed("refusing symlinked clean path ", path))
    } else {
        Ok(())
    }
}

/// Nothing inside a directory to clean may be a symbolic link.
pub fn check_walked_entry(path: &str, is_symlink: bool) -> (r: Result<(), String>)
    ensures
        r is Ok <==> !is_symlink,
        r matches Err(e) ==> e@ == "refusing to clean symlink "@ + path@,
{
    if is_symlink {
        Err(prefixed("refusing to clean symlink ", path))
    } else {
        Ok(())
    }
}

/// What cleaning a project's existing directories does next.
pub enum CleanAction {
    /// Validate the directory at this index of the list and measure it.
    Measure(usize),
    /// Remove the directory at this index, validated and measured just before.
    Remove(usize),
    /// Stop with this result.
    Finish(CleanResult),
}

/// What the last action gave.
pub enum CleanEvent {
    /// What validating and measuring the directory found, or why it failed.
    Measured(Result<Measurement, String>),
    /// Whether removing the directory succeeded, or why it failed.
    Removed(Result<(), String>),
}

/// Cleaning one project's existing directories, one at a time: each is
/// validated and measured; a dry run only adds up the sizes and stops at the
/// first failure, while a real run removes each directory that passed and
/// records every failure.
pub struct CleanRun {
    /// The existing directories, in the order they are handled.
    pub paths: Vec<String>,
    pub dry_run: bool,
    /// The index of the directory being handled.
    pub next: usize,
    /// The size of the directory waiting to be removed.
    pub awaiting_removal: Option<u64>,
    /// A dry run's running total.
    pub dry_total: u64,
    /// A real run's running outcome.
    pub tally: CleanTally,
    pub finished: bool,
    /// Every measurement seen so far, in order.
    pub measured: Ghost<Seq<Result<u64, String>>>,
}

pub open spec fn some_sizes(sizes: Seq<Result<u64, String>>) -> Seq<Option<Result<u64, String>>> {
    sizes.map_values(|s: Result<u64, String>| Some(s))
}

impl CleanRun {
    /// The run's bookkeeping is consistent.
    pub open spec fn wf(&self) -> bool {
        &&& self.next <= self.paths@.len()
        &&& !self.finished ==> self.next < self.paths@.len()
        &&& self.dry_run ==> self.awaiting_removal is None
        &&& self.dry_run && !self.finished ==> {
            &&& estimate(some_sizes(self.measured@)) == Ok::<int, Seq<char>>(self.dry_total as int)
            &&& self.measured@.len() == self.next
        }
    }

    /// Whether `event` answers the action the run asked for last.
    pub open spec fn expects(&self, event: CleanEvent) -> bool {
        &&& !self.finished
        &&& (self.awaiting_removal is Some <==> event is Removed)
    }

    /// Starts cleaning `paths`; with none, there is nothing to clean.
    pub fn start(paths: Vec<String>, dry_run: bool) -> (r: (CleanRun, CleanAction))
        ensures
            r.0.wf(),
            r.0.paths@ == paths@,
            r.0.dry_run == dry_run,
            r.0.tally.freed == 0 && r.0.tally.errors@.len() == 0,
            r.0.measured@.len() == 0,
            paths@.len() == 0 ==> r.0.finished && (r.1 matches CleanAction::Finish(CleanResult::Skipped { reason })
                && reason@ == "No matching directories found"@),
            paths@.len() > 0 ==> !r.0.finished && r.0.next == 0 && r.0.awaiting_removal is None && r.1 == CleanAction::Measure(0),
    {
        let empty = paths.len() == 0;
        let run = CleanRun {
            paths,
            dry_run,
            next: 0,
            awaiting_removal: None,
            dry_total: 0,
            tally: CleanTally::new(),
            finished: empty,
            measured: Ghost(Seq::empty()),
        };
        assert(some_sizes(Seq::<Result<u64, String>>::empty()) =~= Seq::<Option<Result<u64, String>>>::empty());
        if empty {
            (run, CleanAction::Finish(CleanResult::nothing_to_clean()))
        } else {
            (run, CleanAction::Measure(0))
        }
    }

    fn copy_tally(t: &CleanTally) -> (r: CleanTally)
        ensures
            r.freed == t.freed,
            views(r.errors@) == views(t.errors@),
            r.errors@.len() == t.errors@.len(),
    {
        let mut errors: Vec<String> = Vec::new();
        let mut i: usize = 0;
        while i < t.errors.len()
            invariant
                i <= t.errors@.len(),
                views(errors@) == views(t.errors@.take(i as int)),
                errors@.len() == i,
            decreases t.errors@.len() - i,
        {
            let copy: String = t.errors[i].clone();
            let ghost before = errors@;
            errors.push(copy);
            proof {
                assert(copy@ == t.errors@[i as int]@);
                assert forall|k: int| 0 <= k < i + 1 implies #[trigger] views(errors@)[k] == views(
                    t.errors@.take(i + 1),
                )[k] by {
                    if k < i {
                        assert(errors@[k] == before[k]);
                        assert(views(before)[k] == views(t.errors@.take(i as int))[k]);
                    }
                }
            }
            i = i + 1;
            assert(views(errors@) =~= views(t.errors@.take(i as int)));
        }
        assert(t.errors@.take(t.errors@.len() as int) =~= t.errors@);
        CleanTally { freed: t.freed, errors }
    }

    fn advance(&mut self) -> (r: CleanAction)
        requires
            !old(self).dry_run,
            old(self).next < old(self).paths@.len(),
            !old(self).finished,
        ensures
            final(self).paths@ == old(self).paths@,
            final(self).dry_run == old(self).dry_run,
            final(self).next == old(self).next + 1,
            final(self).awaiting_removal is None,
            final(self).measured@ == old(self).measured@,
            final(self).dry_total == old(self).dry_total,
            final(self).finished == (final(self).next == final(self).paths@.len()),
            final(self).tally == old(self).tally,
            final(self).finished ==> (r matches CleanAction::Finish(res) && finished_as(old(self).tally, res)),
            !final(self).finished ==> r == CleanAction::Measure(final(self).next),
    {
        let count = self.paths.len();
        self.next = self.next + 1;
        self.awaiting_removal = None;
        if self.next == count {
            self.finished = true;
            let done = CleanRun::copy_tally(&self.tally);
            let res = done.finish();
            CleanAction::Finish(res)
        } else {
            CleanAction::Measure(self.next)
        }
    }

    /// Takes the outcome of the last action and says what to do next.
    ///
    /// A dry run never removes anything, and its result is what the
    /// measurements add up to (the estimate). A directory is removed only
    /// right after it passed validation and was measured.
    pub fn step(&mut self, event: CleanEvent) -> (r: CleanAction)
        requires
            old(self).wf(),
            old(self).expects(event),
            event is Removed && event->Removed_0 is Ok ==> old(self).tally.freed + old(self).awaiting_removal->Some_0
                <= u64::MAX,
        ensures
            final(self).wf(),
            final(self).paths@ == old(self).paths@,
            final(self).dry_run == old(self).dry_run,
            old(self).dry_run ==> !(r is Remove),
            r matches CleanAction::Remove(i) ==> (event matches CleanEvent::Measured(Ok(x)) && i == old(self).next
                && clean_path_check(old(self).paths@[i as int]@, x.target@) is Ok && path_has_prefix(
                x.canonical@,
                x.target@,
            ) && final(self).next == i && final(self).awaiting_removal == Some(x.size) && !final(self).finished),
            r matches CleanAction::Measure(i) ==> (i == final(self).next && !final(self).finished
                && final(self).awaiting_removal is None),
            r is Finish <==> final(self).finished,
            r matches CleanAction::Finish(res) ==> if old(self).dry_run {
                dry_run_outcome(final(self).measured@, res)
            } else {
                finished_as(final(self).tally, res)
            },
            old(self).dry_run ==> (event matches CleanEvent::Measured(m) && final(self).measured@.len() == old(
                self,
            ).measured@.len() + 1 && final(self).measured@.drop_last() == old(self).measured@ && size_view(
                final(self).measured@.last(),
            ) == effective_size(old(self).paths@[old(self).next as int]@, m)),
            !old(self).dry_run ==> match event {
                CleanEvent::Measured(m) => match effective_size(old(self).paths@[old(self).next as int]@, m) {
                    Ok(_) => final(self).tally == old(self).tally,
                    Err(e) => final(self).tally.freed == old(self).tally.freed && views(final(self).tally.errors@)
                        == views(old(self).tally.errors@).push(
                        "Failed to validate "@ + old(self).paths@[old(self).next as int]@ + ": "@ + e,
                    ),
                },
                CleanEvent::Removed(Ok(_)) => final(self).tally.freed == old(self).tally.freed + old(
                    self,
                ).awaiting_removal->Some_0 && final(self).tally.errors@ == old(self).tally.errors@,
                CleanEvent::Removed(Err(e)) => final(self).tally.freed == old(self).tally.freed && views(
                    final(self).tally.errors@,
                ) == views(old(self).tally.errors@).push(
                    "Failed to remove "@ + old(self).paths@[old(self).next as int]@ + ": "@ + e@,
                ),
            },
    {
        let ghost before = self.measured@;
        if self.dry_run {
            match event {
                CleanEvent::Measured(found) => {
                    let m = checked_size(self.paths[self.next].as_str(), found);
                    let ghost seen = before.push(m);
                    proof {
                        assert(seen.drop_last() =~= before);
                        assert(some_sizes(seen).drop_last() =~= some_sizes(before));
                        assert(some_sizes(seen).last() == Some(m));
                    }
                    self.measured = Ghost(seen);
                    match m {
                        Ok(n) => {
                            let count = self.paths.len();
                            self.dry_total = self.dry_total.saturating_add(n);
                            self.next = self.next + 1;
                            if self.next == count {
                                self.finished = true;
                                CleanAction::Finish(CleanResult::Cleaned { bytes_freed: self.dry_total })
                            } else {
                                CleanAction::Measure(self.next)
                            }
                        },
                        Err(e) => {
                            self.finished = true;
                            CleanAction::Finish(CleanResult::Error { message: e })
                        },
                    }
                },
                CleanEvent::Removed(_) => {
                    CleanAction::Finish(CleanResult::nothing_to_clean())
                },
            }
        } else {
            let i = self.next;
            match event {
                CleanEvent::Measured(found) => match checked_size(self.paths[i].as_str(), found) {
                    Ok(n) => {
                        self.awaiting_removal = Some(n);
                        CleanAction::Remove(i)
                    },
                    Err(e) => {
                        self.tally.record_validation_failure(self.paths[i].as_str(), e.as_str());
                        self.advance()
                    },
                },
                CleanEvent::Removed(outcome) => {
                    let size = match self.awaiting_removal {
                        Some(n) => n,
                        None => 0,
                    };
                    match outcome {
                        Ok(()) => self.tally.record_removed(size),
                        Err(e) => self.tally.record_removal_failure(self.paths[i].as_str(), e.as_str()),
                    }
                    self.advance()
                },
            }
        }
    }
}

/// The components of `path` after those of `target`, when `target` is a
/// whole-component prefix of `path` (`Path::strip_prefix`).
pub open spec fn components_after(path: Seq<char>, target: Seq<char>) -> Option<Seq<PathPartView>> {
    let pc = path_components(path);
    let tc = path_components(target);
    if tc.len() <= pc.len() && pc.take(tc.len() as int) == tc {
        Some(pc.skip(tc.len() as int))
    } else {
        None
    }
}

/// Whether a component list holds a `..`.
pub open spec fn has_parent_dir(parts: Seq<PathPartView>) -> bool {
    exists|i: int| 0 <= i < parts.len() && parts[i] == PathPartView::ParentDir
}

/// What a clean path is, relative to the validated target directory.
pub open spec fn clean_path_check(path: Seq<char>, target: Seq<char>) -> Result<Seq<PathPartView>, Seq<char>> {
    match components_after(path, target) {
        None => Err("clean path is outside target directory"@),
        Some(rest) => if has_parent_dir(rest) {
            Err("clean path contains parent traversal"@)
        } else {
            Ok(rest)
        },
    }
}

pub open spec fn parts_result_view(r: Result<Vec<PathPart>, String>) -> Result<Seq<PathPartView>, Seq<char>> {
    match r {
        Ok(v) => Ok(part_views(v@)),
        Err(e) => Err(e@),
    }
}

/// A clean path must lie inside the target directory and must not climb
/// out of it with `..`; the components below the target are returned, to
/// be checked one by one for symbolic links.
pub fn clean_path_components(path: &str, target: &str) -> (r: Result<Vec<PathPart>, String>)
    ensures
        parts_result_view(r) == clean_path_check(path@, target@),
{
    let pp = components(path);
    let tp = components(target);
    let ghost pv = part_views(pp@);
    let ghost tv = part_views(tp@);
    if tp.len() > pp.len() || !same_parts(&pp, &tp, 0, tp.len()) {
        proof {
            if tp@.len() <= pp@.len() {
                assert(pv.subrange(0, tv.len() as int) =~= pv.take(tv.len() as int));
                assert(tv.take(tv.len() as int) =~= tv);
            }
        }
        let mut m = String::new();
        push_str(&mut m, "clean path is outside target directory");
        return Err(m);
    }
    proof {
        assert(pv.subrange(0, tv.len() as int) =~= pv.take(tv.len() as int));
        assert(tv.take(tv.len() as int) =~= tv);
    }
    let mut rest: Vec<PathPart> = Vec::new();
    let mut i: usize = tp.len();
    while i < pp.len()
        invariant
            tp@.len() <= i <= pp@.len(),
            pv == part_views(pp@),
            tv == part_views(tp@),
            pv == path_components(path@),
            tv == path_components(target@),
            pv.take(tv.len() as int) == tv,
            part_views(rest@) == pv.subrange(tp@.len() as int, i as int),
            !has_parent_dir(pv.subrange(tp@.len() as int, i as int)),
        decreases pp@.len() - i,
    {
        let part = match &pp[i] {
            PathPart::Prefix => PathPart::Prefix,
            PathPart::RootDir => PathPart::RootDir,
            PathPart::CurDir => PathPart::CurDir,
            PathPart::ParentDir => {
                proof {
                    let sub = pv.skip(tv.len() as int);
                    assert(sub[i - tv.len()] == PathPartView::ParentDir);
                    assert(has_parent_dir(sub));
                }
                let mut m = String::new();
                push_str(&mut m, "clean path contains parent traversal");
                return Err(m);
            },
            PathPart::Normal(name) => PathPart::Normal(name.clone()),
        };
        assert(part_view(part) == pv[i as int]);
        let ghost before = rest@;
        rest.push(part);
        proof {
            assert(rest@ == before.push(part));
            assert(part_views(rest@) =~= part_views(before).push(part_view(part)));
            assert(part_views(rest@) =~= pv.subrange(tp@.len() as int, i + 1));
            assert forall|j: int| 0 <= j < i + 1 - tv.len() implies #[trigger] pv.subrange(tp@.len() as int, i + 1)[j]
                != PathPartView::ParentDir by {
                if j < i - tv.len() {
                    assert(pv.subrange(tp@.len() as int, i + 1)[j] == pv.subrange(tp@.len() as int, i as int)[j]);
                }
            }
        }
        i = i + 1;
    }
    assert(pv.subrange(tp@.len() as int, pp@.len() as int) =~= pv.skip(tv.len() as int));
    Ok(rest)
}

/// A clean path must still resolve inside the target directory.
pub fn check_resolved_clean_path(path: &str, canonical: &str, target: &str) -> (r: Result<(), String>)
    ensures
        r is Ok <==> path_has_prefix(canonical@, target@),
        r matches Err(e) ==> e@ == "clean path "@ + path@ + " resolved outside target directory"@,
{
    if path_starts_with(canonical, target) {
        Ok(())
    } else {
        let mut m = String::new();
        push_str(&mut m, "clean path ");
        push_str(&mut m, path);
        push_str(&mut m, " resolved outside target directory");
        Err(m)
    }
}

/// The artifact directory must be named `target`; its parent is returned.
pub fn target_parent(artifact_dir: &str) -> (r: Result<String, String>)
    ensures
        match r {
            Ok(p) => path_file_name(artifact_dir@) == Some("target"@) && path_parent(artifact_dir@) == Some(p@),
            Err(e) => if path_file_name(artifact_dir@) != Some("target"@) {
                e@ == "artifact path is not named target"@
            } else {
                path_parent(artifact_dir@) is None && e@ == "target directory has no parent"@
            },
        },
{
    let named_target = match file_name(artifact_dir) {
        Some(n) => str_eq(n.as_str(), "target"),
        None => false,
    };
    if !named_target {
        let mut m = String::new();
        push_str(&mut m, "artifact path is not named target");
        return Err(m);
    }
    match parent(artifact_dir) {
        Some(p) => Ok(p),
        None => {
            let mut m = String::new();
            push_str(&mut m, "target directory has no parent");
            Err(m)
        },
    }
}

/// The resolved parent of the target directory must be the project root.
pub fn check_target_parent(resolved_parent: &str, project_root: &str) -> (r: Result<(), String>)
    ensures
        r is Ok <==> path_components(resolved_parent@) == path_components(project_root@),
        r matches Err(e) ==> e@ == "target directory is not directly under project root"@,
{
    if same_path(resolved_parent, project_root) {
        Ok(())
    } else {
        let mut m = String::new();
        push_str(&mut m, "target directory is not directly under project root");
        Err(m)
    }
}

/// The resolved target directory must sit directly in the project root.
pub fn check_resolved_target(resolved_target: &str, project_root: &str) -> (r: Result<(), String>)
    ensures
        r is Ok <==> (path_parent(resolved_target@) matches Some(p)
            && path_components(p) == path_components(project_root@)),
        r matches Err(e) ==> e@ == "resolved target directory escaped project root"@,
{
    let ok = match parent(resolved_target) {
        Some(p) => same_path(p.as_str(), project_root),
        None => false,
    };
    if ok {
        Ok(())
    } else {
        let mut m = String::new();
        push_str(&mut m, "resolved target directory escaped project root");
        Err(m)
    }
}

/// Totals of a cleaning run over several projects.
#[derive(Debug)]
pub struct CleanSummary {
    /// Bytes freed, saturating.
    pub total_freed: u64,
    /// Projects cleaned fully or partly.
    pub cleaned: usize,
    /// Projects with errors (partly cleaned ones included).
    pub errors: usize,
}

/// Bytes a result freed.
pub open spec fn freed_by(r: CleanResult) -> int {
    match r {
        CleanResult::Cleaned { bytes_freed } => bytes_freed as int,
        CleanResult::Partial { bytes_freed, .. } => bytes_freed as int,
        _ => 0,
    }
}

/// Whether a result counts as a cleaned project.
pub open spec fn counts_cleaned(r: CleanResult) -> bool {
    r is Cleaned || r is Partial
}

/// Whether a result counts as an error.
pub open spec fn counts_error(r: CleanResult) -> bool {
    r is Partial || r is Error
}

/// Saturating total of the bytes freed by `rs`.
pub open spec fn freed_total(rs: Seq<CleanResult>) -> int
    decreases rs.len(),
{
    if rs.len() == 0 {
        0
    } else {
        sat(freed_total(rs.drop_last()) + freed_by(rs.last()))
    }
}

/// Number of results satisfying `f`.
pub open spec fn count_results(rs: Seq<CleanResult>, f: spec_fn(CleanResult) -> bool) -> nat
    decreases rs.len(),
{
    if rs.len() == 0 {
        0
    } else {
        count_results(rs.drop_last(), f) + if f(rs.last()) { 1nat } else { 0nat }
    }
}

proof fn lemma_count_bounded(rs: Seq<CleanResult>, f: spec_fn(CleanResult) -> bool)
    ensures
        count_results(rs, f) <= rs.len(),
    decreases rs.len(),
{
    if rs.len() > 0 {
        lemma_count_bounded(rs.drop_last(), f);
    }
}

/// Tallies the results of a cleaning run: bytes freed by cleaned and
/// partly cleaned projects, how many were cleaned, and how many had errors.
pub fn summarize_results(results: &Vec<CleanResult>) -> (r: CleanSummary)
    ensures
        r.total_freed == freed_total(results@),
        r.cleaned == count_results(results@, |x: CleanResult| counts_cleaned(x)),
        r.errors == count_results(results@, |x: CleanResult| counts_error(x)),
{
    let mut total: u64 = 0;
    let mut cleaned: usize = 0;
    let mut errors: usize = 0;
    let mut i: usize = 0;
    while i < results.len()
        invariant
            i <= results@.len(),
            total == freed_total(results@.take(i as int)),
            cleaned == count_results(results@.take(i as int), |x: CleanResult| counts_cleaned(x)),
            errors == count_results(results@.take(i as int), |x: CleanResult| counts_error(x)),
        decreases results@.len() - i,
    {
        proof {
            lemma_count_bounded(results@.take(i as int), |x: CleanResult| counts_cleaned(x));
            lemma_count_bounded(results@.take(i as int), |x: CleanResult| counts_error(x));
            assert(results@.take(i + 1).drop_last() =~= results@.take(i as int));
        }
        match &results[i] {
            CleanResult::Cleaned { bytes_freed } => {
                total = total.saturating_add(*bytes_freed);
                cleaned = cleaned + 1;
            },
            CleanResult::Partial { bytes_freed, .. } => {
                total = total.saturating_add(*bytes_freed);
                cleaned = cleaned + 1;
                errors = errors + 1;
            },
            CleanResult::Error { .. } => {
                errors = errors + 1;
            },
            CleanResult::Skipped { .. } => {},
        }
        i = i + 1;
    }
    assert(results@.take(results@.len() as int) =~= results@);
    CleanSummary { total_freed: total, cleaned, errors }
}

/// Saturating sum of `sizes`.
pub open spec fn saturating_sum(sizes: Seq<u64>) -> int
    decreases sizes.len(),
{
    if sizes.len() == 0 {
        0
    } else {
        sat(saturating_sum(sizes.drop_last()) + sizes.last())
    }
}

/// The estimate over all projects: the saturating sum of their estimates.
pub fn saturating_total(sizes: &Vec<u64>) -> (r: u64)
    ensures
        r == saturating_sum(sizes@),
{
    let mut total: u64 = 0;
    let mut i: usize = 0;
    while i < sizes.len()
        invariant
            i <= sizes@.len(),
            total == saturating_sum(sizes@.take(i as int)),
        decreases sizes@.len() - i,
    {
        assert(sizes@.take(i + 1).drop_last() =~= sizes@.take(i as int));
        total = total.saturating_add(sizes[i]);
        i = i + 1;
    }
    assert(sizes@.take(sizes@.len() as int) =~= sizes@);
    total
}


/// Every mode name the tool writes is read back as that mode by the loose
/// reader of command-line input.
pub proof fn law_mode_names_read_back()
    ensures
        forall|m: CleanMode| #![auto] all_ascii(m.spec_name())
            && CleanMode::spec_loose(dashes(ascii_lower(m.spec_name()))) == Some(m),
{
    reveal_strlit("full");
    reveal_strlit("debug-only");
    reveal_strlit("incremental-only");
    reveal_strlit("deps-only");
    reveal_strlit("debug");
    reveal_strlit("incremental");
    reveal_strlit("deps");
    assert forall|m: CleanMode| #![auto] all_ascii(m.spec_name())
        && CleanMode::spec_loose(dashes(ascii_lower(m.spec_name()))) == Some(m) by {
        lemma_kebab_is_its_own_key(m.spec_name());
    }
}

/// Whether `p` is the path of a directory entry named `name`.
pub open spec fn named_entry_path(entries: Seq<WalkEntry>, name: Seq<char>, p: Seq<char>) -> bool {
    exists|j: int| 0 <= j < entries.len() && entries[j].is_dir && entries[j].name@ == name && #[trigger] entries[j].path@ == p
}

/// The incremental-only and deps-only modes select only directories of the
/// walk that carry the mode's name: each selected path is such an entry's.
pub proof fn law_named_dirs_come_from_matching_entries(entries: Seq<WalkEntry>, name: Seq<char>)
    ensures
        forall|k: int| 0 <= k < named_dirs(entries, name).len() ==> named_entry_path(entries, name, #[trigger] named_dirs(entries, name)[k]),
    decreases entries.len(),
{
    if entries.len() > 0 {
        let rest = entries.drop_last();
        law_named_dirs_come_from_matching_entries(rest, name);
        assert forall|k: int| 0 <= k < named_dirs(entries, name).len() implies named_entry_path(entries, name, #[trigger] named_dirs(entries, name)[k]) by {
            if k < named_dirs(rest, name).len() {
                assert(named_entry_path(rest, name, named_dirs(rest, name)[k]));
                let j = choose|j: int| 0 <= j < rest.len() && rest[j].is_dir && rest[j].name@ == name
                    && #[trigger] rest[j].path@ == named_dirs(rest, name)[k];
                assert(entries[j] == rest[j]);
                assert(entries[j].path@ == named_dirs(entries, name)[k]);
            } else {
                let j = entries.len() - 1;
                assert(entries[j] == entries.last());
                assert(entries[j].path@ == named_dirs(entries, name)[k]);
            }
        }
    }
}

/// The debug-only mode removes only `debug` directories: `target/debug`
/// itself, or `target/<name>/debug` for a listed directory whose name is
/// neither `debug` nor `release`, so release profiles are never selected.
pub proof fn law_debug_only_keeps_release(target: Seq<char>, top_debug_real: bool, entries: Seq<TargetEntry>)
    ensures
        forall|k: int| 0 <= k < debug_dirs(target, top_debug_real, entries).len() ==> (#[trigger] debug_dirs(target, top_debug_real, entries)[k]
            == path_join(target, "debug"@) || exists|j: int| 0 <= j < entries.len() && triple_debug_dir(entries[j])
            && debug_dirs(target, top_debug_real, entries)[k] == path_join(path_join(target, entries[j].name@), "debug"@)),
    decreases entries.len(),
{
    if entries.len() > 0 {
        let rest = entries.drop_last();
        law_debug_only_keeps_release(target, top_debug_real, rest);
        let all = debug_dirs(target, top_debug_real, entries);
        let prev = debug_dirs(target, top_debug_real, rest);
        assert forall|k: int| 0 <= k < all.len() implies (#[trigger] all[k] == path_join(target, "debug"@) || exists|j: int|
            0 <= j < entries.len() && triple_debug_dir(entries[j]) && all[k] == path_join(path_join(target, entries[j].name@), "debug"@)) by {
            if k < prev.len() {
                assert(all[k] == prev[k]);
                if prev[k] != path_join(target, "debug"@) {
                    let j = choose|j: int| 0 <= j < rest.len() && triple_debug_dir(rest[j])
                        && prev[k] == path_join(path_join(target, rest[j].name@), "debug"@);
                    assert(entries[j] == rest[j]);
                }
            } else {
                assert(entries[entries.len() - 1] == entries.last());
            }
        }
    }
}

/// A clean path that is accepted lies inside the target directory: its
/// components are the target's followed by the returned ones, none of which
/// is `..`.
pub proof fn law_accepted_clean_paths_stay_in_target(path: Seq<char>, target: Seq<char>)
    ensures
        clean_path_check(path, target) matches Ok(rest) ==> path_components(path) == path_components(target) + rest
            && forall|i: int| 0 <= i < rest.len() ==> #[trigger] rest[i] != PathPartView::ParentDir,
{
    if let Ok(rest) = clean_path_check(path, target) {
        let pc = path_components(path);
        let tc = path_components(target);
        assert(pc =~= pc.take(tc.len() as int) + pc.skip(tc.len() as int));
    }
}
} // verus!
