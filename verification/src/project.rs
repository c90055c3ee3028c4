//! Discovered projects and the size accounting of their `target/` directories.
use vstd::prelude::*;
use crate::paths::{join, path_join};
use crate::text::{str_eq, views};

verus! {

/// The type of project detected.
#[derive(Debug, Clone, Copy, PartialEq, Eq, Structural)]
pub enum ProjectKind {
    /// A Tauri application (its manifest depends on `tauri` or `tauri-build`).
    TauriApp,
    /// A plain Rust/Cargo project.
    RustProject,
}

impl ProjectKind {
    /// The short display name: `Tauri` or `Rust`.
    pub fn name(&self) -> (r: &'static str)
        ensures
            r@ == match *self {
                ProjectKind::TauriApp => "Tauri"@,
                ProjectKind::RustProject => "Rust"@,
            },
    {
        match self {
            ProjectKind::TauriApp => "Tauri",
            ProjectKind::RustProject => "Rust",
        }
    }
}

/// `x` clamped to the `u64` range, as `saturating_add` does.
pub open spec fn sat(x: int) -> int {
    if x > u64::MAX {
        u64::MAX as int
    } else {
        x
    }
}

/// Breakdown of space usage within a target/ directory.
#[derive(Debug, Clone)]
pub struct TargetBreakdown {
    pub debug_size: u64,
    pub release_size: u64,
    pub incremental_size: u64,
    pub deps_size: u64,
    pub other_size: u64,
}

impl TargetBreakdown {
    /// The exclusive total: debug, release and other sizes, saturating.
    pub open spec fn spec_total(&self) -> int {
        sat(self.debug_size + self.release_size + self.other_size)
    }

    /// Exclusive total of top-level profile sizes.
    ///
    /// Sums only `debug_size`, `release_size`, and `other_size`.
    /// `incremental_size` and `deps_size` are overlapping views into files
    /// already counted under a profile, so they are excluded to avoid
    /// double-counting.
    pub fn total(&self) -> (r: u64)
        ensures
            r == self.spec_total(),
    {
        self.debug_size.saturating_add(self.release_size).saturating_add(self.other_size)
    }
}

impl Default for TargetBreakdown {
    fn default() -> (r: Self)
        ensures
            r.debug_size == 0 && r.release_size == 0 && r.incremental_size == 0
                && r.deps_size == 0 && r.other_size == 0,
    {
        TargetBreakdown {
            debug_size: 0,
            release_size: 0,
            incremental_size: 0,
            deps_size: 0,
            other_size: 0,
        }
    }
}

/// A discovered project with its build artifact location.
#[derive(Debug, Clone)]
pub struct DiscoveredProject {
    /// Project name (from Cargo.toml `package.name` or directory name).
    pub name: String,
    /// Path to the project root directory.
    pub path: String,
    /// Type of project detected.
    pub kind: ProjectKind,
    /// Path to the validated Cargo `target/` directory.
    pub artifact_dir: String,
    /// Total size of the artifact directory in bytes.
    pub artifact_size: u64,
    /// Most recent modification time within the artifact directory, in
    /// nanoseconds relative to the Unix epoch.
    pub last_modified: Option<i128>,
    /// Detailed size breakdown (Rust/Tauri projects only).
    pub breakdown: Option<TargetBreakdown>,
}

/// Whether a project's breakdown is present and adds up to its artifact size.
pub open spec fn sizes_agree(p: DiscoveredProject) -> bool {
    p.breakdown matches Some(b) && b.spec_total() == p.artifact_size
}

impl DiscoveredProject {
    /// The project found at `path` whose `target/` directory, directly under
    /// `path`, was analysed into `tally`: its size, newest modification time
    /// and breakdown all come from that one pass, so the breakdown adds up to
    /// the artifact size.
    pub fn from_scan(name: String, path: String, kind: ProjectKind, tally: TargetTally) -> (r: DiscoveredProject)
        requires
            tally.consistent(),
        ensures
            r.name@ == name@,
            r.path@ == path@,
            r.kind == kind,
            r.artifact_dir@ == path_join(path@, "target"@),
            r.artifact_size == tally.total_size,
            r.last_modified == tally.last_modified,
            r.breakdown == Some(tally.breakdown),
            sizes_agree(r),
    {
        let artifact_dir = join(path.as_str(), "target");
        DiscoveredProject {
            name,
            path,
            kind,
            artifact_dir,
            artifact_size: tally.total_size,
            last_modified: tally.last_modified,
            breakdown: Some(tally.breakdown),
        }
    }
}

/// Whether `name` is one of the components.
pub open spec fn has_component(components: Seq<Seq<char>>, name: Seq<char>) -> bool {
    exists|i: int| 0 <= i < components.len() && components[i] == name
}

/// The later of two optional timestamps.
pub open spec fn later(a: Option<i128>, b: Option<i128>) -> Option<i128> {
    match (a, b) {
        (Some(x), Some(y)) => Some(if x >= y { x } else { y }),
        (Some(x), None) => Some(x),
        (None, y) => y,
    }
}

/// The running totals of one pass over a target directory.
pub struct TargetTally {
    pub total_size: u64,
    pub breakdown: TargetBreakdown,
    pub last_modified: Option<i128>,
}

impl TargetTally {
    /// The analysed total always equals the breakdown's exclusive total.
    pub open spec fn consistent(&self) -> bool {
        self.total_size == self.breakdown.spec_total()
    }

    /// An empty tally.
    pub fn new() -> (r: Self)
        ensures
            r.consistent(),
            r.total_size == 0,
            r.last_modified is None,
            r.breakdown.debug_size == 0 && r.breakdown.release_size == 0
                && r.breakdown.incremental_size == 0 && r.breakdown.deps_size == 0
                && r.breakdown.other_size == 0,
    {
        TargetTally { total_size: 0, breakdown: TargetBreakdown::default(), last_modified: None }
    }

    /// Counts one regular file of `len` bytes whose path relative to the
    /// target directory has the parent directory names `parents`.
    ///
    /// A file under a `debug` directory counts as debug, else under `release`
    /// as release, else as other; it also counts as incremental or deps when
    /// one of its parents is so named. The file's own name plays no part.
    pub fn add_file(&mut self, parents: &Vec<String>, len: u64, modified: Option<i128>)
        requires
            old(self).consistent(),
        ensures
            final(self).consistent(),
            final(self).total_size == sat(old(self).total_size + len),
            final(self).last_modified == later(old(self).last_modified, modified),
            ({
                let comps = views(parents@);
                let b0 = old(self).breakdown;
                let b1 = final(self).breakdown;
                let dbg = has_component(comps, "debug"@);
                let rel = has_component(comps, "release"@);
                &&& b1.debug_size == if dbg { sat(b0.debug_size + len) } else { b0.debug_size as int }
                &&& b1.release_size == if !dbg && rel { sat(b0.release_size + len) } else { b0.release_size as int }
                &&& b1.other_size == if !dbg && !rel { sat(b0.other_size + len) } else { b0.other_size as int }
                &&& b1.incremental_size == if has_component(comps, "incremental"@) {
                    sat(b0.incremental_size + len)
                } else {
                    b0.incremental_size as int
                }
                &&& b1.deps_size == if has_component(comps, "deps"@) { sat(b0.deps_size + len) } else { b0.deps_size as int }
            }),
    {
        let mut is_debug = false;
        let mut is_release = false;
        let mut is_incremental = false;
        let mut is_deps = false;
        let ghost comps = views(parents@);
        proof {
            reveal_strlit("debug");
            reveal_strlit("release");
            reveal_strlit("incremental");
            reveal_strlit("deps");
            assert("debug"@.len() == 5 && "release"@.len() == 7 && "incremental"@.len() == 11 && "deps"@.len() == 4);
            assert("debug"@ != "release"@ && "debug"@ != "incremental"@ && "debug"@ != "deps"@);
            assert("release"@ != "incremental"@ && "release"@ != "deps"@ && "incremental"@ != "deps"@);
        }
        let mut i: usize = 0;
        while i < parents.len()
            invariant
                i <= parents@.len(),
                comps == views(parents@),
                "debug"@ != "release"@ && "debug"@ != "incremental"@ && "debug"@ != "deps"@,
                "release"@ != "incremental"@ && "release"@ != "deps"@ && "incremental"@ != "deps"@,
                is_debug == has_component(comps.take(i as int), "debug"@),
                is_release == has_component(comps.take(i as int), "release"@),
                is_incremental == has_component(comps.take(i as int), "incremental"@),
                is_deps == has_component(comps.take(i as int), "deps"@),
            decreases parents@.len() - i,
        {
            let name = parents[i].as_str();
            let ghost pre = comps.take(i as int);
            let ghost post = comps.take(i + 1);
            assert(post =~= pre.push(name@));
            assert forall|n: Seq<char>| has_component(post, n) <==> (has_component(pre, n) || name@ == n) by {
                if has_component(post, n) {
                    let j = choose|j: int| 0 <= j < post.len() && post[j] == n;
                    if j < pre.len() {
                        assert(pre[j] == n);
                    }
                }
                if has_component(pre, n) {
                    let j = choose|j: int| 0 <= j < pre.len() && pre[j] == n;
                    assert(post[j] == n);
                }
                if name@ == n {
                    assert(post[i as int] == n);
                }
            }
            if str_eq(name, "debug") {
                is_debug = true;
            } else if str_eq(name, "release") {
                is_release = true;
            } else if str_eq(name, "incremental") {
                is_incremental = true;
            } else if str_eq(name, "deps") {
                is_deps = true;
            }
            i = i + 1;
        }
        assert(comps.take(parents@.len() as int) =~= comps);
        self.total_size = self.total_size.saturating_add(len);
        self.last_modified = match (self.last_modified, modified) {
            (Some(prev), Some(t)) => Some(if prev >= t { prev } else { t }),
            (Some(prev), None) => Some(prev),
            (None, t) => t,
        };
        if is_debug {
            self.breakdown.debug_size = self.breakdown.debug_size.saturating_add(len);
        } else if is_release {
            self.breakdown.release_size = self.breakdown.release_size.saturating_add(len);
        } else {
            self.breakdown.other_size = self.breakdown.other_size.saturating_add(len);
        }
        if is_incremental {
            self.breakdown.incremental_size = self.breakdown.incremental_size.saturating_add(len);
        }
        if is_deps {
            self.breakdown.deps_size = self.breakdown.deps_size.saturating_add(len);
        }
    }
}

} // verus!
