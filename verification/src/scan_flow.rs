//! The decisions of a scan for projects, one candidate manifest at a time:
//! which manifests are read, which `target/` directory a project uses (its
//! own, else the one shared by the nearest workspace above it within the
//! scan root), which workspace manifest its kind is judged with, and which
//! projects are kept. The program performs each read and probe and hands
//! back what it found.
use vstd::prelude::*;
use crate::config::{owned_opt_view, Scope};
use crate::manifest::{toml_view, view_get, TomlView};
use crate::paths::{ancestors_within, bounded_ancestors, join, parent, path_join, path_parent};
use crate::project::{sizes_agree, DiscoveredProject, ProjectKind, TargetTally};
use crate::scanner::{
    detect_project_kind, extract_project_name, has_section, in_scan_order, is_virtual_manifest, project_kind_of,
    project_name_of, scope_admits, scope_includes, sort_candidates, sort_projects, TargetClaims,
};
use crate::text::{decimal, decimal_string, push_str, views};

verus! {

broadcast use vstd::string::group_string_axioms;

/// What was learned of one directory above a project, nearest first.
pub struct AncestorProbe {
    pub dir: String,
    /// Its manifest declares a workspace.
    pub is_workspace: bool,
    /// Its `target/` directory, when that is a real directory.
    pub real_target: Option<String>,
}

/// The nearest probed workspace, from position `i` on, with a real target.
pub open spec fn first_workspace_target(probes: Seq<AncestorProbe>, i: int) -> Option<(Seq<char>, Seq<char>)>
    decreases probes.len() - i,
{
    if i < 0 || i >= probes.len() {
        None
    } else if probes[i].is_workspace && probes[i].real_target is Some {
        Some((probes[i].dir@, probes[i].real_target->Some_0@))
    } else {
        first_workspace_target(probes, i + 1)
    }
}

/// The project's root and `target/` directory: its own target when that is
/// a real directory, else the target of the nearest workspace ancestor that
/// has a real one, else none.
pub open spec fn target_choice(
    project_dir: Seq<char>,
    own_target: Option<Seq<char>>,
    probes: Seq<AncestorProbe>,
) -> Option<(Seq<char>, Seq<char>)> {
    match own_target {
        Some(t) => Some((project_dir, t)),
        None => first_workspace_target(probes, 0),
    }
}

pub open spec fn pair_view(r: Option<(String, String)>) -> Option<(Seq<char>, Seq<char>)> {
    match r {
        Some((a, b)) => Some((a@, b@)),
        None => None,
    }
}

fn copy_text(s: &String) -> (r: String)
    ensures
        r@ == s@,
{
    let mut out = String::new();
    push_str(&mut out, s.as_str());
    out
}

/// Which `target/` directory a project uses, from what was probed.
pub fn choose_target_dir(project_dir: &str, own_target: Option<String>, ancestors: &Vec<AncestorProbe>) -> (r: Option<
    (String, String),
>)
    ensures
        pair_view(r) == target_choice(project_dir@, owned_opt_view(own_target), ancestors@),
{
    if let Some(t) = &own_target {
        let mut dir = String::new();
        push_str(&mut dir, project_dir);
        return Some((dir, copy_text(t)));
    }
    let mut i: usize = 0;
    while i < ancestors.len()
        invariant
            own_target is None,
            i <= ancestors@.len(),
            first_workspace_target(ancestors@, 0) == first_workspace_target(ancestors@, i as int),
        decreases ancestors@.len() - i,
    {
        let probe = &ancestors[i];
        if probe.is_workspace {
            if let Some(t) = &probe.real_target {
                assert(first_workspace_target(ancestors@, i as int) == Some((probe.dir@, t@)));
                return Some((copy_text(&probe.dir), copy_text(t)));
            }
        }
        i = i + 1;
    }
    None
}

proof fn lemma_probe_pushed(ps: Seq<AncestorProbe>, x: AncestorProbe, i: int)
    requires
        0 <= i <= ps.len(),
        first_workspace_target(ps, i) is None,
    ensures
        first_workspace_target(ps.push(x), i) == if x.is_workspace && x.real_target is Some {
            Some((x.dir@, x.real_target->Some_0@))
        } else {
            None
        },
    decreases ps.len() - i,
{
    if i < ps.len() {
        assert(ps.push(x)[i] == ps[i]);
        lemma_probe_pushed(ps, x, i + 1);
    } else {
        assert(ps.push(x)[i] == x);
        assert(first_workspace_target(ps.push(x), i + 1) is None);
    }
}

/// A configured scan root must be a real directory: a symbolic link is
/// refused first, then anything that is not a directory.
pub fn check_scan_root_entry(is_symlink: bool, is_dir: bool) -> (r: Result<(), String>)
    ensures
        r is Ok <==> !is_symlink && is_dir,
        r matches Err(e) ==> e@ == if is_symlink {
            "configured scan root is a symlink"@
        } else {
            "configured scan root is not a directory"@
        },
{
    if is_symlink {
        Err(crate::text::owned("configured scan root is a symlink"))
    } else if !is_dir {
        Err(crate::text::owned("configured scan root is not a directory"))
    } else {
        Ok(())
    }
}

/// Where a scan stands.
#[derive(PartialEq, Eq, Structural)]
pub enum ScanPhase {
    /// Waiting for the candidate's manifest.
    ReadManifest,
    /// Waiting for whether the project's own `target/` is a real directory.
    ProbeOwnTarget,
    /// Waiting for the manifest of the ancestor at `pos`.
    ReadAncestorManifest,
    /// Waiting for whether that workspace ancestor's `target/` is real.
    ProbeAncestorTarget,
    /// No ancestor target: waiting for the own target once more, the
    /// project's manifest declaring a workspace itself.
    ReprobeOwnTarget,
    /// Waiting for the manifest of the directory at `pos`, looking for the
    /// nearest workspace manifest.
    ReadWorkspaceManifest,
    /// Waiting for the resolved path of the target directory.
    Canonicalize,
    /// Waiting for the analysis of the target directory.
    Analyze,
    /// The scan is over.
    Done,
}

/// What the scan does next.
pub enum ScanAction {
    /// Read the manifest at this path (a missing or invalid one reads as none).
    ReadManifest(String),
    /// Tell whether this path is a real directory (not a symbolic link).
    ProbeDir(String),
    /// Resolve this directory's path.
    Canonicalize(String),
    /// Measure this target directory.
    Analyze(String),
    /// The projects found, in scan order.
    Finish(Vec<DiscoveredProject>),
}

/// What the last action gave.
pub enum ScanEvent {
    Manifest(Option<toml::Value>),
    Probed(bool),
    Canonical(Result<String, String>),
    Analyzed(Result<TargetTally, String>),
}

/// One scan of the candidate manifests under a root.
pub struct ScanRun {
    pub root: String,
    pub scope: Scope,
    /// The candidate manifests, in path order.
    pub candidates: Vec<String>,
    /// The candidate being handled.
    pub index: usize,
    pub phase: ScanPhase,
    /// The candidate's directory.
    pub project_dir: String,
    /// The candidate's manifest.
    pub manifest: Option<toml::Value>,
    /// The directories from the candidate's up to the root, nearest first.
    pub ancestors: Vec<String>,
    /// The position in `ancestors` being looked at.
    pub pos: usize,
    /// What was learned of the ancestors looked at for a shared target.
    pub probes: Vec<AncestorProbe>,
    pub artifact_root: String,
    pub target_dir: String,
    pub kind: ProjectKind,
    pub name: String,
    pub canonical: String,
    /// The resolved target directories already taken.
    pub claims: TargetClaims,
    /// The projects found so far.
    pub projects: Vec<DiscoveredProject>,
    /// The resolved target directory of each project found.
    pub canon: Ghost<Seq<Seq<char>>>,
    /// How many target directories could not be analysed.
    pub analyze_failures: u32,
    /// Warnings to print, oldest first.
    pub warnings: Vec<String>,
}

/// The first candidate from position `i` on that has a parent directory.
pub open spec fn first_with_parent(c: Seq<Seq<char>>, i: int) -> Option<int>
    decreases c.len() - i,
{
    if i < 0 || i >= c.len() {
        None
    } else if path_parent(c[i]) is Some {
        Some(i)
    } else {
        first_with_parent(c, i + 1)
    }
}

pub open spec fn declares_workspace(m: Option<toml::Value>) -> bool {
    m matches Some(v) && view_get(toml_view(v), "workspace"@) is Some
}

impl ScanRun {
    /// The projects found so far each took a different resolved target
    /// directory, each has a breakdown that adds up to its size and a
    /// `target/` directly under its path.
    pub open spec fn found_ok(&self) -> bool {
        &&& self.canon@.len() == self.projects@.len()
        &&& forall|i: int, j: int| 0 <= i < j < self.canon@.len() ==> self.canon@[i] != self.canon@[j]
        &&& forall|i: int| 0 <= i < self.canon@.len() ==> self.claims@.contains(#[trigger] self.canon@[i])
        &&& forall|i: int| 0 <= i < self.projects@.len() ==> sizes_agree(#[trigger] self.projects@[i])
        &&& forall|i: int| 0 <= i < self.projects@.len() ==> (#[trigger] self.projects@[i]).artifact_dir@ == path_join(
            self.projects@[i].path@,
            "target"@,
        )
    }

    /// The scan's bookkeeping is consistent.
    pub open spec fn wf(&self) -> bool {
        &&& self.found_ok()
        &&& self.index <= self.candidates@.len()
        &&& self.phase != ScanPhase::Done ==> self.index < self.candidates@.len()
        &&& self.phase != ScanPhase::Done && self.phase != ScanPhase::ReadManifest ==> self.manifest is Some
        &&& (self.phase == ScanPhase::ReadAncestorManifest || self.phase == ScanPhase::ProbeAncestorTarget
            || self.phase == ScanPhase::ReadWorkspaceManifest) ==> self.pos < self.ancestors@.len()
        &&& self.phase == ScanPhase::Analyze ==> forall|i: int| 0 <= i < self.canon@.len() ==> self.canon@[i]
            != self.canonical@
        &&& self.phase == ScanPhase::Analyze ==> self.claims@.contains(self.canonical@)
        &&& (self.phase == ScanPhase::ReadAncestorManifest || self.phase == ScanPhase::ProbeAncestorTarget)
            ==> first_workspace_target(self.probes@, 0) is None
    }

    /// Everything but the warnings is unchanged.
    pub open spec fn same_except_warnings(&self, o: ScanRun) -> bool {
        &&& self.root == o.root && self.scope == o.scope && self.candidates == o.candidates && self.index == o.index
        &&& self.phase == o.phase && self.project_dir == o.project_dir && self.manifest == o.manifest
        &&& self.ancestors == o.ancestors && self.pos == o.pos && self.probes == o.probes
        &&& self.artifact_root == o.artifact_root && self.target_dir == o.target_dir && self.kind == o.kind
        &&& self.name == o.name && self.canonical == o.canonical && self.claims == o.claims
        &&& self.projects == o.projects && self.canon == o.canon && self.analyze_failures == o.analyze_failures
    }

    /// What stays the same while one candidate is looked at.
    pub open spec fn same_scan(&self, o: ScanRun) -> bool {
        &&& self.candidates@ == o.candidates@
        &&& self.root@ == o.root@
        &&& self.scope == o.scope
        &&& self.index == o.index
        &&& self.project_dir@ == o.project_dir@
        &&& self.claims@ == o.claims@
        &&& self.projects@ == o.projects@
        &&& self.canon@ == o.canon@
        &&& self.analyze_failures == o.analyze_failures
        &&& self.warnings@ == o.warnings@
    }

    /// `r` is what moving on from the candidate of `o` gives, `found` being
    /// the projects then found and `extra` the warnings added meanwhile.
    pub open spec fn left_candidate(&self, r: ScanAction, o: ScanRun, found: Seq<DiscoveredProject>, extra: Seq<Seq<char>>, failures: u32) -> bool {
        &&& self.moved_on(r, o.index + 1, found)
        &&& self.candidates@ == o.candidates@
        &&& self.root@ == o.root@
        &&& self.scope == o.scope
        &&& self.analyze_failures == failures
        &&& !(r is Finish) ==> self.projects@ == found && views(self.warnings@) == views(o.warnings@) + extra
        &&& r is Finish ==> views(self.warnings@) == views(o.warnings@) + extra + (if failures > 0 {
            seq!["Warning: skipped "@ + decimal(failures as nat) + " project(s) due to target analysis errors."@]
        } else {
            Seq::empty()
        })
    }

    /// `r` is the next step of the search for a workspace target above the
    /// project: read the next ancestor's manifest; with none left, look at
    /// the own target once more when the project's manifest declares a
    /// workspace; else the project has no target and the scan moves on.
    pub open spec fn searched_targets(&self, r: ScanAction, o: ScanRun) -> bool {
        if o.pos < o.ancestors@.len() {
            &&& self.phase == ScanPhase::ReadAncestorManifest
            &&& self.same_scan(o) && self.pos == o.pos && self.ancestors@ == o.ancestors@
            &&& self.probes@ == o.probes@ && self.manifest == o.manifest
            &&& r matches ScanAction::ReadManifest(p) && p@ == path_join(o.ancestors@[o.pos as int]@, "Cargo.toml"@)
        } else if declares_workspace(o.manifest) {
            &&& self.phase == ScanPhase::ReprobeOwnTarget
            &&& self.same_scan(o) && self.manifest == o.manifest
            &&& r matches ScanAction::ProbeDir(p) && p@ == path_join(o.project_dir@, "target"@)
        } else {
            self.left_candidate(r, o, o.projects@, Seq::empty(), o.analyze_failures)
        }
    }

    /// `r` is the next step of the search for the nearest workspace manifest
    /// (from the project's own directory up): read the next manifest; with
    /// none left, judge the project without one.
    pub open spec fn searched_workspace(&self, r: ScanAction, o: ScanRun) -> bool {
        if o.pos < o.ancestors@.len() {
            &&& self.phase == ScanPhase::ReadWorkspaceManifest
            &&& self.same_scan(o) && self.pos == o.pos && self.ancestors@ == o.ancestors@
            &&& self.manifest == o.manifest && self.artifact_root@ == o.artifact_root@ && self.target_dir@ == o.target_dir@
            &&& r matches ScanAction::ReadManifest(p) && p@ == path_join(o.ancestors@[o.pos as int]@, "Cargo.toml"@)
        } else {
            self.decided(r, o, None)
        }
    }

    /// `r` is what judging the project with workspace manifest `ws` gives:
    /// its kind; out of scope, the scan moves on; else its target directory
    /// is resolved.
    pub open spec fn decided(&self, r: ScanAction, o: ScanRun, ws: Option<TomlView>) -> bool {
        let kind = project_kind_of(toml_view(o.manifest->Some_0), ws);
        if scope_includes(o.scope, kind) {
            &&& self.phase == ScanPhase::Canonicalize
            &&& self.same_scan(o) && self.kind == kind
            &&& self.manifest == o.manifest && self.artifact_root@ == o.artifact_root@ && self.target_dir@ == o.target_dir@
            &&& r matches ScanAction::Canonicalize(p) && p@ == o.target_dir@
        } else {
            self.left_candidate(r, o, o.projects@, Seq::empty(), o.analyze_failures)
        }
    }

    /// Whether `event` answers the action the scan asked for last.
    pub open spec fn expects(&self, event: ScanEvent) -> bool {
        match self.phase {
            ScanPhase::ReadManifest | ScanPhase::ReadAncestorManifest | ScanPhase::ReadWorkspaceManifest => event is Manifest,
            ScanPhase::ProbeOwnTarget | ScanPhase::ProbeAncestorTarget | ScanPhase::ReprobeOwnTarget => event is Probed,
            ScanPhase::Canonicalize => event is Canonical,
            ScanPhase::Analyze => event is Analyzed,
            ScanPhase::Done => false,
        }
    }

    /// `r` is what moving on to the candidate at `from` or later gives: the
    /// manifest of the first one with a parent directory is read; with none
    /// left, the scan finishes with the projects found, in scan order.
    pub open spec fn moved_on(&self, r: ScanAction, from: int, found: Seq<DiscoveredProject>) -> bool {
        match first_with_parent(views(self.candidates@), from) {
            Some(j) => {
                &&& self.index == j
                &&& self.phase == ScanPhase::ReadManifest
                &&& Some(self.project_dir@) == path_parent(self.candidates@[j]@)
                &&& r matches ScanAction::ReadManifest(p) && p@ == self.candidates@[j]@
            },
            None => {
                &&& self.phase == ScanPhase::Done
                &&& r matches ScanAction::Finish(ps) && in_scan_order(ps@) && ps@.to_multiset() == found.to_multiset()
                    && forall|i: int| 0 <= i < ps@.len() ==> sizes_agree(#[trigger] ps@[i]) && ps@[i].artifact_dir@
                    == path_join(ps@[i].path@, "target"@)
            },
        }
    }

    fn next_candidate(&mut self) -> (r: ScanAction)
        requires
            old(self).found_ok(),
            old(self).index < old(self).candidates@.len(),
        ensures
            final(self).wf(),
            final(self).left_candidate(r, *old(self), old(self).projects@, Seq::empty(), old(self).analyze_failures),
            final(self).claims@ == old(self).claims@,
    {
        let count = self.candidates.len();
        assert(self.index < count);
        self.index = self.index + 1;
        let ghost mid = *self;
        let r = self.begin();
        assert(views(self.warnings@) == views(mid.warnings@) + Seq::<Seq<char>>::empty() || r is Finish);
        proof {
            if !(r is Finish) {
                assert(views(self.warnings@) =~= views(old(self).warnings@) + Seq::<Seq<char>>::empty());
            } else {
                assert(views(old(self).warnings@) + Seq::<Seq<char>>::empty() =~= views(old(self).warnings@));
            }
        }
        r
    }

    fn search_targets(&mut self) -> (r: ScanAction)
        requires
            old(self).found_ok(),
            old(self).index < old(self).candidates@.len(),
            old(self).manifest is Some,
            first_workspace_target(old(self).probes@, 0) is None,
        ensures
            final(self).wf(),
            final(self).searched_targets(r, *old(self)),
            final(self).claims@ == old(self).claims@,
    {
        if self.pos < self.ancestors.len() {
            self.phase = ScanPhase::ReadAncestorManifest;
            let p = join(self.ancestors[self.pos].as_str(), "Cargo.toml");
            ScanAction::ReadManifest(p)
        } else {
            let own_workspace = match &self.manifest {
                Some(m) => has_section(m, "workspace"),
                None => false,
            };
            if own_workspace {
                self.phase = ScanPhase::ReprobeOwnTarget;
                ScanAction::ProbeDir(join(self.project_dir.as_str(), "target"))
            } else {
                self.next_candidate()
            }
        }
    }

    fn decide(&mut self, ws: Option<toml::Value>) -> (r: ScanAction)
        requires
            old(self).found_ok(),
            old(self).index < old(self).candidates@.len(),
            old(self).manifest is Some,
        ensures
            final(self).wf(),
            final(self).decided(r, *old(self), match ws {
                Some(v) => Some(toml_view(v)),
                None => None,
            }),
            final(self).claims@ == old(self).claims@,
    {
        let kind = match &self.manifest {
            Some(m) => detect_project_kind(m, ws.as_ref()),
            None => ProjectKind::RustProject,
        };
        if scope_admits(self.scope, kind) {
            self.kind = kind;
            self.phase = ScanPhase::Canonicalize;
            ScanAction::Canonicalize(copy_text(&self.target_dir))
        } else {
            self.next_candidate()
        }
    }

    fn search_workspace(&mut self) -> (r: ScanAction)
        requires
            old(self).found_ok(),
            old(self).index < old(self).candidates@.len(),
            old(self).manifest is Some,
        ensures
            final(self).wf(),
            final(self).searched_workspace(r, *old(self)),
            final(self).claims@ == old(self).claims@,
    {
        if self.pos < self.ancestors.len() {
            self.phase = ScanPhase::ReadWorkspaceManifest;
            let p = join(self.ancestors[self.pos].as_str(), "Cargo.toml");
            ScanAction::ReadManifest(p)
        } else {
            self.decide(None)
        }
    }

    /// Takes the project's root and target directory, and starts looking for
    /// its workspace manifest from its own directory up.
    fn resolved(&mut self, chosen: (String, String)) -> (r: ScanAction)
        requires
            old(self).found_ok(),
            old(self).index < old(self).candidates@.len(),
            old(self).manifest is Some,
        ensures
            final(self).wf(),
            exists|mid: ScanRun| {
                &&& mid.same_scan(*old(self)) && mid.manifest == old(self).manifest && mid.probes@ == old(self).probes@
                &&& mid.artifact_root@ == chosen.0@ && mid.target_dir@ == chosen.1@ && mid.pos == 0
                &&& ancestors_within(views(mid.ancestors@), old(self).project_dir@, old(self).root@)
                &&& final(self).searched_workspace(r, mid)
            },
            final(self).claims@ == old(self).claims@,
    {
        let (root_dir, target) = chosen;
        self.artifact_root = root_dir;
        self.target_dir = target;
        self.ancestors = bounded_ancestors(self.project_dir.as_str(), self.root.as_str());
        self.pos = 0;
        let ghost mid = *self;
        let r = self.search_workspace();
        assert(mid.same_scan(*old(self)));
        r
    }

    /// Takes what the last action found and says what to do next. A
    /// project's target directory is its own when that is a real directory,
    /// else that of the nearest workspace above it (within the scan root)
    /// whose target is real; projects out of scope, whose target cannot be
    /// resolved, is already taken, or cannot be analysed are left out with a
    /// warning. Every project found took a different resolved target, and
    /// its breakdown adds up to its size.
    pub fn step(&mut self, event: ScanEvent) -> (r: ScanAction)
        requires
            old(self).wf(),
            old(self).expects(event),
            event matches ScanEvent::Analyzed(Ok(t)) ==> t.consistent(),
            event matches ScanEvent::Analyzed(Err(_)) ==> old(self).analyze_failures < u32::MAX,
        ensures
            final(self).wf(),
            match (old(self).phase, event) {
                (ScanPhase::ReadManifest, ScanEvent::Manifest(None)) => final(self).left_candidate(
                    r,
                    *old(self),
                    old(self).projects@,
                    seq!["Warning: ignoring unreadable or invalid manifest "@ + old(self).candidates@[old(self).index as int]@],
                    old(self).analyze_failures,
                ),
                (ScanPhase::ReadManifest, ScanEvent::Manifest(Some(m))) => if view_get(toml_view(m), "package"@) is None
                    && view_get(toml_view(m), "workspace"@) is Some {
                    final(self).left_candidate(r, *old(self), old(self).projects@, Seq::empty(), old(self).analyze_failures)
                } else {
                    &&& final(self).phase == ScanPhase::ProbeOwnTarget
                    &&& final(self).same_scan(*old(self)) && final(self).manifest == Some(m)
                    &&& r matches ScanAction::ProbeDir(p) && p@ == path_join(old(self).project_dir@, "target"@)
                },
                (ScanPhase::ProbeOwnTarget, ScanEvent::Probed(true))
                | (ScanPhase::ReprobeOwnTarget, ScanEvent::Probed(true)) => exists|mid: ScanRun| {
                    &&& mid.same_scan(*old(self)) && mid.manifest == old(self).manifest && mid.pos == 0
                    &&& Some((mid.artifact_root@, mid.target_dir@)) == target_choice(
                        old(self).project_dir@,
                        Some(path_join(old(self).project_dir@, "target"@)),
                        Seq::empty(),
                    )
                    &&& ancestors_within(views(mid.ancestors@), old(self).project_dir@, old(self).root@)
                    &&& final(self).searched_workspace(r, mid)
                },
                (ScanPhase::ProbeOwnTarget, ScanEvent::Probed(false)) => exists|mid: ScanRun| {
                    &&& mid.same_scan(*old(self)) && mid.manifest == old(self).manifest && mid.pos == 1
                    &&& mid.probes@.len() == 0
                    &&& ancestors_within(views(mid.ancestors@), old(self).project_dir@, old(self).root@)
                    &&& final(self).searched_targets(r, mid)
                },
                (ScanPhase::ReprobeOwnTarget, ScanEvent::Probed(false)) => final(self).left_candidate(
                    r,
                    *old(self),
                    old(self).projects@,
                    Seq::empty(),
                    old(self).analyze_failures,
                ),
                (ScanPhase::ReadAncestorManifest, ScanEvent::Manifest(m)) => if declares_workspace(m) {
                    &&& final(self).phase == ScanPhase::ProbeAncestorTarget
                    &&& final(self).same_scan(*old(self)) && final(self).manifest == old(self).manifest
                    &&& final(self).pos == old(self).pos && final(self).ancestors@ == old(self).ancestors@
                    &&& final(self).probes@ == old(self).probes@
                    &&& r matches ScanAction::ProbeDir(p) && p@ == path_join(
                        old(self).ancestors@[old(self).pos as int]@,
                        "target"@,
                    )
                } else {
                    exists|mid: ScanRun| {
                        &&& mid.same_scan(*old(self)) && mid.manifest == old(self).manifest
                        &&& mid.pos == old(self).pos + 1 && mid.ancestors@ == old(self).ancestors@
                        &&& mid.probes@.drop_last() == old(self).probes@ && mid.probes@.len() == old(self).probes@.len() + 1
                        &&& mid.probes@.last().dir@ == old(self).ancestors@[old(self).pos as int]@
                        &&& !mid.probes@.last().is_workspace && mid.probes@.last().real_target is None
                        &&& final(self).searched_targets(r, mid)
                    }
                },
                (ScanPhase::ProbeAncestorTarget, ScanEvent::Probed(is_real)) => exists|mid: ScanRun| {
                    &&& mid.same_scan(*old(self)) && mid.manifest == old(self).manifest
                    &&& mid.probes@.drop_last() == old(self).probes@ && mid.probes@.len() == old(self).probes@.len() + 1
                    &&& mid.probes@.last().dir@ == old(self).ancestors@[old(self).pos as int]@
                    &&& mid.probes@.last().is_workspace
                    &&& (is_real <==> mid.probes@.last().real_target is Some)
                    &&& (is_real ==> mid.probes@.last().real_target->Some_0@ == path_join(
                        old(self).ancestors@[old(self).pos as int]@,
                        "target"@,
                    ))
                    &&& if is_real {
                        &&& Some((mid.artifact_root@, mid.target_dir@)) == target_choice(
                            old(self).project_dir@,
                            None,
                            mid.probes@,
                        )
                        &&& mid.pos == 0
                        &&& ancestors_within(views(mid.ancestors@), old(self).project_dir@, old(self).root@)
                        &&& final(self).searched_workspace(r, mid)
                    } else {
                        &&& mid.pos == old(self).pos + 1 && mid.ancestors@ == old(self).ancestors@
                        &&& final(self).searched_targets(r, mid)
                    }
                },
                (ScanPhase::ReadWorkspaceManifest, ScanEvent::Manifest(m)) => if declares_workspace(m) {
                    final(self).decided(r, *old(self), Some(toml_view(m->Some_0)))
                } else {
                    exists|mid: ScanRun| {
                        &&& mid.same_scan(*old(self)) && mid.manifest == old(self).manifest
                        &&& mid.pos == old(self).pos + 1 && mid.ancestors@ == old(self).ancestors@
                        &&& mid.artifact_root@ == old(self).artifact_root@ && mid.target_dir@ == old(self).target_dir@
                        &&& final(self).searched_workspace(r, mid)
                    }
                },
                (ScanPhase::Canonicalize, ScanEvent::Canonical(Err(e))) => final(self).left_candidate(
                    r,
                    *old(self),
                    old(self).projects@,
                    seq!["Warning: cannot resolve target directory "@ + old(self).target_dir@ + ": "@ + e@],
                    old(self).analyze_failures,
                ),
                (ScanPhase::Canonicalize, ScanEvent::Canonical(Ok(c))) => if old(self).claims@.contains(c@) {
                    final(self).left_candidate(
                        r,
                        *old(self),
                        old(self).projects@,
                        seq![
                            "Warning: duplicate target directory "@ + c@ + " for "@ + old(
                                self,
                            ).candidates@[old(self).index as int]@ + "; keeping lexicographically-first claimant"@,
                        ],
                        old(self).analyze_failures,
                    )
                } else {
                    &&& final(self).phase == ScanPhase::Analyze
                    &&& final(self).claims@ == old(self).claims@.insert(c@)
                    &&& final(self).canonical@ == c@
                    &&& final(self).name@ == project_name_of(toml_view(old(self).manifest->Some_0), old(self).project_dir@)
                    &&& final(self).artifact_root@ == old(self).artifact_root@ && final(self).kind == old(self).kind
                    &&& r matches ScanAction::Analyze(p) && p@ == old(self).target_dir@
                },
                (ScanPhase::Analyze, ScanEvent::Analyzed(Err(e))) => final(self).left_candidate(
                    r,
                    *old(self),
                    old(self).projects@,
                    seq![
                        "Warning: cannot analyze target directory "@ + old(self).target_dir@ + ": "@ + e@
                            + "; skipping project "@ + old(self).name@,
                    ],
                    (old(self).analyze_failures + 1) as u32,
                ),
                (ScanPhase::Analyze, ScanEvent::Analyzed(Ok(t))) => exists|p: DiscoveredProject| {
                    &&& p.name@ == old(self).name@ && p.path@ == old(self).artifact_root@ && p.kind == old(self).kind
                    &&& p.artifact_dir@ == path_join(old(self).artifact_root@, "target"@)
                    &&& p.artifact_size == t.total_size && p.last_modified == t.last_modified
                    &&& p.breakdown == Some(t.breakdown)
                    &&& final(self).left_candidate(
                        r,
                        *old(self),
                        old(self).projects@.push(p),
                        Seq::empty(),
                        old(self).analyze_failures,
                    )
                },
                _ => false,
            },
    {
        let ghost o = *self;
        match event {
            ScanEvent::Manifest(found) => {
                if self.phase == ScanPhase::ReadManifest {
                    match found {
                        None => {
                            let mut m = String::new();
                            push_str(&mut m, "Warning: ignoring unreadable or invalid manifest ");
                            push_str(&mut m, self.candidates[self.index].as_str());
                            self.warn_and_move_on(m)
                        },
                        Some(manifest) => {
                            if is_virtual_manifest(&manifest) {
                                self.next_candidate()
                            } else {
                                self.manifest = Some(manifest);
                                self.phase = ScanPhase::ProbeOwnTarget;
                                ScanAction::ProbeDir(join(self.project_dir.as_str(), "target"))
                            }
                        },
                    }
                } else if self.phase == ScanPhase::ReadAncestorManifest {
                    let is_workspace = match &found {
                        Some(m) => has_section(m, "workspace"),
                        None => false,
                    };
                    if is_workspace {
                        self.phase = ScanPhase::ProbeAncestorTarget;
                        ScanAction::ProbeDir(join(self.ancestors[self.pos].as_str(), "target"))
                    } else {
                        let probe = AncestorProbe {
                            dir: copy_text(&self.ancestors[self.pos]),
                            is_workspace: false,
                            real_target: None,
                        };
                        proof {
                            lemma_probe_pushed(self.probes@, probe, 0);
                        }
                        self.probes.push(probe);
                        let count = self.ancestors.len();
                        assert(self.pos < count);
                        self.pos = self.pos + 1;
                        let ghost mid = *self;
                        assert(mid.probes@.drop_last() =~= o.probes@);
                        let r = self.search_targets();
                        assert(mid.same_scan(o) && self.searched_targets(r, mid));
                        r
                    }
                } else {
                    let is_workspace = match &found {
                        Some(m) => has_section(m, "workspace"),
                        None => false,
                    };
                    if is_workspace {
                        self.decide(found)
                    } else {
                        let count = self.ancestors.len();
                        assert(self.pos < count);
                        self.pos = self.pos + 1;
                        let ghost mid = *self;
                        let r = self.search_workspace();
                        assert(mid.same_scan(o) && self.searched_workspace(r, mid));
                        r
                    }
                }
            },
            ScanEvent::Probed(is_real) => {
                if self.phase == ScanPhase::ProbeAncestorTarget {
                    let dir = copy_text(&self.ancestors[self.pos]);
                    let target = if is_real {
                        Some(join(self.ancestors[self.pos].as_str(), "target"))
                    } else {
                        None
                    };
                    let probe = AncestorProbe { dir, is_workspace: true, real_target: target };
                    proof {
                        lemma_probe_pushed(self.probes@, probe, 0);
                    }
                    self.probes.push(probe);
                    assert(self.probes@.drop_last() =~= o.probes@);
                    assert(self.probes@.last() == probe);
                    if is_real {
                        let ghost pushed = self.probes@;
                        assert(first_workspace_target(pushed, 0) == Some((probe.dir@, probe.real_target->Some_0@)));
                        match choose_target_dir(self.project_dir.as_str(), None, &self.probes) {
                            Some(chosen) => {
                                let ghost c0 = chosen.0@;
                                let ghost c1 = chosen.1@;
                                assert(Some((c0, c1)) == target_choice(o.project_dir@, None, pushed));
                                let ghost pre = *self;
                                assert(pre.probes@ == pushed);
                                let r = self.resolved(chosen);
                                proof {
                                    let mid = choose|mid: ScanRun| {
                                        &&& mid.same_scan(pre) && mid.manifest == pre.manifest && mid.probes@ == pre.probes@
                                        &&& mid.artifact_root@ == c0 && mid.target_dir@ == c1 && mid.pos == 0
                                        &&& ancestors_within(views(mid.ancestors@), pre.project_dir@, pre.root@)
                                        &&& self.searched_workspace(r, mid)
                                    };
                                    assert(mid.same_scan(o));
                                    assert(mid.probes@.last() == probe);
                                    assert(mid.probes@.drop_last() == o.probes@);
                                }
                                r
                            },
                            None => {
                                assert(false);
                                self.next_candidate()
                            },
                        }
                    } else {
                        let count = self.ancestors.len();
                        assert(self.pos < count);
                        self.pos = self.pos + 1;
                        let ghost mid = *self;
                        let r = self.search_targets();
                        assert(mid.same_scan(o) && self.searched_targets(r, mid));
                        r
                    }
                } else if is_real {
                    let own = join(self.project_dir.as_str(), "target");
                    let empty: Vec<AncestorProbe> = Vec::new();
                    assert(empty@ =~= Seq::<AncestorProbe>::empty());
                    match choose_target_dir(self.project_dir.as_str(), Some(own), &empty) {
                        Some(chosen) => self.resolved(chosen),
                        None => {
                            assert(false);
                            self.next_candidate()
                        },
                    }
                } else if self.phase == ScanPhase::ProbeOwnTarget {
                    self.ancestors = bounded_ancestors(self.project_dir.as_str(), self.root.as_str());
                    self.pos = 1;
                    self.probes = Vec::new();
                    let ghost mid = *self;
                    let r = self.search_targets();
                    assert(mid.same_scan(o) && self.searched_targets(r, mid));
                    r
                } else {
                    self.next_candidate()
                }
            },
            ScanEvent::Canonical(resolved) => match resolved {
                Err(e) => {
                    let mut m = String::new();
                    push_str(&mut m, "Warning: cannot resolve target directory ");
                    push_str(&mut m, self.target_dir.as_str());
                    push_str(&mut m, ": ");
                    push_str(&mut m, e.as_str());
                    self.warn_and_move_on(m)
                },
                Ok(c) => {
                    if self.claims.claim(c.as_str()) {
                        let name = match &self.manifest {
                            Some(m) => extract_project_name(m, self.project_dir.as_str()),
                            None => String::new(),
                        };
                        self.name = name;
                        self.canonical = c;
                        self.phase = ScanPhase::Analyze;
                        ScanAction::Analyze(copy_text(&self.target_dir))
                    } else {
                        let mut m = String::new();
                        push_str(&mut m, "Warning: duplicate target directory ");
                        push_str(&mut m, c.as_str());
                        push_str(&mut m, " for ");
                        push_str(&mut m, self.candidates[self.index].as_str());
                        push_str(&mut m, "; keeping lexicographically-first claimant");
                        self.warn_and_move_on(m)
                    }
                },
            },
            ScanEvent::Analyzed(analysed) => match analysed {
                Err(e) => {
                    let mut m = String::new();
                    push_str(&mut m, "Warning: cannot analyze target directory ");
                    push_str(&mut m, self.target_dir.as_str());
                    push_str(&mut m, ": ");
                    push_str(&mut m, e.as_str());
                    push_str(&mut m, "; skipping project ");
                    push_str(&mut m, self.name.as_str());
                    self.analyze_failures = self.analyze_failures + 1;
                    self.warn_and_move_on(m)
                },
                Ok(tally) => {
                    let name = copy_text(&self.name);
                    let root_dir = copy_text(&self.artifact_root);
                    let project = DiscoveredProject::from_scan(name, root_dir, self.kind, tally);
                    self.projects.push(project);
                    self.canon = Ghost(self.canon@.push(self.canonical@));
                    self.next_candidate()
                },
            },
        }
    }

    fn warn_and_move_on(&mut self, m: String) -> (r: ScanAction)
        requires
            old(self).found_ok(),
            old(self).index < old(self).candidates@.len(),
        ensures
            final(self).wf(),
            final(self).left_candidate(r, *old(self), old(self).projects@, seq![m@], old(self).analyze_failures),
            final(self).claims@ == old(self).claims@,
    {
        let ghost before = self.warnings@;
        self.warnings.push(m);
        assert(views(self.warnings@) =~= views(before) + seq![m@]);
        let ghost mid = *self;
        let r = self.next_candidate();
        proof {
            let extra = if mid.analyze_failures > 0 {
                seq!["Warning: skipped "@ + decimal(mid.analyze_failures as nat) + " project(s) due to target analysis errors."@]
            } else {
                Seq::empty()
            };
            if r is Finish {
                assert(views(mid.warnings@) + Seq::<Seq<char>>::empty() + extra =~= views(before) + seq![m@] + extra);
            } else {
                assert(views(mid.warnings@) + Seq::<Seq<char>>::empty() =~= views(before) + seq![m@]);
            }
        }
        r
    }

    /// Starts a scan of the candidate manifests under `root`, in path order.
    pub fn start(root: String, scope: Scope, candidates: Vec<String>) -> (r: (ScanRun, ScanAction))
        ensures
            r.0.wf(),
            r.0.root@ == root@,
            r.0.scope == scope,
            r.0.projects@.len() == 0,
            r.0.warnings@.len() == 0,
            r.0.candidates@.to_multiset() == candidates@.to_multiset(),
            crate::scanner::in_path_order(views(r.0.candidates@)),
            r.0.moved_on(r.1, 0, Seq::empty()),
    {
        let sorted = sort_candidates(candidates);
        let mut run = ScanRun {
            root,
            scope,
            candidates: sorted,
            index: 0,
            phase: ScanPhase::ReadManifest,
            project_dir: String::new(),
            manifest: None,
            ancestors: Vec::new(),
            pos: 0,
            probes: Vec::new(),
            artifact_root: String::new(),
            target_dir: String::new(),
            kind: ProjectKind::RustProject,
            name: String::new(),
            canonical: String::new(),
            claims: TargetClaims::new(),
            projects: Vec::new(),
            canon: Ghost(Seq::empty()),
            analyze_failures: 0,
            warnings: Vec::new(),
        };
        let action = run.begin();
        (run, action)
    }

    /// Moves on to the candidate at `index` or the first after it with a
    /// parent directory, or finishes.
    fn begin(&mut self) -> (r: ScanAction)
        requires
            old(self).found_ok(),
            old(self).index <= old(self).candidates@.len(),
        ensures
            final(self).wf(),
            final(self).moved_on(r, old(self).index as int, old(self).projects@),
            final(self).candidates@ == old(self).candidates@,
            final(self).root@ == old(self).root@,
            final(self).scope == old(self).scope,
            !(r is Finish) ==> final(self).projects@ == old(self).projects@ && final(self).canon@ == old(self).canon@,
            r is Finish ==> final(self).projects@.len() == 0 && final(self).canon@.len() == 0,
            final(self).claims@ == old(self).claims@,
            final(self).analyze_failures == old(self).analyze_failures,
            r is Finish ==> views(final(self).warnings@) == views(old(self).warnings@) + (
            if old(self).analyze_failures > 0 {
                seq![
                    "Warning: skipped "@ + decimal(old(self).analyze_failures as nat)
                        + " project(s) due to target analysis errors."@,
                ]
            } else {
                Seq::empty()
            }),
            !(r is Finish) ==> final(self).warnings@ == old(self).warnings@,
    {
        let ghost start = self.index as int;
        while self.index < self.candidates.len()
            invariant
                self.found_ok(),
                start == old(self).index,
                start <= self.index <= self.candidates@.len(),
                first_with_parent(views(self.candidates@), start) == first_with_parent(
                    views(self.candidates@),
                    self.index as int,
                ),
                self.candidates@ == old(self).candidates@,
                self.root@ == old(self).root@,
                self.scope == old(self).scope,
                self.projects@ == old(self).projects@,
                self.claims@ == old(self).claims@,
                self.canon@ == old(self).canon@,
                self.analyze_failures == old(self).analyze_failures,
                self.warnings@ == old(self).warnings@,
            decreases self.candidates@.len() - self.index,
        {
            let i = self.index;
            match parent(self.candidates[i].as_str()) {
                Some(dir) => {
                    assert(views(self.candidates@)[i as int] == self.candidates@[i as int]@);
                    assert(first_with_parent(views(self.candidates@), i as int) == Some(i as int));
                    self.project_dir = dir;
                    self.phase = ScanPhase::ReadManifest;
                    self.manifest = None;
                    return ScanAction::ReadManifest(copy_text(&self.candidates[i]));
                },
                None => {
                    assert(views(self.candidates@)[i as int] == self.candidates@[i as int]@);
                    self.index = i + 1;
                },
            }
        }
        self.phase = ScanPhase::Done;
        if self.analyze_failures > 0 {
            let mut m = String::new();
            push_str(&mut m, "Warning: skipped ");
            let count = decimal_string(self.analyze_failures as u64);
            push_str(&mut m, count.as_str());
            push_str(&mut m, " project(s) due to target analysis errors.");
            let ghost before = self.warnings@;
            self.warnings.push(m);
            assert(views(self.warnings@) =~= views(before) + seq![m@]);
        } else {
            assert(views(self.warnings@) =~= views(self.warnings@) + Seq::<Seq<char>>::empty());
        }
        let mut found: Vec<DiscoveredProject> = Vec::new();
        std::mem::swap(&mut found, &mut self.projects);
        let ghost kept = found@;
        let sorted = sort_projects(found);
        self.canon = Ghost(Seq::empty());
        assert(kept == old(self).projects@);
        proof {
            broadcast use vstd::seq_lib::group_to_multiset_ensures;
            assert forall|i: int| 0 <= i < sorted@.len() implies sizes_agree(#[trigger] sorted@[i])
                && sorted@[i].artifact_dir@ == path_join(sorted@[i].path@, "target"@) by {
                assert(sorted@.contains(sorted@[i]));
                assert(sorted@.to_multiset().count(sorted@[i]) > 0);
                assert(kept.to_multiset().count(sorted@[i]) > 0);
                assert(kept.contains(sorted@[i]));
                let j = choose|j: int| 0 <= j < kept.len() && kept[j] == sorted@[i];
                assert(sizes_agree(kept[j]));
            }
        }
        ScanAction::Finish(sorted)
    }
}

} // verus!
