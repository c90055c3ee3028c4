//! Project discovery rules: what a Cargo manifest says about a project, which
//! directories a scan descends into, and how scan results are filtered and
//! ordered.
use vstd::prelude::*;
use crate::manifest::{
    opt_get, opt_str, opt_value_view, parse_toml_document, toml_as_bool, toml_as_str, toml_document, toml_get,
    toml_table_keys, toml_view, view_get, TomlView,
};
use crate::config::Scope;
use crate::paths::{components, file_name, part_view, part_views, path_components, path_file_name, PathPart, PathPartView};
use crate::project::{DiscoveredProject, ProjectKind};
use crate::text::{lowercase, owned, push_str, str_eq, to_lowercase, trim, trimmed, views};

verus! {

/// Errors encountered while scanning configured project roots.
#[derive(Debug)]
pub enum ScanError {
    Root { path: String, message: String },
    Traversal(String),
}

impl ScanError {
    /// The user-facing description.
    pub fn message(&self) -> (r: String)
        ensures
            r@ == match self {
                ScanError::Root { path, message } => "cannot scan "@ + path@ + ": "@ + message@,
                ScanError::Traversal(message) => "scan traversal failed: "@ + message@,
            },
    {
        let mut out = String::new();
        match self {
            ScanError::Root { path, message } => {
                push_str(&mut out, "cannot scan ");
                push_str(&mut out, path.as_str());
                push_str(&mut out, ": ");
                push_str(&mut out, message.as_str());
            },
            ScanError::Traversal(message) => {
                push_str(&mut out, "scan traversal failed: ");
                push_str(&mut out, message.as_str());
            },
        }
        out
    }
}

/// `tauri` or `tauri-build`: the crates that make a project a Tauri app.
pub open spec fn is_tauri_crate(s: Seq<char>) -> bool {
    s == "tauri"@ || s == "tauri-build"@
}

/// Whether the dependency entry `name = value` refers to `tauri`/`tauri-build`.
/// A string `package` key governs; otherwise the entry's own name does.
pub open spec fn is_tauri_dep(name: Seq<char>, value: TomlView) -> bool {
    match view_get(value, "package"@) {
        Some(TomlView::Str(p)) => is_tauri_crate(p),
        _ => is_tauri_crate(name),
    }
}

/// A dependency table that lists a Tauri dependency.
pub open spec fn table_has_tauri(t: Option<TomlView>) -> bool {
    match t {
        Some(TomlView::Table(m)) => exists|k: Seq<char>| #[trigger] m.contains_key(k) && is_tauri_dep(k, m[k]),
        _ => false,
    }
}

/// A member entry `name = { workspace = true, .. }` that inherits a Tauri
/// dependency, directly or through the workspace's `[workspace.dependencies]`.
pub open spec fn inherits_tauri(name: Seq<char>, value: TomlView, ws: Map<Seq<char>, TomlView>) -> bool {
    &&& view_get(value, "workspace"@) == Some(TomlView::Bool(true))
    &&& (is_tauri_dep(name, value) || (ws.contains_key(name) && is_tauri_dep(name, ws[name])))
}

/// A member dependency table with an entry that inherits a Tauri dependency.
pub open spec fn table_inherits_tauri(t: Option<TomlView>, ws: Map<Seq<char>, TomlView>) -> bool {
    match t {
        Some(TomlView::Table(m)) => exists|k: Seq<char>| #[trigger] m.contains_key(k) && inherits_tauri(k, m[k], ws),
        _ => false,
    }
}

/// Whether `f` holds of one of the member's dependency tables: `[dependencies]`,
/// `[build-dependencies]`, and those of every `[target.*]` table.
pub open spec fn member_tables_any(m: TomlView, f: spec_fn(Option<TomlView>) -> bool) -> bool {
    ||| f(view_get(m, "dependencies"@))
    ||| f(view_get(m, "build-dependencies"@))
    ||| match view_get(m, "target"@) {
        Some(TomlView::Table(tm)) => exists|k: Seq<char>| #[trigger] tm.contains_key(k) && (f(view_get(tm[k], "dependencies"@))
            || f(view_get(tm[k], "build-dependencies"@))),
        _ => false,
    }
}

/// The `[workspace.dependencies]` table of a workspace manifest, if any.
pub open spec fn workspace_deps(ws: Option<TomlView>) -> Option<Map<Seq<char>, TomlView>> {
    match ws {
        Some(w) => match opt_get(view_get(w, "workspace"@), "dependencies"@) {
            Some(TomlView::Table(d)) => Some(d),
            _ => None,
        },
        None => None,
    }
}

/// The kind of a project with manifest `m` inside the workspace `ws`.
///
/// Only runtime and build dependency tables count (`[dev-dependencies]` do
/// not), optional dependencies count, and only the exact `tauri` /
/// `tauri-build` crates (by key or `package`) mark a Tauri app.
pub open spec fn project_kind_of(m: TomlView, ws: Option<TomlView>) -> ProjectKind {
    let inherited = match workspace_deps(ws) {
        Some(d) => member_tables_any(m, |t: Option<TomlView>| table_inherits_tauri(t, d)),
        None => false,
    };
    let direct = member_tables_any(m, |t: Option<TomlView>| table_has_tauri(t))
        || table_has_tauri(opt_get(view_get(m, "workspace"@), "dependencies"@));
    if inherited || direct {
        ProjectKind::TauriApp
    } else {
        ProjectKind::RustProject
    }
}

/// Whether `s` names `tauri` or `tauri-build`.
fn is_tauri_crate_name(s: &str) -> (r: bool)
    ensures
        r == is_tauri_crate(s@),
{
    str_eq(s, "tauri") || str_eq(s, "tauri-build")
}

/// Whether a `(name, dependency-value)` entry refers to `tauri`/`tauri-build`.
///
/// If `package` is present it governs: a key named `tauri` with
/// `package = "something-else"` is NOT a Tauri dependency.
pub fn is_tauri_dep_entry(name: &str, value: &toml::Value) -> (r: bool)
    ensures
        r == is_tauri_dep(name@, toml_view(*value)),
{
    if let Some(package) = toml_get(value, "package") {
        if let Some(p) = toml_as_str(package) {
            return is_tauri_crate_name(p.as_str());
        }
    }
    is_tauri_crate_name(name)
}

/// Whether the optional dependency table lists a Tauri dependency.
fn dep_table_has_tauri(t: Option<&toml::Value>) -> (r: bool)
    ensures
        r == table_has_tauri(opt_value_view(t)),
{
    let table = match t {
        Some(table) => table,
        None => return false,
    };
    let keys = match toml_table_keys(table) {
        Some(keys) => keys,
        None => return false,
    };
    let ghost m = toml_view(*table)->Table_0;
    let mut i: usize = 0;
    while i < keys.len()
        invariant
            toml_view(*table) == TomlView::Table(m),
            opt_value_view(t) == Some(TomlView::Table(m)),
            i <= keys@.len(),
            forall|j: int| 0 <= j < keys@.len() ==> m.contains_key(#[trigger] keys@[j]@),
            forall|k: Seq<char>| #[trigger] m.contains_key(k) ==> exists|j: int| 0 <= j < keys@.len() && keys@[j]@ == k,
            forall|j: int| 0 <= j < i ==> !is_tauri_dep(#[trigger] keys@[j]@, m[keys@[j]@]),
        decreases keys@.len() - i,
    {
        let key = keys[i].as_str();
        let got = toml_get(table, key);
        let value = got.unwrap();
        assert(toml_view(*value) == m[keys@[i as int]@]);
        if is_tauri_dep_entry(key, value) {
            assert(m.contains_key(keys@[i as int]@) && is_tauri_dep(keys@[i as int]@, m[keys@[i as int]@]));
            return true;
        }
        i = i + 1;
    }
    assert forall|k: Seq<char>| #[trigger] m.contains_key(k) implies !is_tauri_dep(k, m[k]) by {
        let j = choose|j: int| 0 <= j < keys@.len() && keys@[j]@ == k;
        assert(!is_tauri_dep(keys@[j]@, m[keys@[j]@]));
    }
    false
}

/// Whether the member entry inherits a Tauri dependency.
fn entry_inherits_tauri(name: &str, value: &toml::Value, ws_deps: &toml::Value) -> (r: bool)
    requires
        toml_view(*ws_deps) is Table,
    ensures
        r == inherits_tauri(name@, toml_view(*value), toml_view(*ws_deps)->Table_0),
{
    let inherits = match toml_get(value, "workspace") {
        Some(flag) => match toml_as_bool(flag) {
            Some(b) => b,
            None => false,
        },
        None => false,
    };
    if !inherits {
        return false;
    }
    if is_tauri_dep_entry(name, value) {
        return true;
    }
    match toml_get(ws_deps, name) {
        Some(ws_value) => is_tauri_dep_entry(name, ws_value),
        None => false,
    }
}

/// Whether the optional member dependency table has an entry that inherits Tauri.
fn dep_table_inherits_tauri(t: Option<&toml::Value>, ws_deps: &toml::Value) -> (r: bool)
    requires
        toml_view(*ws_deps) is Table,
    ensures
        r == table_inherits_tauri(opt_value_view(t), toml_view(*ws_deps)->Table_0),
{
    let table = match t {
        Some(table) => table,
        None => return false,
    };
    let keys = match toml_table_keys(table) {
        Some(keys) => keys,
        None => return false,
    };
    let ghost m = toml_view(*table)->Table_0;
    let ghost ws = toml_view(*ws_deps)->Table_0;
    let mut i: usize = 0;
    while i < keys.len()
        invariant
            toml_view(*table) == TomlView::Table(m),
            opt_value_view(t) == Some(TomlView::Table(m)),
            toml_view(*ws_deps) == TomlView::Table(ws),
            i <= keys@.len(),
            forall|j: int| 0 <= j < keys@.len() ==> m.contains_key(#[trigger] keys@[j]@),
            forall|k: Seq<char>| #[trigger] m.contains_key(k) ==> exists|j: int| 0 <= j < keys@.len() && keys@[j]@ == k,
            forall|j: int| 0 <= j < i ==> !inherits_tauri(#[trigger] keys@[j]@, m[keys@[j]@], ws),
        decreases keys@.len() - i,
    {
        let key = keys[i].as_str();
        let got = toml_get(table, key);
        let value = got.unwrap();
        assert(toml_view(*value) == m[keys@[i as int]@]);
        if entry_inherits_tauri(key, value, ws_deps) {
            assert(m.contains_key(keys@[i as int]@) && inherits_tauri(keys@[i as int]@, m[keys@[i as int]@], ws));
            return true;
        }
        i = i + 1;
    }
    assert forall|k: Seq<char>| #[trigger] m.contains_key(k) implies !inherits_tauri(k, m[k], ws) by {
        let j = choose|j: int| 0 <= j < keys@.len() && keys@[j]@ == k;
        assert(!inherits_tauri(keys@[j]@, m[keys@[j]@], ws));
    }
    false
}

/// Which check a dependency-table scan applies.
enum TableCheck<'a> {
    Direct,
    Inherited(&'a toml::Value),
}

spec fn check_ready(check: TableCheck) -> bool {
    match check {
        TableCheck::Direct => true,
        TableCheck::Inherited(ws) => toml_view(*ws) is Table,
    }
}

spec fn check_holds(check: TableCheck, t: Option<TomlView>) -> bool {
    match check {
        TableCheck::Direct => table_has_tauri(t),
        TableCheck::Inherited(ws) => table_inherits_tauri(t, toml_view(*ws)->Table_0),
    }
}

fn run_check(check: &TableCheck, t: Option<&toml::Value>) -> (r: bool)
    requires
        check_ready(*check),
    ensures
        r == check_holds(*check, opt_value_view(t)),
{
    match check {
        TableCheck::Direct => dep_table_has_tauri(t),
        TableCheck::Inherited(ws) => dep_table_inherits_tauri(t, ws),
    }
}

/// Whether the condition holds of one of the member's dependency tables.
fn member_tables_check(m: &toml::Value, check: &TableCheck) -> (r: bool)
    requires
        check_ready(*check),
    ensures
        r == member_tables_any(toml_view(*m), |t: Option<TomlView>| check_holds(*check, t)),
{
    let ghost f = |t: Option<TomlView>| check_holds(*check, t);
    if run_check(check, toml_get(m, "dependencies")) {
        return true;
    }
    if run_check(check, toml_get(m, "build-dependencies")) {
        return true;
    }
    let targets = match toml_get(m, "target") {
        Some(targets) => targets,
        None => return false,
    };
    let keys = match toml_table_keys(targets) {
        Some(keys) => keys,
        None => return false,
    };
    let ghost tm = toml_view(*targets)->Table_0;
    let mut i: usize = 0;
    while i < keys.len()
        invariant
            toml_view(*targets) == TomlView::Table(tm),
            view_get(toml_view(*m), "target"@) == Some(TomlView::Table(tm)),
            !check_holds(*check, view_get(toml_view(*m), "dependencies"@)),
            !check_holds(*check, view_get(toml_view(*m), "build-dependencies"@)),
            check_ready(*check),
            i <= keys@.len(),
            forall|j: int| 0 <= j < keys@.len() ==> tm.contains_key(#[trigger] keys@[j]@),
            forall|k: Seq<char>| #[trigger] tm.contains_key(k) ==> exists|j: int| 0 <= j < keys@.len() && keys@[j]@ == k,
            forall|j: int| 0 <= j < i ==> !(check_holds(*check, view_get(tm[#[trigger] keys@[j]@], "dependencies"@))
                || check_holds(*check, view_get(tm[keys@[j]@], "build-dependencies"@))),
        decreases keys@.len() - i,
    {
        let key = keys[i].as_str();
        let got = toml_get(targets, key);
        let target = got.unwrap();
        assert(toml_view(*target) == tm[keys@[i as int]@]);
        if run_check(check, toml_get(target, "dependencies")) || run_check(check, toml_get(target, "build-dependencies")) {
            assert(tm.contains_key(keys@[i as int]@));
            assert(check_holds(*check, view_get(tm[keys@[i as int]@], "dependencies"@)) || check_holds(*check, view_get(tm[keys@[i as int]@], "build-dependencies"@)));
            return true;
        }
        i = i + 1;
    }
    assert forall|k: Seq<char>| #[trigger] tm.contains_key(k) implies !(f(view_get(tm[k], "dependencies"@))
        || f(view_get(tm[k], "build-dependencies"@))) by {
        let j = choose|j: int| 0 <= j < keys@.len() && keys@[j]@ == k;
        assert(!(check_holds(*check, view_get(tm[keys@[j]@], "dependencies"@))
            || check_holds(*check, view_get(tm[keys@[j]@], "build-dependencies"@))));
    }
    false
}

/// Detect whether a parsed Cargo manifest indicates a Tauri project.
///
/// Members may inherit renamed dependencies from `[workspace.dependencies]`:
/// an entry with `workspace = true` counts when it is itself a Tauri entry or
/// when the same key on the workspace side is.
pub fn detect_project_kind(manifest: &toml::Value, workspace_manifest: Option<&toml::Value>) -> (r: ProjectKind)
    ensures
        r == project_kind_of(toml_view(*manifest), opt_value_view(workspace_manifest)),
{
    let ghost mv = toml_view(*manifest);
    let ghost wv = opt_value_view(workspace_manifest);
    let mut inherited = false;
    if let Some(ws_manifest) = workspace_manifest {
        let ws_section = toml_get(ws_manifest, "workspace");
        let ws_deps = match ws_section {
            Some(section) => toml_get(section, "dependencies"),
            None => None,
        };
        if let Some(deps) = ws_deps {
            if toml_table_keys(deps).is_some() {
                let check = TableCheck::Inherited(deps);
                inherited = member_tables_check(manifest, &check);
                proof {
                    let d = toml_view(*deps)->Table_0;
                    assert(workspace_deps(wv) == Some(d));
                    let f1 = |t: Option<TomlView>| check_holds(check, t);
                    let f2 = |t: Option<TomlView>| table_inherits_tauri(t, d);
                    assert(f1 =~= f2);
                }
            } else {
                assert(workspace_deps(wv) is None);
            }
        } else {
            assert(workspace_deps(wv) is None);
        }
    }
    if inherited {
        return ProjectKind::TauriApp;
    }
    let check = TableCheck::Direct;
    let direct_member = member_tables_check(manifest, &check);
    proof {
        let f1 = |t: Option<TomlView>| check_holds(check, t);
        let f2 = |t: Option<TomlView>| table_has_tauri(t);
        assert(f1 =~= f2);
    }
    let own_ws = match toml_get(manifest, "workspace") {
        Some(section) => dep_table_has_tauri(toml_get(section, "dependencies")),
        None => false,
    };
    if direct_member || own_ws {
        ProjectKind::TauriApp
    } else {
        ProjectKind::RustProject
    }
}


/// Whether a scan in `scope` includes a project of `kind`.
pub open spec fn scope_includes(scope: Scope, kind: ProjectKind) -> bool {
    match scope {
        Scope::TauriOnly => kind == ProjectKind::TauriApp,
        Scope::RustOnly => kind == ProjectKind::RustProject,
        Scope::TauriAndRust => true,
    }
}

/// The scope filter: Tauri-only keeps Tauri apps, Rust-only keeps plain Rust
/// projects, Tauri-and-Rust keeps both.
pub fn scope_admits(scope: Scope, kind: ProjectKind) -> (r: bool)
    ensures
        r == scope_includes(scope, kind),
{
    match scope {
        Scope::TauriOnly => kind == ProjectKind::TauriApp,
        Scope::RustOnly => kind == ProjectKind::RustProject,
        Scope::TauriAndRust => true,
    }
}

/// Check if a directory entry name is hidden: it starts with `.` and is not `.` itself.
pub fn is_hidden(name: &str) -> (r: bool)
    ensures
        r == (name@.len() > 0 && name@[0] == '.' && name@ != "."@),
{
    let cs = crate::text::chars_of(name);
    cs.len() > 0 && cs[0] == '.' && !str_eq(name, ".")
}

/// Check if an entry is an artifact directory the scan does not descend into:
/// `target`, `node_modules` or `.git`.
pub fn is_artifact_dir(name: &str, is_dir: bool) -> (r: bool)
    ensures
        r == (is_dir && (name@ == "target"@ || name@ == "node_modules"@ || name@ == ".git"@)),
{
    is_dir && (str_eq(name, "target") || str_eq(name, "node_modules") || str_eq(name, ".git"))
}

/// The package name of a manifest, if it declares one as a string.
pub open spec fn package_name(m: TomlView) -> Option<Seq<char>> {
    opt_str(opt_get(view_get(m, "package"@), "name"@))
}

/// A project's name: its non-empty package name, else its directory's name,
/// else `unknown`.
pub open spec fn project_name_of(m: TomlView, project_dir: Seq<char>) -> Seq<char> {
    match package_name(m) {
        Some(n) if n.len() > 0 => n,
        _ => match path_file_name(project_dir) {
            Some(f) => f,
            None => "unknown"@,
        },
    }
}

fn manifest_package_name(manifest: &toml::Value) -> (r: Option<String>)
    ensures
        match r {
            Some(n) => package_name(toml_view(*manifest)) == Some(n@),
            None => package_name(toml_view(*manifest)) is None,
        },
{
    match toml_get(manifest, "package") {
        Some(package) => match toml_get(package, "name") {
            Some(name) => toml_as_str(name),
            None => None,
        },
        None => None,
    }
}

/// Extract the project name from a parsed Cargo manifest.
pub fn extract_project_name(manifest: &toml::Value, project_dir: &str) -> (r: String)
    ensures
        r@ == project_name_of(toml_view(*manifest), project_dir@),
{
    if let Some(name) = manifest_package_name(manifest) {
        if !name.as_str().is_empty() {
            return name;
        }
    }
    match file_name(project_dir) {
        Some(name) => name,
        None => owned("unknown"),
    }
}

/// Parses the text of a `Cargo.toml` into its document; the error is the
/// parser's message.
pub fn parse_manifest(text: &str) -> (r: Result<toml::Value, String>)
    ensures
        r is Ok <==> toml_document(text@) is Some,
        r matches Ok(v) ==> Some(toml_view(v)) == toml_document(text@) && toml_view(v) is Table,
{
    parse_toml_document(text)
}

/// Whether the manifest has a top-level `key` entry.
pub fn has_section(manifest: &toml::Value, key: &str) -> (r: bool)
    ensures
        r == (view_get(toml_view(*manifest), key@) is Some),
{
    toml_get(manifest, key).is_some()
}

/// Whether the manifest's package is named `expected`.
pub fn package_name_is(manifest: &toml::Value, expected: &str) -> (r: bool)
    ensures
        r == (package_name(toml_view(*manifest)) == Some(expected@)),
{
    match manifest_package_name(manifest) {
        Some(name) => str_eq(name.as_str(), expected),
        None => false,
    }
}

/// A manifest that declares a workspace and no package (a virtual
/// workspace) is not a project of its own.
pub fn is_virtual_manifest(manifest: &toml::Value) -> (r: bool)
    ensures
        r == (view_get(toml_view(*manifest), "package"@) is None
            && view_get(toml_view(*manifest), "workspace"@) is Some),
{
    !has_section(manifest, "package") && has_section(manifest, "workspace")
}

/// The resolved target directories already claimed by a project during one
/// scan. Each directory appears once.
pub struct TargetClaims {
    claimed: Vec<String>,
}

impl View for TargetClaims {
    type V = Set<Seq<char>>;

    closed spec fn view(&self) -> Set<Seq<char>> {
        Set::new(|t: Seq<char>| exists|i: int| 0 <= i < self.claimed@.len() && #[trigger] self.claimed@[i]@ == t)
    }
}

impl TargetClaims {
    /// No directory claimed yet.
    pub fn new() -> (r: TargetClaims)
        ensures
            r@ == Set::<Seq<char>>::empty(),
    {
        let r = TargetClaims { claimed: Vec::new() };
        assert(r@ =~= Set::<Seq<char>>::empty());
        r
    }

    /// Claims `target` for the current project: true when no project claimed
    /// it before. Candidates are visited in sorted order, so the first
    /// claimant in that order keeps a shared target directory.
    pub fn claim(&mut self, target: &str) -> (first: bool)
        ensures
            first == !old(self)@.contains(target@),
            final(self)@ == old(self)@.insert(target@),
    {
        let mut i: usize = 0;
        while i < self.claimed.len()
            invariant
                i <= self.claimed@.len(),
                forall|j: int| 0 <= j < i ==> self.claimed@[j]@ != target@,
            decreases self.claimed@.len() - i,
        {
            if str_eq(self.claimed[i].as_str(), target) {
                assert(self@.contains(target@)) by {
                    assert(self.claimed@[i as int]@ == target@);
                }
                assert(self@.insert(target@) =~= self@);
                return false;
            }
            i = i + 1;
        }
        assert(!self@.contains(target@));
        let ghost before = *self;
        self.claimed.push(owned(target));
        assert(self@ =~= before@.insert(target@)) by {
            assert forall|t: Seq<char>| self@.contains(t) <==> before@.insert(target@).contains(t) by {
                if self@.contains(t) {
                    let j = choose|j: int| 0 <= j < self.claimed@.len() && #[trigger] self.claimed@[j]@ == t;
                    if j < before.claimed@.len() {
                        assert(before.claimed@[j]@ == t);
                    }
                }
                if before@.contains(t) {
                    let j = choose|j: int| 0 <= j < before.claimed@.len() && #[trigger] before.claimed@[j]@ == t;
                    assert(self.claimed@[j]@ == t);
                }
                if t == target@ {
                    assert(self.claimed@[before.claimed@.len() as int]@ == t);
                }
            }
        }
        true
    }
}

/// What the manifest at a project root says of the project's identity.
#[derive(Debug)]
pub enum RootCheck {
    /// The root's own package has the expected name.
    Matches,
    /// The root is a workspace whose members must be searched for the name.
    SearchMembers,
    Reject(String),
}

/// The message when no package of the root has the expected name.
pub open spec fn identity_mismatch(expected: Seq<char>) -> Seq<char> {
    "project identity does not match Cargo project "@ + expected
}

/// The identity message for a root whose packages do not include `expected`.
pub fn identity_mismatch_message(expected: &str) -> (r: String)
    ensures
        r@ == identity_mismatch(expected@),
{
    let mut m = String::new();
    push_str(&mut m, "project identity does not match Cargo project ");
    push_str(&mut m, expected);
    m
}

/// Revalidates a cleaner-supplied root from its manifest: it must parse,
/// declare a package or a workspace, and the package must be named as
/// expected; a workspace root defers to its members.
pub fn root_manifest_check(manifest: Option<&toml::Value>, expected: &str) -> (r: RootCheck)
    ensures
        match manifest {
            None => r matches RootCheck::Reject(m) && m@ == "project root has no valid Cargo.toml"@,
            Some(v) => {
                let m = toml_view(*v);
                if view_get(m, "package"@) is None && view_get(m, "workspace"@) is None {
                    r matches RootCheck::Reject(msg) && msg@ == "project root is not a Cargo package or workspace"@
                } else if package_name(m) == Some(expected@) {
                    r is Matches
                } else if view_get(m, "workspace"@) is Some {
                    r is SearchMembers
                } else {
                    r matches RootCheck::Reject(msg) && msg@ == identity_mismatch(expected@)
                }
            },
        },
{
    let manifest = match manifest {
        Some(m) => m,
        None => return RootCheck::Reject(owned("project root has no valid Cargo.toml")),
    };
    let has_package = has_section(manifest, "package");
    let has_workspace = has_section(manifest, "workspace");
    if !has_package && !has_workspace {
        return RootCheck::Reject(owned("project root is not a Cargo package or workspace"));
    }
    if package_name_is(manifest, expected) {
        return RootCheck::Matches;
    }
    if has_workspace {
        return RootCheck::SearchMembers;
    }
    RootCheck::Reject(identity_mismatch_message(expected))
}

/// How an ignored-projects entry and a project name are compared: trimmed
/// and lower-cased.
pub open spec fn normalized_name(s: Seq<char>) -> Seq<char> {
    lowercase(trimmed(s))
}

fn normalize_name(s: &str) -> (r: String)
    ensures
        r@ == normalized_name(s@),
{
    let t = trim(s);
    to_lowercase(t.as_str())
}

/// A workspace never turns a Tauri app into a plain Rust project: a
/// manifest judged a Tauri app on its own stays one with any workspace
/// manifest beside it. In particular a manifest whose `[dependencies]` or
/// `[build-dependencies]` list `tauri` or `tauri-build` by a version string
/// is a Tauri app whatever its workspace.
pub proof fn law_workspace_keeps_tauri_apps(m: TomlView, ws: Option<TomlView>)
    ensures
        project_kind_of(m, None) == ProjectKind::TauriApp ==> project_kind_of(m, ws) == ProjectKind::TauriApp,
        lists_by_version(m, "dependencies"@, "tauri"@) ==> project_kind_of(m, ws) == ProjectKind::TauriApp,
        lists_by_version(m, "dependencies"@, "tauri-build"@) ==> project_kind_of(m, ws) == ProjectKind::TauriApp,
        lists_by_version(m, "build-dependencies"@, "tauri"@) ==> project_kind_of(m, ws) == ProjectKind::TauriApp,
        lists_by_version(m, "build-dependencies"@, "tauri-build"@) ==> project_kind_of(m, ws)
            == ProjectKind::TauriApp,
{
    reveal_strlit("tauri");
    reveal_strlit("tauri-build");
    assert forall|table: Seq<char>, dep: Seq<char>|
        (dep == "tauri"@ || dep == "tauri-build"@) && #[trigger] lists_by_version(m, table, dep) implies table_has_tauri(
        view_get(m, table)) by {
        let d = view_get(m, table)->Some_0->Table_0;
        assert(view_get(d[dep], "package"@) is None);
        assert(is_tauri_dep(dep, d[dep]));
    }
}

/// Whether the manifest's table `table` lists `dep` by a version string.
pub open spec fn lists_by_version(m: TomlView, table: Seq<char>, dep: Seq<char>) -> bool {
    view_get(m, table) matches Some(TomlView::Table(d)) && d.contains_key(dep) && d[dep] is Str
}

/// The scan filters keep exactly the projects at least `min_bytes` large
/// whose name, trimmed and lower-cased, differs from every entry of the
/// ignore list trimmed and lower-cased; every such project is kept, in
/// order. A name that merely starts with an ignored name is kept.
pub proof fn law_scan_filters_keep_every_unlisted_large_project(
    ps: Seq<DiscoveredProject>,
    min_bytes: int,
    ignored: Seq<Seq<char>>,
)
    ensures
        surviving(ps, min_bytes, ignored) == ps.filter(
            |p: DiscoveredProject|
                p.artifact_size >= min_bytes && !(exists|i: int|
                    0 <= i < ignored.len() && lowercase(trimmed(#[trigger] ignored[i])) == lowercase(trimmed(p.name@))),
        ),
    decreases ps.len(),
{
    let f = |p: DiscoveredProject|
        p.artifact_size >= min_bytes && !(exists|i: int|
            0 <= i < ignored.len() && lowercase(trimmed(#[trigger] ignored[i])) == lowercase(trimmed(p.name@)));
    if ps.len() > 0 {
        law_scan_filters_keep_every_unlisted_large_project(ps.drop_first(), min_bytes, ignored);
        assert(ps =~= seq![ps[0]] + ps.drop_first());
        ps.drop_first().lemma_filter_prepend(ps[0], f);
        assert(f(ps[0]) == survives(ps[0], min_bytes, ignored));
    } else {
        reveal(Seq::filter);
        assert(surviving(ps, min_bytes, ignored) =~= ps.filter(f));
    }
}

/// Whether the configured ignore list names the project.
pub open spec fn is_ignored(name: Seq<char>, ignored: Seq<Seq<char>>) -> bool {
    exists|i: int| 0 <= i < ignored.len() && normalized_name(#[trigger] ignored[i]) == normalized_name(name)
}

/// Whether a project survives the configured filters.
pub open spec fn survives(p: DiscoveredProject, min_bytes: int, ignored: Seq<Seq<char>>) -> bool {
    p.artifact_size >= min_bytes && !is_ignored(p.name@, ignored)
}

/// The projects that survive the filters, in order.
pub open spec fn surviving(ps: Seq<DiscoveredProject>, min_bytes: int, ignored: Seq<Seq<char>>) -> Seq<DiscoveredProject>
    decreases ps.len(),
{
    if ps.len() == 0 {
        Seq::empty()
    } else {
        let rest = surviving(ps.drop_first(), min_bytes, ignored);
        if survives(ps[0], min_bytes, ignored) {
            seq![ps[0]] + rest
        } else {
            rest
        }
    }
}

/// With no minimum size and no ignored names, every project survives the
/// filters, in order.
pub proof fn law_default_filters_keep_everything(ps: Seq<DiscoveredProject>)
    ensures
        surviving(ps, 0, Seq::empty()) == ps,
    decreases ps.len(),
{
    if ps.len() > 0 {
        law_default_filters_keep_everything(ps.drop_first());
        assert(!is_ignored(ps[0].name@, Seq::empty()));
        assert(seq![ps[0]] + ps.drop_first() =~= ps);
    }
}

/// Applies the configuration's filters to scan results: projects under
/// `min_size_mb` MiB are dropped, and so are projects whose package name
/// matches an ignored name (trimmed, case-insensitive). `None` when the
/// minimum size in bytes does not fit in `u64`: no project is included then.
pub fn apply_scan_filters(projects: Vec<DiscoveredProject>, min_size_mb: u64, ignored: &Vec<String>) -> (r: Option<Vec<DiscoveredProject>>)
    ensures
        min_size_mb * 1048576 > u64::MAX ==> r is None,
        min_size_mb * 1048576 <= u64::MAX ==> (r matches Some(v)
            && v@ == surviving(projects@, min_size_mb * 1048576, views(ignored@))),
{
    let min_bytes = match min_size_mb.checked_mul(1048576) {
        Some(b) => b,
        None => return None,
    };
    let mut names: Vec<String> = Vec::new();
    let mut j: usize = 0;
    while j < ignored.len()
        invariant
            j <= ignored@.len(),
            names@.len() == j,
            forall|k: int| 0 <= k < j ==> (#[trigger] names@[k])@ == normalized_name(ignored@[k]@),
        decreases ignored@.len() - j,
    {
        names.push(normalize_name(ignored[j].as_str()));
        j = j + 1;
    }
    let ghost all = projects@;
    let ghost iv = views(ignored@);
    let mut input = projects;
    let mut out: Vec<DiscoveredProject> = Vec::new();
    assert(input@ =~= all.subrange(0, all.len() as int));
    while input.len() > 0
        invariant
            names@.len() == iv.len(),
            iv == views(ignored@),
            forall|k: int| 0 <= k < names@.len() ==> (#[trigger] names@[k])@ == normalized_name(iv[k]),
            out@ + surviving(input@, min_bytes as int, iv) == surviving(all, min_bytes as int, iv),
        decreases input@.len(),
    {
        let ghost before = input@;
        let p = input.remove(0);
        assert(input@ =~= before.drop_first());
        assert(p == before[0]);
        let name = normalize_name(p.name.as_str());
        let mut ignored_hit = false;
        let mut k: usize = 0;
        while k < names.len()
            invariant
                k <= names@.len(),
                names@.len() == iv.len(),
                forall|q: int| 0 <= q < names@.len() ==> (#[trigger] names@[q])@ == normalized_name(iv[q]),
                name@ == normalized_name(p.name@),
                ignored_hit == exists|q: int| 0 <= q < k && normalized_name(#[trigger] iv[q]) == normalized_name(p.name@),
            decreases names@.len() - k,
        {
            if str_eq(names[k].as_str(), name.as_str()) {
                ignored_hit = true;
            }
            proof {
                if ignored_hit {
                    if normalized_name(iv[k as int]) == normalized_name(p.name@) {
                        assert(exists|q: int| 0 <= q < k + 1 && normalized_name(#[trigger] iv[q]) == normalized_name(p.name@));
                    } else {
                        let q = choose|q: int| 0 <= q < k && normalized_name(#[trigger] iv[q]) == normalized_name(p.name@);
                        assert(0 <= q < k + 1);
                    }
                }
            }
            k = k + 1;
        }
        let ghost out_before = out@;
        if p.artifact_size >= min_bytes && !ignored_hit {
            out.push(p);
            assert(out@ + surviving(input@, min_bytes as int, iv) =~= out_before + surviving(before, min_bytes as int, iv));
        } else {
            assert(out@ + surviving(input@, min_bytes as int, iv) =~= out_before + surviving(before, min_bytes as int, iv));
        }
    }
    assert(out@ =~= surviving(all, min_bytes as int, iv));
    Some(out)
}


/// Strict lexicographic order of character sequences by code point, which is
/// the order of `String`'s `Ord` (UTF-8 byte order).
pub open spec fn lex_lt(a: Seq<char>, b: Seq<char>) -> bool
    decreases a.len(),
{
    if a.len() == 0 {
        b.len() > 0
    } else if b.len() == 0 {
        false
    } else if a[0] < b[0] {
        true
    } else if a[0] > b[0] {
        false
    } else {
        lex_lt(a.drop_first(), b.drop_first())
    }
}

proof fn lemma_lex_lt_transitive(a: Seq<char>, b: Seq<char>, c: Seq<char>)
    requires
        lex_lt(a, b),
        lex_lt(b, c),
    ensures
        lex_lt(a, c),
    decreases a.len(),
{
    if a.len() > 0 && b.len() > 0 && c.len() > 0 && a[0] == b[0] && b[0] == c[0] {
        lemma_lex_lt_transitive(a.drop_first(), b.drop_first(), c.drop_first());
    }
}

proof fn lemma_lex_lt_irreflexive(a: Seq<char>)
    ensures
        !lex_lt(a, a),
    decreases a.len(),
{
    if a.len() > 0 {
        lemma_lex_lt_irreflexive(a.drop_first());
    }
}

/// Scan order: larger artifacts first, ties broken by name.
pub open spec fn sorts_before(a: DiscoveredProject, b: DiscoveredProject) -> bool {
    a.artifact_size > b.artifact_size || (a.artifact_size == b.artifact_size && lex_lt(a.name@, b.name@))
}

/// Whether the projects are in scan order.
pub open spec fn in_scan_order(s: Seq<DiscoveredProject>) -> bool {
    forall|i: int, j: int| 0 <= i < j < s.len() ==> !sorts_before(#[trigger] s[j], #[trigger] s[i])
}

proof fn lemma_sorts_before_transitive(a: DiscoveredProject, b: DiscoveredProject, c: DiscoveredProject)
    requires
        sorts_before(a, b),
        sorts_before(b, c),
    ensures
        sorts_before(a, c),
{
    if a.artifact_size == b.artifact_size && b.artifact_size == c.artifact_size {
        lemma_lex_lt_transitive(a.name@, b.name@, c.name@);
    }
}

fn name_lt(a: &str, b: &str) -> (r: bool)
    ensures
        r == lex_lt(a@, b@),
{
    let x = crate::text::chars_of(a);
    let y = crate::text::chars_of(b);
    let mut i: usize = 0;
    assert(x@.skip(0) =~= x@);
    assert(y@.skip(0) =~= y@);
    while i < x.len() && i < y.len() && x[i] == y[i]
        invariant
            i <= x@.len(),
            i <= y@.len(),
            x@ == a@,
            y@ == b@,
            lex_lt(a@, b@) == lex_lt(x@.skip(i as int), y@.skip(i as int)),
        decreases x@.len() - i,
    {
        assert(x@.skip(i as int).drop_first() =~= x@.skip(i + 1));
        assert(y@.skip(i as int).drop_first() =~= y@.skip(i + 1));
        i = i + 1;
    }
    if i == x.len() {
        i < y.len()
    } else if i == y.len() {
        false
    } else {
        assert(x@.skip(i as int)[0] == x@[i as int]);
        assert(y@.skip(i as int)[0] == y@[i as int]);
        x[i] < y[i]
    }
}

fn project_sorts_before(a: &DiscoveredProject, b: &DiscoveredProject) -> (r: bool)
    ensures
        r == sorts_before(*a, *b),
{
    a.artifact_size > b.artifact_size || (a.artifact_size == b.artifact_size && name_lt(a.name.as_str(), b.name.as_str()))
}

/// Whether a project has the given size and name, the two things scan
/// order looks at.
pub open spec fn has_scan_key(size: u64, name: Seq<char>) -> spec_fn(DiscoveredProject) -> bool {
    |y: DiscoveredProject| y.artifact_size == size && y.name@ == name
}

/// The projects of `s` with the given size and name, in the order `s` holds them.
pub open spec fn with_scan_key(s: Seq<DiscoveredProject>, size: u64, name: Seq<char>) -> Seq<DiscoveredProject> {
    s.filter(has_scan_key(size, name))
}

proof fn lemma_no_scan_key(s: Seq<DiscoveredProject>, size: u64, name: Seq<char>)
    requires
        forall|i: int| 0 <= i < s.len() ==> !(#[trigger] s[i].artifact_size == size && s[i].name@ == name),
    ensures
        with_scan_key(s, size, name) == Seq::<DiscoveredProject>::empty(),
    decreases s.len(),
{
    reveal(Seq::filter);
    if s.len() > 0 {
        assert forall|i: int| 0 <= i < s.drop_last().len() implies
            !(#[trigger] s.drop_last()[i].artifact_size == size && s.drop_last()[i].name@ == name) by {
            assert(s.drop_last()[i] == s[i]);
        }
        lemma_no_scan_key(s.drop_last(), size, name);
    }
}

/// Inserting `x` in front of the first project it sorts before puts it
/// after every project with the same size and name.
proof fn lemma_insert_after_equal_keys(
    before: Seq<DiscoveredProject>,
    pos: int,
    x: DiscoveredProject,
    size: u64,
    name: Seq<char>,
)
    requires
        in_scan_order(before),
        0 <= pos <= before.len(),
        pos < before.len() ==> sorts_before(x, before[pos]),
    ensures
        with_scan_key(before.insert(pos, x), size, name) == with_scan_key(before, size, name) + with_scan_key(
            seq![x],
            size,
            name,
        ),
{
    let f = has_scan_key(size, name);
    let head = before.take(pos);
    let tail = before.skip(pos);
    assert(before.insert(pos, x) =~= head + (seq![x] + tail));
    assert(before =~= head + tail);
    Seq::filter_distributes_over_add(head, seq![x] + tail, f);
    Seq::filter_distributes_over_add(seq![x], tail, f);
    Seq::filter_distributes_over_add(head, tail, f);
    if f(x) {
        assert forall|i: int| 0 <= i < tail.len() implies !(#[trigger] tail[i].artifact_size == size
            && tail[i].name@ == name) by {
            assert(tail[i] == before[pos + i]);
            if tail[i].artifact_size == size && tail[i].name@ == name {
                lemma_lex_lt_irreflexive(x.name@);
                if i > 0 {
                    assert(!sorts_before(before[pos + i], before[pos]));
                }
            }
        }
        lemma_no_scan_key(tail, size, name);
        assert(with_scan_key(head + tail, size, name) =~= with_scan_key(head, size, name));
        assert(with_scan_key(before.insert(pos, x), size, name) =~= with_scan_key(head, size, name)
            + with_scan_key(seq![x], size, name));
    } else {
        lemma_no_scan_key(seq![x], size, name);
        assert(with_scan_key(before.insert(pos, x), size, name) =~= with_scan_key(before, size, name)
            + with_scan_key(seq![x], size, name));
    }
}

proof fn lemma_lex_lt_total(a: Seq<char>, b: Seq<char>)
    ensures
        !lex_lt(a, b) && !lex_lt(b, a) ==> a == b,
    decreases a.len(),
{
    if a.len() > 0 && b.len() > 0 && a[0] == b[0] {
        lemma_lex_lt_total(a.drop_first(), b.drop_first());
        if !lex_lt(a, b) && !lex_lt(b, a) {
            assert(a =~= seq![a[0]] + a.drop_first());
            assert(b =~= seq![b[0]] + b.drop_first());
        }
    } else if a.len() == 0 && b.len() == 0 {
        assert(a =~= b);
    }
}

/// Projects in scan order are determined by what they are: two sequences
/// in scan order that hold the same projects, with the projects of each
/// size and name in the same order, are the same sequence. So sorting the
/// projects a scan found gives one order, whatever order they came in.
pub proof fn law_scan_order_is_unique(a: Seq<DiscoveredProject>, b: Seq<DiscoveredProject>)
    requires
        in_scan_order(a),
        in_scan_order(b),
        a.to_multiset() == b.to_multiset(),
        forall|size: u64, name: Seq<char>| #[trigger] with_scan_key(a, size, name) == with_scan_key(b, size, name),
    ensures
        a == b,
    decreases a.len(),
{
    broadcast use vstd::seq_lib::group_to_multiset_ensures;
    if a.len() == 0 {
        assert(b.to_multiset().len() == 0);
        assert(a =~= b);
    } else {
        vstd::seq_lib::to_multiset_len(a);
        vstd::seq_lib::to_multiset_len(b);
        assert(b.len() == a.len());
        let x = a[0];
        let y = b[0];
        assert(a.contains(x));
        vstd::seq_lib::to_multiset_contains(a, x);
        vstd::seq_lib::to_multiset_contains(b, x);
        assert(b.contains(x));
        assert(b.contains(y));
        vstd::seq_lib::to_multiset_contains(b, y);
        vstd::seq_lib::to_multiset_contains(a, y);
        assert(a.contains(y));
        let j = choose|j: int| 0 <= j < b.len() && b[j] == x;
        let i = choose|i: int| 0 <= i < a.len() && a[i] == y;
        if i > 0 {
            assert(!sorts_before(a[i], a[0]));
        }
        if j > 0 {
            assert(!sorts_before(b[j], b[0]));
        }
        lemma_lex_lt_total(x.name@, y.name@);
        lemma_lex_lt_irreflexive(x.name@);
        assert(x.artifact_size == y.artifact_size && x.name@ == y.name@);
        let a1 = a.drop_first();
        let b1 = b.drop_first();
        assert(a =~= seq![x] + a1);
        assert(b =~= seq![y] + b1);
        a1.lemma_filter_prepend(x, has_scan_key(x.artifact_size, x.name@));
        b1.lemma_filter_prepend(y, has_scan_key(x.artifact_size, x.name@));
        assert(with_scan_key(a, x.artifact_size, x.name@) == with_scan_key(b, x.artifact_size, x.name@));
        assert(with_scan_key(a, x.artifact_size, x.name@)[0] == x);
        assert(with_scan_key(b, x.artifact_size, x.name@)[0] == y);
        assert(x == y);
        assert forall|size: u64, name: Seq<char>| #[trigger] with_scan_key(a1, size, name) == with_scan_key(
            b1,
            size,
            name,
        ) by {
            a1.lemma_filter_prepend(x, has_scan_key(size, name));
            b1.lemma_filter_prepend(y, has_scan_key(size, name));
            assert(with_scan_key(a, size, name) == with_scan_key(b, size, name));
            if x.artifact_size == size && x.name@ == name {
                assert(with_scan_key(a1, size, name) =~= with_scan_key(a, size, name).drop_first());
                assert(with_scan_key(b1, size, name) =~= with_scan_key(b, size, name).drop_first());
            } else {
                assert(with_scan_key(a1, size, name) =~= with_scan_key(a, size, name));
                assert(with_scan_key(b1, size, name) =~= with_scan_key(b, size, name));
            }
        }
        vstd::seq_lib::to_multiset_remove(a, 0);
        vstd::seq_lib::to_multiset_remove(b, 0);
        assert(a.remove(0) =~= a1);
        assert(b.remove(0) =~= b1);
        assert forall|p: int, q: int| 0 <= p < q < a1.len() implies !sorts_before(#[trigger] a1[q], #[trigger] a1[p]) by {
            assert(a1[q] == a[q + 1] && a1[p] == a[p + 1]);
        }
        assert forall|p: int, q: int| 0 <= p < q < b1.len() implies !sorts_before(#[trigger] b1[q], #[trigger] b1[p]) by {
            assert(b1[q] == b[q + 1] && b1[p] == b[p + 1]);
        }
        law_scan_order_is_unique(a1, b1);
        assert(a =~= b);
    }
}

/// Sort by size descending, breaking ties by name for determinism.
/// The sort is stable: projects with the same size and name keep the
/// order in which the scan found them.
pub fn sort_projects(projects: Vec<DiscoveredProject>) -> (r: Vec<DiscoveredProject>)
    ensures
        in_scan_order(r@),
        r@.to_multiset() == projects@.to_multiset(),
        forall|size: u64, name: Seq<char>| #[trigger] with_scan_key(r@, size, name) == with_scan_key(
            projects@,
            size,
            name,
        ),
{
    broadcast use vstd::seq_lib::group_to_multiset_ensures;
    let ghost all = projects@;
    let mut input = projects;
    let mut out: Vec<DiscoveredProject> = Vec::new();
    proof {
        assert forall|size: u64, name: Seq<char>| #[trigger] with_scan_key(out@, size, name) + with_scan_key(
            input@,
            size,
            name,
        ) == with_scan_key(all, size, name) by {
            reveal(Seq::filter);
            assert(with_scan_key(out@, size, name) =~= Seq::<DiscoveredProject>::empty());
            assert(with_scan_key(out@, size, name) + with_scan_key(input@, size, name) =~= with_scan_key(
                all,
                size,
                name,
            ));
        }
    }
    while input.len() > 0
        invariant
            in_scan_order(out@),
            out@.to_multiset().add(input@.to_multiset()) == all.to_multiset(),
            forall|size: u64, name: Seq<char>| #[trigger] with_scan_key(out@, size, name) + with_scan_key(
                input@,
                size,
                name,
            ) == with_scan_key(all, size, name),
        decreases input@.len(),
    {
        let ghost before_in = input@;
        let ghost before_out = out@;
        let x = input.remove(0);
        proof {
            vstd::seq_lib::to_multiset_remove(before_in, 0);
            assert(before_in[0] == x);
            assert(before_in.contains(x));
            vstd::seq_lib::to_multiset_contains(before_in, x);
        }
        let mut pos: usize = 0;
        while pos < out.len() && !project_sorts_before(&x, &out[pos])
            invariant
                pos <= out@.len(),
                out@ == before_out,
                forall|k: int| 0 <= k < pos ==> !sorts_before(x, #[trigger] out@[k]),
            decreases out@.len() - pos,
        {
            pos = pos + 1;
        }
        proof {
            assert(forall|k: int| 0 <= k < pos ==> !sorts_before(x, #[trigger] before_out[k]));
            if pos < before_out.len() {
                assert(sorts_before(x, before_out[pos as int]));
            }
        }
        out.insert(pos, x);
        proof {
            assert forall|size: u64, name: Seq<char>| #[trigger] with_scan_key(out@, size, name) + with_scan_key(
                input@,
                size,
                name,
            ) == with_scan_key(all, size, name) by {
                lemma_insert_after_equal_keys(before_out, pos as int, x, size, name);
                assert(before_in =~= seq![x] + input@);
                Seq::filter_distributes_over_add(seq![x], input@, has_scan_key(size, name));
                assert(with_scan_key(before_out, size, name) + with_scan_key(before_in, size, name) == with_scan_key(
                    all,
                    size,
                    name,
                ));
                assert(with_scan_key(out@, size, name) + with_scan_key(input@, size, name) =~= with_scan_key(
                    before_out,
                    size,
                    name,
                ) + with_scan_key(before_in, size, name));
            }
            vstd::seq_lib::to_multiset_insert(before_out, pos as int, x);
            assert(out@.to_multiset().add(input@.to_multiset()) =~= all.to_multiset());
            let s = out@;
            assert forall|i: int, j: int| 0 <= i < j < s.len() implies !sorts_before(#[trigger] s[j], #[trigger] s[i]) by {
                if j < pos {
                    assert(s[i] == before_out[i] && s[j] == before_out[j]);
                } else if j == pos {
                    assert(s[i] == before_out[i]);
                } else if i == pos {
                    assert(s[j] == before_out[j - 1]);
                    assert(pos < before_out.len());
                    assert(sorts_before(x, before_out[pos as int]));
                    if pos < j - 1 {
                        assert(!sorts_before(before_out[j - 1], before_out[pos as int]));
                    }
                    if sorts_before(s[j], x) {
                        lemma_sorts_before_transitive(s[j], x, before_out[pos as int]);
                        lemma_lex_lt_irreflexive(before_out[pos as int].name@);
                    }
                } else if i < pos {
                    assert(s[i] == before_out[i] && s[j] == before_out[j - 1]);
                    assert(!sorts_before(before_out[j - 1], before_out[i]));
                } else {
                    assert(s[i] == before_out[i - 1] && s[j] == before_out[j - 1]);
                    assert(!sorts_before(before_out[j - 1], before_out[i - 1]));
                }
            }
        }
    }
    proof {
        assert forall|size: u64, name: Seq<char>| #[trigger] with_scan_key(out@, size, name) == with_scan_key(
            all,
            size,
            name,
        ) by {
            reveal(Seq::filter);
            assert(with_scan_key(input@, size, name) =~= Seq::<DiscoveredProject>::empty());
            assert(with_scan_key(out@, size, name) + with_scan_key(input@, size, name) =~= with_scan_key(
                out@,
                size,
                name,
            ));
        }
    }
    out
}


/// The position of a component kind in `std::path::Component`'s order.
pub open spec fn part_rank(p: PathPartView) -> int {
    match p {
        PathPartView::Prefix => 0,
        PathPartView::RootDir => 1,
        PathPartView::CurDir => 2,
        PathPartView::ParentDir => 3,
        PathPartView::Normal(_) => 4,
    }
}

/// Component order: by kind, and normal components by name.
pub open spec fn part_lt(a: PathPartView, b: PathPartView) -> bool {
    match (a, b) {
        (PathPartView::Normal(x), PathPartView::Normal(y)) => lex_lt(x, y),
        _ => part_rank(a) < part_rank(b),
    }
}

/// Path order (`PathBuf`'s `Ord`): component lists compared lexicographically.
pub open spec fn parts_lt(a: Seq<PathPartView>, b: Seq<PathPartView>) -> bool
    decreases a.len(),
{
    if a.len() == 0 {
        b.len() > 0
    } else if b.len() == 0 {
        false
    } else if a[0] == b[0] {
        parts_lt(a.drop_first(), b.drop_first())
    } else {
        part_lt(a[0], b[0])
    }
}

/// Whether the paths are in ascending path order.
pub open spec fn in_path_order(s: Seq<Seq<char>>) -> bool {
    forall|i: int, j: int| 0 <= i < j < s.len() ==> !parts_lt(
        path_components(#[trigger] s[j]),
        path_components(#[trigger] s[i]),
    )
}

proof fn lemma_lex_lt_asymmetric(a: Seq<char>, b: Seq<char>)
    requires
        lex_lt(a, b),
    ensures
        !lex_lt(b, a),
{
    if lex_lt(b, a) {
        lemma_lex_lt_transitive(a, b, a);
        lemma_lex_lt_irreflexive(a);
    }
}

proof fn lemma_part_lt_order(a: PathPartView, b: PathPartView, c: PathPartView)
    ensures
        part_lt(a, b) && part_lt(b, c) ==> part_lt(a, c),
        part_lt(a, b) ==> !part_lt(b, a),
        !part_lt(a, a),
{
    if let (PathPartView::Normal(x), PathPartView::Normal(y)) = (a, b) {
        if lex_lt(x, y) {
            lemma_lex_lt_asymmetric(x, y);
        }
        if let PathPartView::Normal(z) = c {
            if lex_lt(x, y) && lex_lt(y, z) {
                lemma_lex_lt_transitive(x, y, z);
            }
        }
    }
    if let PathPartView::Normal(x) = a {
        lemma_lex_lt_irreflexive(x);
    }
}

proof fn lemma_parts_lt_transitive(a: Seq<PathPartView>, b: Seq<PathPartView>, c: Seq<PathPartView>)
    requires
        parts_lt(a, b),
        parts_lt(b, c),
    ensures
        parts_lt(a, c),
    decreases a.len(),
{
    if a.len() > 0 && b.len() > 0 && c.len() > 0 {
        lemma_part_lt_order(a[0], b[0], c[0]);
        lemma_part_lt_order(b[0], a[0], c[0]);
        if a[0] == b[0] && b[0] == c[0] {
            lemma_parts_lt_transitive(a.drop_first(), b.drop_first(), c.drop_first());
        }
    }
}

proof fn lemma_parts_lt_irreflexive(a: Seq<PathPartView>)
    ensures
        !parts_lt(a, a),
    decreases a.len(),
{
    if a.len() > 0 {
        lemma_parts_lt_irreflexive(a.drop_first());
    }
}

fn same_part(a: &PathPart, b: &PathPart) -> (r: bool)
    ensures
        r == (part_view(*a) == part_view(*b)),
{
    match (a, b) {
        (PathPart::Prefix, PathPart::Prefix) => true,
        (PathPart::RootDir, PathPart::RootDir) => true,
        (PathPart::CurDir, PathPart::CurDir) => true,
        (PathPart::ParentDir, PathPart::ParentDir) => true,
        (PathPart::Normal(x), PathPart::Normal(y)) => str_eq(x.as_str(), y.as_str()),
        _ => false,
    }
}

fn part_rank_of(p: &PathPart) -> (r: u8)
    ensures
        r == part_rank(part_view(*p)),
{
    match p {
        PathPart::Prefix => 0,
        PathPart::RootDir => 1,
        PathPart::CurDir => 2,
        PathPart::ParentDir => 3,
        PathPart::Normal(_) => 4,
    }
}

fn part_before(a: &PathPart, b: &PathPart) -> (r: bool)
    ensures
        r == part_lt(part_view(*a), part_view(*b)),
{
    match (a, b) {
        (PathPart::Normal(x), PathPart::Normal(y)) => name_lt(x.as_str(), y.as_str()),
        _ => part_rank_of(a) < part_rank_of(b),
    }
}

fn parts_before(a: &Vec<PathPart>, b: &Vec<PathPart>) -> (r: bool)
    ensures
        r == parts_lt(part_views(a@), part_views(b@)),
{
    let ghost av = part_views(a@);
    let ghost bv = part_views(b@);
    let mut i: usize = 0;
    assert(av.skip(0) =~= av);
    assert(bv.skip(0) =~= bv);
    while i < a.len() && i < b.len() && same_part(&a[i], &b[i])
        invariant
            i <= a@.len(),
            i <= b@.len(),
            av == part_views(a@),
            bv == part_views(b@),
            parts_lt(av, bv) == parts_lt(av.skip(i as int), bv.skip(i as int)),
        decreases a@.len() - i,
    {
        assert(av.skip(i as int).drop_first() =~= av.skip(i + 1));
        assert(bv.skip(i as int).drop_first() =~= bv.skip(i + 1));
        assert(av.skip(i as int)[0] == av[i as int]);
        assert(bv.skip(i as int)[0] == bv[i as int]);
        i = i + 1;
    }
    if i == a.len() {
        i < b.len()
    } else if i == b.len() {
        false
    } else {
        assert(av.skip(i as int)[0] == av[i as int]);
        assert(bv.skip(i as int)[0] == bv[i as int]);
        part_before(&a[i], &b[i])
    }
}

fn path_before(a: &str, b: &str) -> (r: bool)
    ensures
        r == parts_lt(path_components(a@), path_components(b@)),
{
    let ap = components(a);
    let bp = components(b);
    parts_before(&ap, &bp)
}

/// Sorts candidate manifest paths in path order, so that when several
/// projects share a target directory the first claimant is the same on
/// every run, whatever order the directory walk produced.
pub fn sort_candidates(paths: Vec<String>) -> (r: Vec<String>)
    ensures
        in_path_order(views(r@)),
        r@.to_multiset() == paths@.to_multiset(),
{
    broadcast use vstd::seq_lib::group_to_multiset_ensures;
    let ghost all = paths@;
    let mut input = paths;
    let mut out: Vec<String> = Vec::new();
    while input.len() > 0
        invariant
            in_path_order(views(out@)),
            out@.to_multiset().add(input@.to_multiset()) == all.to_multiset(),
        decreases input@.len(),
    {
        let ghost before_in = input@;
        let ghost before_out = out@;
        let x = input.remove(0);
        proof {
            vstd::seq_lib::to_multiset_remove(before_in, 0);
            assert(before_in[0] == x);
            assert(before_in.contains(x));
            vstd::seq_lib::to_multiset_contains(before_in, x);
        }
        let mut pos: usize = 0;
        while pos < out.len() && !path_before(x.as_str(), out[pos].as_str())
            invariant
                pos <= out@.len(),
                out@ == before_out,
                forall|k: int| 0 <= k < pos ==> !parts_lt(path_components(x@), path_components(#[trigger] out@[k]@)),
            decreases out@.len() - pos,
        {
            pos = pos + 1;
        }
        let ghost xv = path_components(x@);
        out.insert(pos, x);
        proof {
            vstd::seq_lib::to_multiset_insert(before_out, pos as int, x);
            assert(out@.to_multiset().add(input@.to_multiset()) =~= all.to_multiset());
            let s = views(out@);
            let b = views(before_out);
            assert(s.len() == out@.len());
            assert(forall|k: int| 0 <= k < b.len() ==> #[trigger] b[k] == before_out[k]@);
            assert(forall|k: int| 0 <= k < s.len() ==> #[trigger] s[k] == out@[k]@);
            assert forall|i: int, j: int| 0 <= i < j < s.len() implies !parts_lt(
                path_components(#[trigger] s[j]),
                path_components(#[trigger] s[i]),
            ) by {
                if j < pos {
                    assert(s[i] == b[i] && s[j] == b[j]);
                } else if j == pos {
                    assert(s[i] == b[i]);
                    assert(s[j] == x@);
                    assert(!parts_lt(xv, path_components(before_out[i]@)));
                } else if i == pos {
                    assert(s[j] == b[j - 1]);
                    assert(s[i] == x@);
                    assert(pos < before_out.len());
                    assert(parts_lt(xv, path_components(b[pos as int])));
                    if pos < j - 1 {
                        assert(!parts_lt(path_components(b[j - 1]), path_components(b[pos as int])));
                    }
                    if parts_lt(path_components(s[j]), xv) {
                        lemma_parts_lt_transitive(path_components(s[j]), xv, path_components(b[pos as int]));
                        lemma_parts_lt_irreflexive(path_components(b[pos as int]));
                    }
                } else if i < pos {
                    assert(s[i] == b[i] && s[j] == b[j - 1]);
                } else {
                    assert(s[i] == b[i - 1] && s[j] == b[j - 1]);
                }
            }
        }
    }
    out
}
} // verus!
