//! The choices of the setup wizard and the configuration they produce.
use vstd::prelude::*;
use crate::config::{CleanBehavior, Config, ConfigView, DefaultMode, Scope, CONFIG_VERSION};
use crate::text::views;

verus! {

/// The scope for the wizard's menu position: `tauri-only`, `tauri-and-rust`,
/// `rust-only`, and `tauri-only` for any other position.
pub open spec fn scope_choice(index: nat) -> Scope {
    if index == 1 {
        Scope::TauriAndRust
    } else if index == 2 {
        Scope::RustOnly
    } else {
        Scope::TauriOnly
    }
}

/// The clean behaviour for the wizard's menu position: delete, trash, and
/// delete for any other position.
pub open spec fn behavior_choice(index: nat) -> CleanBehavior {
    if index == 1 {
        CleanBehavior::Trash
    } else {
        CleanBehavior::Delete
    }
}

/// The scope picked from the wizard's menu.
pub fn scope_from_choice(index: usize) -> (r: Scope)
    ensures
        r == scope_choice(index as nat),
{
    match index {
        0 => Scope::TauriOnly,
        1 => Scope::TauriAndRust,
        2 => Scope::RustOnly,
        _ => Scope::TauriOnly,
    }
}

/// The clean behaviour picked from the wizard's menu.
pub fn behavior_from_choice(index: usize) -> (r: CleanBehavior)
    ensures
        r == behavior_choice(index as nat),
{
    match index {
        0 => CleanBehavior::Delete,
        1 => CleanBehavior::Trash,
        _ => CleanBehavior::Delete,
    }
}

/// The configuration the wizard saves for its answers.
pub open spec fn wizard_config(projects_dir: Seq<char>, scope_index: nat, behavior_index: nat) -> ConfigView {
    ConfigView {
        version: CONFIG_VERSION,
        projects_dir,
        scope: scope_choice(scope_index),
        clean_behavior: behavior_choice(behavior_index),
        default_mode: DefaultMode::Full,
        min_size_mb: 0,
        ignored_projects: Seq::empty(),
    }
}

/// Builds the configuration from the wizard's answers: the projects
/// directory as typed and the two menu positions. The default mode is
/// `full`, with no size filter and no ignored projects.
pub fn setup_config(projects_dir: String, scope_index: usize, behavior_index: usize) -> (r: Config)
    ensures
        r@ == wizard_config(projects_dir@, scope_index as nat, behavior_index as nat),
{
    let r = Config {
        version: CONFIG_VERSION,
        projects_dir,
        scope: scope_from_choice(scope_index),
        clean_behavior: behavior_from_choice(behavior_index),
        default_mode: DefaultMode::Full,
        min_size_mb: 0,
        ignored_projects: Vec::new(),
    };
    assert(views(r.ignored_projects@) =~= Seq::<Seq<char>>::empty());
    r
}

} // verus!
