//! `settings`: showing, updating and resetting the stored configuration.
use vstd::prelude::*;
use crate::cli::{SettingsAction, SettingsArgs, SettingsConfigArgs};
use crate::config::{check_config, CleanBehavior, Config, ConfigError, ConfigErrorView, ConfigView, DefaultMode, Scope};
use crate::text::{chars_of, push_str, string_from_chars, trim, trim_chars, trimmed, views};

verus! {

broadcast use vstd::string::group_string_axioms;

/// Finished names and the name in progress after reading `s`.
pub open spec fn names_fold(s: Seq<char>) -> (Seq<Seq<char>>, Seq<char>)
    decreases s.len(),
{
    if s.len() == 0 {
        (Seq::empty(), Seq::empty())
    } else {
        let (done, cur) = names_fold(s.drop_last());
        if s.last() == ',' {
            if trimmed(cur).len() > 0 {
                (done.push(trimmed(cur)), Seq::empty())
            } else {
                (done, Seq::empty())
            }
        } else {
            (done, cur.push(s.last()))
        }
    }
}

/// The names of a comma-separated list: each piece trimmed, blank pieces dropped.
pub open spec fn name_list(s: Seq<char>) -> Seq<Seq<char>> {
    let (done, cur) = names_fold(s);
    if trimmed(cur).len() > 0 {
        done.push(trimmed(cur))
    } else {
        done
    }
}

/// Splits a comma-separated list of project names.
pub fn parse_name_list(s: &str) -> (r: Vec<String>)
    ensures
        views(r@) == name_list(s@),
{
    let cs = chars_of(s);
    let mut done: Vec<String> = Vec::new();
    let mut cur: Vec<char> = Vec::new();
    let mut i: usize = 0;
    while i < cs.len()
        invariant
            i <= cs@.len(),
            cs@ == s@,
            (views(done@), cur@) == names_fold(s@.take(i as int)),
        decreases cs@.len() - i,
    {
        let c = cs[i];
        assert(s@.take(i + 1).drop_last() =~= s@.take(i as int));
        assert(s@.take(i + 1).last() == c);
        if c == ',' {
            let t = trim_chars(cur.as_slice());
            if t.len() > 0 {
                let name = string_from_chars(t.as_slice());
                let ghost before = done@;
                done.push(name);
                assert(views(done@) =~= views(before).push(name@));
            }
            cur = Vec::new();
        } else {
            cur.push(c);
        }
        i = i + 1;
    }
    assert(s@.take(cs@.len() as int) =~= s@);
    let t = trim_chars(cur.as_slice());
    if t.len() > 0 {
        let name = string_from_chars(t.as_slice());
        let ghost before = done@;
        done.push(name);
        assert(views(done@) =~= views(before).push(name@));
    }
    done
}

/// One configuration value changed by `settings config`.
#[derive(Debug)]
pub enum SettingChange {
    ProjectsDir(String),
    Scope(Scope),
    CleanBehavior(CleanBehavior),
    DefaultMode(DefaultMode),
    MinSizeMb(u64),
    IgnoredProjects(Vec<String>),
}

/// A changed value, as plain values.
pub enum SettingChangeView {
    ProjectsDir(Seq<char>),
    Scope(Scope),
    CleanBehavior(CleanBehavior),
    DefaultMode(DefaultMode),
    MinSizeMb(u64),
    IgnoredProjects(Seq<Seq<char>>),
}

pub open spec fn change_view(c: SettingChange) -> SettingChangeView {
    match c {
        SettingChange::ProjectsDir(d) => SettingChangeView::ProjectsDir(d@),
        SettingChange::Scope(x) => SettingChangeView::Scope(x),
        SettingChange::CleanBehavior(x) => SettingChangeView::CleanBehavior(x),
        SettingChange::DefaultMode(x) => SettingChangeView::DefaultMode(x),
        SettingChange::MinSizeMb(x) => SettingChangeView::MinSizeMb(x),
        SettingChange::IgnoredProjects(v) => SettingChangeView::IgnoredProjects(views(v@)),
    }
}

pub open spec fn change_views(s: Seq<SettingChange>) -> Seq<SettingChangeView> {
    s.map_values(|c: SettingChange| change_view(c))
}

/// One change when the option is given, none otherwise.
pub open spec fn given<T>(o: Option<T>, f: spec_fn(T) -> SettingChangeView) -> Seq<SettingChangeView> {
    match o {
        Some(x) => seq![f(x)],
        None => Seq::empty(),
    }
}

/// The changes `settings config` reports, in option order: projects
/// directory, scope, clean behaviour, default mode, minimum size, ignored
/// projects.
pub open spec fn expected_changes(args: SettingsConfigArgs) -> Seq<SettingChangeView> {
    given(args.projects_dir, |d: String| SettingChangeView::ProjectsDir(d@))
        + given(args.scope, |x: Scope| SettingChangeView::Scope(x))
        + given(args.clean_behavior, |x: CleanBehavior| SettingChangeView::CleanBehavior(x))
        + given(args.default_mode, |x: DefaultMode| SettingChangeView::DefaultMode(x))
        + given(args.min_size_mb, |x: u64| SettingChangeView::MinSizeMb(x))
        + given(args.ignored_projects, |l: String| SettingChangeView::IgnoredProjects(name_list(l@)))
}

/// What `settings config` does.
#[derive(Debug)]
pub enum SettingsUpdate {
    /// No option was given.
    NothingSpecified,
    /// An option was refused; nothing is written (a usage error).
    Invalid(Vec<String>),
    /// Save the configuration, then report the changes in order.
    Save { config: Config, changes: Vec<SettingChange> },
}

/// The configuration with every given option applied.
pub open spec fn updated(c: ConfigView, args: SettingsConfigArgs) -> ConfigView {
    ConfigView {
        version: c.version,
        projects_dir: match args.projects_dir {
            Some(d) => d@,
            None => c.projects_dir,
        },
        scope: match args.scope {
            Some(x) => x,
            None => c.scope,
        },
        clean_behavior: match args.clean_behavior {
            Some(x) => x,
            None => c.clean_behavior,
        },
        default_mode: match args.default_mode {
            Some(x) => x,
            None => c.default_mode,
        },
        min_size_mb: match args.min_size_mb {
            Some(x) => x,
            None => c.min_size_mb,
        },
        ignored_projects: match args.ignored_projects {
            Some(list) => name_list(list@),
            None => c.ignored_projects,
        },
    }
}

pub open spec fn any_option(args: SettingsConfigArgs) -> bool {
    args.projects_dir is Some || args.scope is Some || args.clean_behavior is Some || args.default_mode is Some
        || args.min_size_mb is Some || args.ignored_projects is Some
}

/// The message for a rule the updated configuration breaks.
pub open spec fn invalid_settings_message(e: ConfigErrorView) -> Seq<char> {
    "Invalid settings: "@ + ConfigError::spec_message(e) + "."@
}

/// What `settings config` does with the loaded configuration: a blank
/// projects directory is refused; otherwise every given option is applied and
/// the result must pass the configuration rules before it is saved.
pub open spec fn update_holds(r: SettingsUpdate, c: ConfigView, args: SettingsConfigArgs) -> bool {
    let blank_dir = args.projects_dir matches Some(d) && trimmed(d@).len() == 0;
    if blank_dir {
        r matches SettingsUpdate::Invalid(m) && views(m@) == seq!["Invalid projects-dir: must not be empty."@]
    } else if !any_option(args) {
        r is NothingSpecified
    } else {
        match check_config(updated(c, args)) {
            Err(e) => r matches SettingsUpdate::Invalid(m) && views(m@) == seq![invalid_settings_message(e)],
            Ok(_) => r matches SettingsUpdate::Save { config, changes } && config@ == updated(c, args)
                && change_views(changes@) == expected_changes(args),
        }
    }
}

fn text_of(s: &str) -> (r: String)
    ensures
        r@ == s@,
{
    let mut m = String::new();
    push_str(&mut m, s);
    assert(m@ =~= s@);
    m
}

fn record_change(changes: &mut Vec<SettingChange>, c: SettingChange)
    ensures
        change_views(final(changes)@) == change_views(old(changes)@).push(change_view(c)),
{
    let ghost before = changes@;
    changes.push(c);
    assert(change_views(changes@) =~= change_views(before).push(change_view(c)));
}

/// The configuration with every given option applied.
fn apply_values(config: Config, args: &SettingsConfigArgs) -> (r: Config)
    ensures
        r@ == updated(config@, *args),
{
    let ghost c0 = config@;
    let mut config = config;
    if let Some(dir) = &args.projects_dir {
        config.projects_dir = dir.clone();
    }
    if let Some(x) = args.scope {
        config.scope = x;
    }
    if let Some(x) = args.clean_behavior {
        config.clean_behavior = x;
    }
    if let Some(x) = args.default_mode {
        config.default_mode = x;
    }
    if let Some(x) = args.min_size_mb {
        config.min_size_mb = x;
    }
    if let Some(list) = &args.ignored_projects {
        config.ignored_projects = parse_name_list(list.as_str());
    }
    config
}

/// The changes of the given options, in option order.
fn list_changes(args: SettingsConfigArgs) -> (r: Vec<SettingChange>)
    ensures
        change_views(r@) == expected_changes(args),
{
    let ghost a = args;
    let mut changes: Vec<SettingChange> = Vec::new();
    let SettingsConfigArgs { projects_dir, scope, clean_behavior, default_mode, min_size_mb, ignored_projects } = args;
    let ghost e0 = given(a.projects_dir, |d: String| SettingChangeView::ProjectsDir(d@));
    let ghost e1 = given(a.scope, |x: Scope| SettingChangeView::Scope(x));
    let ghost e2 = given(a.clean_behavior, |x: CleanBehavior| SettingChangeView::CleanBehavior(x));
    let ghost e3 = given(a.default_mode, |x: DefaultMode| SettingChangeView::DefaultMode(x));
    let ghost e4 = given(a.min_size_mb, |x: u64| SettingChangeView::MinSizeMb(x));
    let ghost e5 = given(a.ignored_projects, |l: String| SettingChangeView::IgnoredProjects(name_list(l@)));
    assert(change_views(changes@) =~= Seq::<SettingChangeView>::empty());
    if let Some(dir) = projects_dir {
        record_change(&mut changes, SettingChange::ProjectsDir(dir));
    }
    assert(change_views(changes@) =~= e0);
    let ghost p1 = change_views(changes@);
    if let Some(x) = scope {
        record_change(&mut changes, SettingChange::Scope(x));
    }
    assert(change_views(changes@) =~= p1 + e1);
    let ghost p2 = change_views(changes@);
    if let Some(x) = clean_behavior {
        record_change(&mut changes, SettingChange::CleanBehavior(x));
    }
    assert(change_views(changes@) =~= p2 + e2);
    let ghost p3 = change_views(changes@);
    if let Some(x) = default_mode {
        record_change(&mut changes, SettingChange::DefaultMode(x));
    }
    assert(change_views(changes@) =~= p3 + e3);
    let ghost p4 = change_views(changes@);
    if let Some(x) = min_size_mb {
        record_change(&mut changes, SettingChange::MinSizeMb(x));
    }
    assert(change_views(changes@) =~= p4 + e4);
    let ghost p5 = change_views(changes@);
    if let Some(list) = ignored_projects {
        let names = parse_name_list(list.as_str());
        record_change(&mut changes, SettingChange::IgnoredProjects(names));
    }
    assert(change_views(changes@) =~= p5 + e5);
    changes
}

/// Applies `settings config` options to the loaded configuration.
pub fn update_settings(config: Config, args: SettingsConfigArgs) -> (r: SettingsUpdate)
    ensures
        update_holds(r, config@, args),
{
    let ghost c0 = config@;
    let ghost a = args;
    if let Some(dir) = &args.projects_dir {
        let t = trim(dir.as_str());
        if t.as_str().is_empty() {
            let mut messages: Vec<String> = Vec::new();
            messages.push(text_of("Invalid projects-dir: must not be empty."));
            assert(views(messages@) =~= seq!["Invalid projects-dir: must not be empty."@]);
            return SettingsUpdate::Invalid(messages);
        }
    }
    let any = args.projects_dir.is_some() || args.scope.is_some() || args.clean_behavior.is_some()
        || args.default_mode.is_some() || args.min_size_mb.is_some() || args.ignored_projects.is_some();
    let config = apply_values(config, &args);
    let changes = list_changes(args);
    if !any {
        return SettingsUpdate::NothingSpecified;
    }
    match config.validate() {
        Err(e) => {
            let mut m = text_of("Invalid settings: ");
            let text = e.message();
            push_str(&mut m, text.as_str());
            push_str(&mut m, ".");
            let mut messages: Vec<String> = Vec::new();
            messages.push(m);
            assert(views(messages@) =~= seq![invalid_settings_message(e@)]);
            SettingsUpdate::Invalid(messages)
        },
        Ok(()) => SettingsUpdate::Save { config, changes },
    }
}

/// What a `settings` subcommand does.
#[derive(Debug)]
pub enum SettingsStep {
    /// Show the stored configuration.
    Show(Config),
    /// No configuration file exists yet.
    ShowMissing,
    /// The configuration could not be loaded.
    LoadFailed(ConfigError),
    /// `settings config`.
    Update(SettingsUpdate),
    /// `settings reset`: write the defaults, after a confirmation unless `--yes`.
    Reset { confirm: bool },
}

/// Dispatches a `settings` subcommand given the result of loading the stored
/// configuration: `show` needs an existing file, `config` starts from the
/// defaults when none exists, `reset` ignores it.
pub fn run_settings(args: SettingsArgs, loaded: Result<Config, ConfigError>) -> (r: SettingsStep)
    ensures
        match args.action {
            SettingsAction::Show => match loaded {
                Ok(c) => r matches SettingsStep::Show(x) && x@ == c@,
                Err(ConfigError::Missing(_)) => r is ShowMissing,
                Err(e) => r matches SettingsStep::LoadFailed(x) && x@ == e@,
            },
            SettingsAction::Config(a) => match loaded {
                Ok(c) => r matches SettingsStep::Update(u) && update_holds(u, c@, a),
                Err(ConfigError::Missing(_)) => r matches SettingsStep::Update(u) && exists|d: Seq<char>|
                    update_holds(u, Config::spec_defaults(d), a),
                Err(e) => r matches SettingsStep::LoadFailed(x) && x@ == e@,
            },
            SettingsAction::Reset(reset) => r == (SettingsStep::Reset { confirm: !reset.yes }),
        },
{
    match args.action {
        SettingsAction::Show => match loaded {
            Ok(c) => SettingsStep::Show(c),
            Err(ConfigError::Missing(_)) => SettingsStep::ShowMissing,
            Err(e) => SettingsStep::LoadFailed(e),
        },
        SettingsAction::Config(a) => match Config::load_or_default(loaded) {
            Ok(c) => {
                let ghost cv = c@;
                let u = update_settings(c, a);
                SettingsStep::Update(u)
            },
            Err(e) => SettingsStep::LoadFailed(e),
        },
        SettingsAction::Reset(reset) => SettingsStep::Reset { confirm: !reset.yes },
    }
}

} // verus!
