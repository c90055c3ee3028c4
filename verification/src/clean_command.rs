//! The decisions of the `clean` command: a configuration is required, the
//! scan's projects are estimated, a dry run only reports the estimate, the
//! user is asked first unless `--yes` was given, and the exit status tells
//! whether cleaning met errors. The program loads, scans, estimates, asks,
//! cleans and prints, and hands back what each step gave.
use vstd::prelude::*;
use crate::cleaner::{
    count_results, counts_cleaned, counts_error, freed_total, mode_of, saturating_sum, summarize_results,
    CleanMode, CleanResult, CleanSummary,
};
use crate::cli::{apply_scan_overrides, overridden, OverrideError};
use crate::config::{check_config, CleanBehavior, Config, ConfigError};
use crate::project::{sat, DiscoveredProject};
use crate::scanner::ScanError;

verus! {

/// Where the command stands.
#[derive(PartialEq, Eq, Structural)]
pub enum CleanPhase {
    AwaitConfig,
    AwaitScan,
    Estimating,
    ShowingPlan,
    ShowingDryRun,
    AwaitAnswer,
    Cleaning,
    Stopped,
}

/// What the command does next.
pub enum CleanCmdAction {
    /// Load the configuration.
    Load,
    /// Scan with this configuration (overrides applied).
    Scan(Config),
    /// Estimate what cleaning the project at this index would free.
    Estimate(usize),
    /// Show the clean mode and behaviour.
    ShowPlan,
    /// Report what a dry run would free, then stop.
    ReportDryRun { count: usize, estimate: u64 },
    /// Ask the user whether to clean `count` projects to free about `estimate` bytes.
    Prompt { count: usize, estimate: u64 },
    /// Clean the project at this index (and show its result).
    Clean(usize),
    /// Exit with this status; `stop` says why.
    Done(i32),
}

/// What the last action gave.
pub enum CleanCmdEvent {
    Loaded(Result<Config, ConfigError>),
    Scanned(Result<Vec<DiscoveredProject>, ScanError>),
    Estimated(Result<u64, String>),
    Shown,
    Answered(Result<bool, String>),
    Cleaned(CleanResult),
}

/// Why the command stopped.
pub enum CleanStop {
    /// No configuration exists: setup must come first.
    MissingConfig,
    /// The configuration could not be loaded.
    ConfigFailed(ConfigError),
    /// `--path` or `--min-size-mb` was refused.
    BadOverride(OverrideError),
    ScanFailed(ScanError),
    /// The scan found no project.
    NothingFound,
    /// A dry run reported its estimate.
    DryRun,
    /// The user declined.
    Cancelled,
    /// Asking the user failed.
    ConfirmationFailed(String),
    /// The project at `index` could not be estimated.
    EstimateFailed { index: usize, message: String },
    /// Cleaning ran; its summary.
    Finished(CleanSummary),
}

/// One run of the `clean` command.
pub struct CleanCommand {
    pub dry_run: bool,
    /// `--yes`: clean without asking.
    pub yes: bool,
    /// `--path`, until it is applied.
    pub path: Option<String>,
    pub min_size: Option<u64>,
    /// `--mode`, if given.
    pub mode_arg: Option<CleanMode>,
    pub phase: CleanPhase,
    /// The mode used: `--mode`, else the configuration's default mode.
    pub mode: CleanMode,
    pub behavior: CleanBehavior,
    pub projects: Vec<DiscoveredProject>,
    pub estimates: Vec<u64>,
    pub total_estimate: u64,
    /// The user agreed to clean.
    pub confirmed: bool,
    pub results: Vec<CleanResult>,
    /// The project being estimated or cleaned.
    pub next: usize,
    pub stop: Option<CleanStop>,
}

/// The exit status once cleaning ran: 1 when any project met errors.
pub open spec fn finished_status(s: CleanSummary) -> i32 {
    if s.errors > 0 {
        1
    } else {
        0
    }
}

impl CleanCommand {
    /// The command's bookkeeping is consistent.
    pub open spec fn wf(&self) -> bool {
        &&& self.phase == CleanPhase::Estimating ==> {
            &&& self.next < self.projects@.len()
            &&& self.estimates@.len() == self.next
            &&& self.total_estimate == saturating_sum(self.estimates@)
        }
        &&& (self.phase == CleanPhase::ShowingPlan || self.phase == CleanPhase::ShowingDryRun || self.phase
            == CleanPhase::AwaitAnswer || self.phase == CleanPhase::Cleaning) ==> {
            &&& self.projects@.len() > 0
            &&& self.estimates@.len() == self.projects@.len()
            &&& self.total_estimate == saturating_sum(self.estimates@)
        }
        &&& self.phase == CleanPhase::ShowingDryRun ==> self.dry_run
        &&& self.phase == CleanPhase::AwaitAnswer ==> !self.dry_run && !self.yes
        &&& self.phase == CleanPhase::Cleaning ==> {
            &&& !self.dry_run
            &&& self.yes || self.confirmed
            &&& self.next < self.projects@.len()
            &&& self.results@.len() == self.next
        }
        &&& self.confirmed ==> !self.dry_run
    }

    /// Whether `event` answers the action the command asked for last.
    pub open spec fn expects(&self, event: CleanCmdEvent) -> bool {
        match self.phase {
            CleanPhase::AwaitConfig => event is Loaded,
            CleanPhase::AwaitScan => event is Scanned,
            CleanPhase::Estimating => event is Estimated,
            CleanPhase::ShowingPlan | CleanPhase::ShowingDryRun => event is Shown,
            CleanPhase::AwaitAnswer => event is Answered,
            CleanPhase::Cleaning => event is Cleaned,
            CleanPhase::Stopped => false,
        }
    }

    /// Starts the command: the configuration is loaded first.
    pub fn start(
        dry_run: bool,
        yes: bool,
        path: Option<String>,
        min_size: Option<u64>,
        mode: Option<CleanMode>,
    ) -> (r: (CleanCommand, CleanCmdAction))
        ensures
            r.0.wf(),
            r.0.phase == CleanPhase::AwaitConfig,
            r.0.dry_run == dry_run && r.0.yes == yes && r.0.path == path && r.0.min_size == min_size
                && r.0.mode_arg == mode,
            !r.0.confirmed,
            r.1 is Load,
    {
        let run = CleanCommand {
            dry_run,
            yes,
            path,
            min_size,
            mode_arg: mode,
            phase: CleanPhase::AwaitConfig,
            mode: CleanMode::Full,
            behavior: CleanBehavior::Delete,
            projects: Vec::new(),
            estimates: Vec::new(),
            total_estimate: 0,
            confirmed: false,
            results: Vec::new(),
            next: 0,
            stop: None,
        };
        (run, CleanCmdAction::Load)
    }

    fn stop_with(&mut self, why: CleanStop, code: i32) -> (r: CleanCmdAction)
        ensures
            final(self).phase == CleanPhase::Stopped,
            final(self).stop == Some(why),
            r == CleanCmdAction::Done(code),
            final(self).dry_run == old(self).dry_run && final(self).yes == old(self).yes,
            final(self).confirmed == old(self).confirmed,
            final(self).projects == old(self).projects && final(self).results == old(self).results,
            final(self).estimates == old(self).estimates && final(self).total_estimate == old(self).total_estimate,
    {
        self.phase = CleanPhase::Stopped;
        self.stop = Some(why);
        CleanCmdAction::Done(code)
    }

    /// What comes once every project is estimated and the plan was shown:
    /// a dry run reports; with `--yes` cleaning starts; else the user is asked.
    fn after_plan(&mut self) -> (r: CleanCmdAction)
        requires
            old(self).phase == CleanPhase::ShowingPlan,
            old(self).wf(),
        ensures
            final(self).wf(),
            final(self).projects@ == old(self).projects@ && final(self).total_estimate == old(self).total_estimate,
            final(self).estimates@ == old(self).estimates@,
            final(self).dry_run == old(self).dry_run && final(self).yes == old(self).yes,
            final(self).confirmed == old(self).confirmed,
            if old(self).dry_run {
                &&& final(self).phase == CleanPhase::ShowingDryRun
                &&& r matches CleanCmdAction::ReportDryRun { count, estimate } && count == old(self).projects@.len()
                    && estimate == old(self).total_estimate
            } else if old(self).yes {
                &&& final(self).phase == CleanPhase::Cleaning && final(self).next == 0
                &&& r == CleanCmdAction::Clean(0)
            } else {
                &&& final(self).phase == CleanPhase::AwaitAnswer
                &&& r matches CleanCmdAction::Prompt { count, estimate } && count == old(self).projects@.len()
                    && estimate == old(self).total_estimate
            },
    {
        let count = self.projects.len();
        if self.dry_run {
            self.phase = CleanPhase::ShowingDryRun;
            CleanCmdAction::ReportDryRun { count, estimate: self.total_estimate }
        } else if self.yes {
            self.phase = CleanPhase::Cleaning;
            self.next = 0;
            self.results = Vec::new();
            CleanCmdAction::Clean(0)
        } else {
            self.phase = CleanPhase::AwaitAnswer;
            CleanCmdAction::Prompt { count, estimate: self.total_estimate }
        }
    }

    /// Takes what the last action gave and says what to do next.
    ///
    /// Without a configuration the command stops with status 1; a failed
    /// estimate stops it with status 1; a dry run reports the estimate and
    /// never cleans; nothing is cleaned before the user agreed, unless
    /// `--yes` was given; declining stops it with status 0; once cleaning
    /// ran, the status is 1 exactly when some project met errors.
    pub fn step(&mut self, event: CleanCmdEvent) -> (r: CleanCmdAction)
        requires
            old(self).wf(),
            old(self).expects(event),
        ensures
            final(self).wf(),
            final(self).dry_run == old(self).dry_run && final(self).yes == old(self).yes,
            old(self).dry_run ==> !(r is Clean),
            r is Clean ==> old(self).yes || final(self).confirmed,
            r matches CleanCmdAction::Prompt { count, estimate } ==> count == final(self).projects@.len()
                && estimate == saturating_sum(final(self).estimates@),
            r matches CleanCmdAction::ReportDryRun { count, estimate } ==> count == final(self).projects@.len()
                && estimate == saturating_sum(final(self).estimates@),
            r is Done <==> final(self).phase == CleanPhase::Stopped,
            match event {
                CleanCmdEvent::Loaded(Err(ConfigError::Missing(_))) => r == CleanCmdAction::Done(1)
                    && final(self).stop == Some(CleanStop::MissingConfig),
                CleanCmdEvent::Loaded(Err(e)) => r == CleanCmdAction::Done(1)
                    && final(self).stop == Some(CleanStop::ConfigFailed(e)),
                CleanCmdEvent::Loaded(Ok(c)) => match old(self).path {
                    Some(p) if crate::text::trimmed(p@).len() == 0 => r == CleanCmdAction::Done(2)
                        && final(self).stop == Some(CleanStop::BadOverride(OverrideError::EmptyPath)),
                    _ => {
                        let o = overridden(c@, match old(self).path {
                            Some(p) => Some(p@),
                            None => None,
                        }, old(self).min_size);
                        match check_config(o) {
                            Err(e) => r == CleanCmdAction::Done(2) && (final(self).stop matches Some(
                                CleanStop::BadOverride(OverrideError::Invalid(x)),
                            ) && x@ == e),
                            Ok(_) => {
                                &&& r matches CleanCmdAction::Scan(s) && s@ == o
                                &&& final(self).phase == CleanPhase::AwaitScan
                                &&& final(self).behavior == o.clean_behavior
                                &&& final(self).mode == match old(self).mode_arg {
                                    Some(m) => m,
                                    None => mode_of(o.default_mode),
                                }
                            },
                        }
                    },
                },
                CleanCmdEvent::Scanned(Err(e)) => r == CleanCmdAction::Done(1) && final(self).stop == Some(
                    CleanStop::ScanFailed(e),
                ),
                CleanCmdEvent::Scanned(Ok(ps)) => final(self).projects@ == ps@ && (if ps@.len() == 0 {
                    r == CleanCmdAction::Done(0) && final(self).stop == Some(CleanStop::NothingFound)
                } else {
                    r == CleanCmdAction::Estimate(0) && final(self).phase == CleanPhase::Estimating
                }),
                CleanCmdEvent::Estimated(Err(m)) => r == CleanCmdAction::Done(1) && final(self).stop == Some(
                    CleanStop::EstimateFailed { index: old(self).next, message: m },
                ),
                CleanCmdEvent::Estimated(Ok(n)) => {
                    &&& final(self).estimates@ == old(self).estimates@.push(n)
                    &&& final(self).projects@ == old(self).projects@
                    &&& if old(self).next + 1 < old(self).projects@.len() {
                        r == CleanCmdAction::Estimate((old(self).next + 1) as usize)
                    } else {
                        r is ShowPlan && final(self).phase == CleanPhase::ShowingPlan
                    }
                },
                CleanCmdEvent::Shown => if old(self).phase == CleanPhase::ShowingDryRun {
                    r == CleanCmdAction::Done(0) && final(self).stop == Some(CleanStop::DryRun)
                } else if old(self).dry_run {
                    r matches CleanCmdAction::ReportDryRun { count, estimate } && count == old(self).projects@.len()
                        && estimate == old(self).total_estimate
                } else if old(self).yes {
                    r == CleanCmdAction::Clean(0)
                } else {
                    r matches CleanCmdAction::Prompt { count, estimate } && count == old(self).projects@.len()
                        && estimate == old(self).total_estimate
                },
                CleanCmdEvent::Answered(Ok(true)) => r == CleanCmdAction::Clean(0) && final(self).confirmed,
                CleanCmdEvent::Answered(Ok(false)) => r == CleanCmdAction::Done(0) && final(self).stop == Some(
                    CleanStop::Cancelled,
                ),
                CleanCmdEvent::Answered(Err(m)) => r == CleanCmdAction::Done(1) && final(self).stop == Some(
                    CleanStop::ConfirmationFailed(m),
                ),
                CleanCmdEvent::Cleaned(res) => {
                    &&& final(self).results@ == old(self).results@.push(res)
                    &&& final(self).projects@ == old(self).projects@
                    &&& if old(self).next + 1 < old(self).projects@.len() {
                        r == CleanCmdAction::Clean((old(self).next + 1) as usize)
                    } else {
                        (final(self).stop matches Some(CleanStop::Finished(s)) && {
                            &&& s.total_freed == freed_total(final(self).results@)
                            &&& s.cleaned == count_results(final(self).results@, |x: CleanResult| counts_cleaned(x))
                            &&& s.errors == count_results(final(self).results@, |x: CleanResult| counts_error(x))
                            &&& r == CleanCmdAction::Done(finished_status(s))
                        })
                    }
                },
            },
    {
        match event {
            CleanCmdEvent::Loaded(loaded) => match loaded {
                Err(ConfigError::Missing(_)) => self.stop_with(CleanStop::MissingConfig, 1),
                Err(e) => self.stop_with(CleanStop::ConfigFailed(e), 1),
                Ok(config) => {
                    let mut config = config;
                    let path = self.path.take();
                    match apply_scan_overrides(&mut config, path, self.min_size) {
                        Err(o) => self.stop_with(CleanStop::BadOverride(o), 2),
                        Ok(()) => {
                            self.behavior = config.clean_behavior;
                            self.mode = match self.mode_arg {
                                Some(m) => m,
                                None => CleanMode::from(config.default_mode),
                            };
                            self.phase = CleanPhase::AwaitScan;
                            CleanCmdAction::Scan(config)
                        },
                    }
                },
            },
            CleanCmdEvent::Scanned(scanned) => match scanned {
                Err(e) => self.stop_with(CleanStop::ScanFailed(e), 1),
                Ok(ps) => {
                    self.projects = ps;
                    if self.projects.len() == 0 {
                        self.stop_with(CleanStop::NothingFound, 0)
                    } else {
                        self.estimates = Vec::new();
                        self.total_estimate = 0;
                        self.next = 0;
                        self.phase = CleanPhase::Estimating;
                        CleanCmdAction::Estimate(0)
                    }
                },
            },
            CleanCmdEvent::Estimated(estimated) => match estimated {
                Err(m) => {
                    let index = self.next;
                    self.stop_with(CleanStop::EstimateFailed { index, message: m }, 1)
                },
                Ok(n) => {
                    let ghost before = self.estimates@;
                    self.estimates.push(n);
                    assert(self.estimates@.drop_last() =~= before);
                    self.total_estimate = self.total_estimate.saturating_add(n);
                    let count = self.projects.len();
                    self.next = self.next + 1;
                    if self.next < count {
                        CleanCmdAction::Estimate(self.next)
                    } else {
                        self.phase = CleanPhase::ShowingPlan;
                        CleanCmdAction::ShowPlan
                    }
                },
            },
            CleanCmdEvent::Shown => {
                if self.phase == CleanPhase::ShowingDryRun {
                    self.stop_with(CleanStop::DryRun, 0)
                } else {
                    self.after_plan()
                }
            },
            CleanCmdEvent::Answered(answer) => match answer {
                Ok(true) => {
                    self.confirmed = true;
                    self.phase = CleanPhase::Cleaning;
                    self.next = 0;
                    self.results = Vec::new();
                    CleanCmdAction::Clean(0)
                },
                Ok(false) => self.stop_with(CleanStop::Cancelled, 0),
                Err(m) => self.stop_with(CleanStop::ConfirmationFailed(m), 1),
            },
            CleanCmdEvent::Cleaned(res) => {
                self.results.push(res);
                let count = self.projects.len();
                self.next = self.next + 1;
                if self.next < count {
                    CleanCmdAction::Clean(self.next)
                } else {
                    let summary = summarize_results(&self.results);
                    let code: i32 = if summary.errors > 0 {
                        1
                    } else {
                        0
                    };
                    self.stop_with(CleanStop::Finished(summary), code)
                }
            },
        }
    }
}

} // verus!
