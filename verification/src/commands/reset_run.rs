//! Carrying out a reset, one action at a time, and the confirmation that
//! must come before it.
//!
//! Forests go first, while the configuration that describes them is still
//! there; the configuration and the state go last.

use crate::commands::new_run::{remove_args, worktree_remove_args};
use crate::commands::reset::{
    plan_reset, reset_planned, ConfigLoadView, FileResetEntry, FileResetEntryView, ForestInfoView,
    ForestResetEntry, ForestResetEntryView, ResetError, ResetFacts, ResetFactsView, ResetPlan,
    ResetPlanView, ResetProgress, ResetProgressView, ResetResult, ResetResultView,
};
use crate::git::{clone_args, no_args, Outcome, OutcomeView};
use crate::paths::{inside, is_inside};
use crate::seqs::{lemma_view_each_push, view_each};
use vstd::prelude::*;
use vstd::string::*;

verus! {

/// What the caller is asked to do.
#[derive(Debug)]
pub enum ResetAction {
    /// Let the user know; any outcome will do.
    Report { progress: ResetProgress },
    /// Run git in `repo` with `args`.
    Git { repo: String, args: Vec<String> },
    /// Say whether the path exists: done if it does, failed if it does not.
    Exists { path: String },
    /// Remove the directory and all below it.
    RemoveDirAll { path: String },
    /// Remove the file.
    RemoveFile { path: String },
}

/// The mathematical content of a [`ResetAction`].
pub enum ResetActionView {
    Report { progress: ResetProgressView },
    Git { repo: Seq<char>, args: Seq<Seq<char>> },
    Exists { path: Seq<char> },
    RemoveDirAll { path: Seq<char> },
    RemoveFile { path: Seq<char> },
}

impl View for ResetAction {
    type V = ResetActionView;

    open spec fn view(&self) -> ResetActionView {
        match *self {
            ResetAction::Report { progress } => ResetActionView::Report { progress: progress@ },
            ResetAction::Git { repo, args } => ResetActionView::Git {
                repo: repo@,
                args: view_each(args@),
            },
            ResetAction::Exists { path } => ResetActionView::Exists { path: path@ },
            ResetAction::RemoveDirAll { path } => ResetActionView::RemoveDirAll { path: path@ },
            ResetAction::RemoveFile { path } => ResetActionView::RemoveFile { path: path@ },
        }
    }
}

/// Where a reset stands: which action it waits for.
#[derive(Debug, Clone, Copy, PartialEq, Eq, Structural)]
pub enum ResetStage {
    /// A forest's turn is being announced.
    Starting,
    /// A worktree of the forest is being unregistered from its source.
    Unregistering,
    /// Whether the forest's directory exists is being asked.
    Probing,
    /// The forest's directory is being removed.
    Removing,
    /// The forest's result is being announced.
    Reporting,
    /// The configuration file is being deleted.
    DeletingConfig,
    /// The state file is being deleted.
    DeletingState,
}

/// The mathematical content of a [`ResetRun`].
pub struct ResetRunView {
    pub plan: ResetPlanView,
    pub stage: ResetStage,
    /// The forest whose turn it is.
    pub forest: nat,
    /// The worktree of that forest that is being unregistered.
    pub repo: nat,
    /// What became of the forests before it.
    pub entries: Seq<ForestResetEntryView>,
    /// The errors met so far.
    pub errors: Seq<Seq<char>>,
    /// Whether the configuration file was deleted.
    pub config_deleted: bool,
}

/// The mathematical content of a [`ResetStep`].
pub enum ResetStepView {
    Perform { run: ResetRunView, action: ResetActionView },
    Finished { result: ResetResultView },
}

pub open spec fn unregister_warning(worktree: Seq<char>, e: Seq<char>) -> Seq<char> {
    "warning: git worktree remove failed for "@ + worktree + ": "@ + e
}

pub open spec fn forest_failed_text(name: Seq<char>, e: Seq<char>) -> Seq<char> {
    "failed to remove forest "@ + name + ": "@ + e
}

pub open spec fn delete_failed_text(path: Seq<char>, e: Seq<char>) -> Seq<char> {
    "failed to delete "@ + path + ": "@ + e
}

impl ResetPlanView {
    /// Every worktree of every forest lies inside the forest's directory.
    pub open spec fn contained(self) -> bool {
        forall|f: int, j: int|
            0 <= f < self.forests.len() && 0 <= j < self.forests[f].repos.len() ==> inside(
                self.forests[f].path,
                (#[trigger] self.forests[f].repos[j]).worktree_dir,
            )
    }

    /// What a reset would do: every file that exists would be deleted, and
    /// every forest whose directory is present would be removed. A preview
    /// that is no dry run says that confirmation is required.
    pub open spec fn preview(self, present: Seq<bool>, dry_run: bool) -> ResetResultView {
        ResetResultView {
            dry_run,
            confirm_required: !dry_run,
            config_only: self.config_only,
            config_file: FileResetEntryView {
                path: self.config_path,
                existed: self.config_exists,
                deleted: self.config_exists,
            },
            state_file: FileResetEntryView {
                path: self.state_path,
                existed: self.state_exists,
                deleted: self.state_exists,
            },
            forests: Seq::new(
                self.forests.len(),
                |i: int|
                    ForestResetEntryView {
                        name: self.forests[i].name,
                        path: self.forests[i].path,
                        removed: present[i],
                    },
            ),
            warnings: self.warnings,
            errors: Seq::empty(),
        }
    }
}

impl ResetRunView {
    /// The stages in which forests are torn down.
    pub open spec fn at_forests(self) -> bool {
        !(self.stage is DeletingConfig) && !(self.stage is DeletingState)
    }

    /// The counters of a run are within the plan.
    pub open spec fn wf(self) -> bool {
        &&& self.plan.contained()
        &&& self.forest <= self.plan.forests.len()
        &&& self.at_forests() <==> self.forest < self.plan.forests.len()
        &&& self.stage is Unregistering ==> self.repo < self.cur().repos.len()
        &&& self.entries.len() == if self.stage is Reporting {
            self.forest + 1
        } else {
            self.forest
        }
    }

    /// The forest whose turn it is.
    pub open spec fn cur(self) -> ForestInfoView {
        self.plan.forests[self.forest as int]
    }

    /// The run with one more error.
    pub open spec fn with_error(self, text: Seq<char>) -> ResetRunView {
        ResetRunView { errors: self.errors.push(text), ..self }
    }

    /// The run asks for `action` and waits in `stage`.
    pub open spec fn ask(self, stage: ResetStage, action: ResetActionView) -> ResetStepView {
        ResetStepView::Perform { run: ResetRunView { stage, ..self }, action }
    }

    /// The end of the run.
    pub open spec fn finished(self, state_deleted: bool) -> ResetStepView {
        ResetStepView::Finished {
            result: ResetResultView {
                dry_run: false,
                confirm_required: false,
                config_only: self.plan.config_only,
                config_file: FileResetEntryView {
                    path: self.plan.config_path,
                    existed: self.plan.config_exists,
                    deleted: self.config_deleted,
                },
                state_file: FileResetEntryView {
                    path: self.plan.state_path,
                    existed: self.plan.state_exists,
                    deleted: state_deleted,
                },
                forests: self.entries,
                warnings: self.plan.warnings,
                errors: self.errors,
            },
        }
    }

    /// The state file's turn: it is deleted if it exists.
    pub open spec fn state_step(self) -> ResetStepView {
        if self.plan.state_exists {
            self.ask(
                ResetStage::DeletingState,
                ResetActionView::RemoveFile { path: self.plan.state_path },
            )
        } else {
            self.finished(false)
        }
    }

    /// The files' turn, after the last forest: the configuration first.
    pub open spec fn files(self) -> ResetStepView {
        if self.plan.config_exists {
            self.ask(
                ResetStage::DeletingConfig,
                ResetActionView::RemoveFile { path: self.plan.config_path },
            )
        } else {
            self.state_step()
        }
    }

    /// The turn of forest `forest`, or, past the last one, of the files.
    pub open spec fn enter(self, forest: nat) -> ResetStepView {
        let at = ResetRunView { forest, ..self };
        if forest < self.plan.forests.len() {
            at.ask(
                ResetStage::Starting,
                ResetActionView::Report {
                    progress: ResetProgressView::ForestStarting {
                        name: at.cur().name,
                        path: at.cur().path,
                    },
                },
            )
        } else {
            at.files()
        }
    }

    /// Worktree `repo` of the forest is unregistered; past the last one,
    /// the forest's directory is asked about.
    pub open spec fn unregister(self, repo: nat) -> ResetStepView {
        let at = ResetRunView { repo, ..self };
        if repo < self.cur().repos.len() {
            at.ask(
                ResetStage::Unregistering,
                ResetActionView::Git {
                    repo: self.cur().repos[repo as int].source,
                    args: remove_args(self.cur().repos[repo as int].worktree_dir),
                },
            )
        } else {
            at.ask(ResetStage::Probing, ResetActionView::Exists { path: self.cur().path })
        }
    }

    /// The forest's result is settled and announced.
    pub open spec fn settle(self, removed: bool) -> ResetStepView {
        let entry = ForestResetEntryView { name: self.cur().name, path: self.cur().path, removed };
        (ResetRunView { entries: self.entries.push(entry), ..self }).ask(
            ResetStage::Reporting,
            ResetActionView::Report { progress: ResetProgressView::ForestDone { entry } },
        )
    }

    /// What follows the outcome of the action that the run waits for.
    pub open spec fn next(self, outcome: OutcomeView) -> ResetStepView {
        match self.stage {
            ResetStage::Starting => self.unregister(0),
            ResetStage::Unregistering => match outcome {
                OutcomeView::Done { .. } => self.unregister(self.repo + 1),
                OutcomeView::Failed { error } => self.with_error(
                    unregister_warning(self.cur().repos[self.repo as int].worktree_dir, error),
                ).unregister(self.repo + 1),
            },
            ResetStage::Probing => match outcome {
                OutcomeView::Done { .. } => self.ask(
                    ResetStage::Removing,
                    ResetActionView::RemoveDirAll { path: self.cur().path },
                ),
                OutcomeView::Failed { .. } => self.settle(false),
            },
            ResetStage::Removing => match outcome {
                OutcomeView::Done { .. } => self.settle(true),
                OutcomeView::Failed { error } => self.with_error(
                    forest_failed_text(self.cur().name, error),
                ).settle(false),
            },
            ResetStage::Reporting => self.enter(self.forest + 1),
            ResetStage::DeletingConfig => match outcome {
                OutcomeView::Done { .. } => (ResetRunView {
                    config_deleted: true,
                    ..self
                }).state_step(),
                OutcomeView::Failed { error } => self.with_error(
                    delete_failed_text(self.plan.config_path, error),
                ).state_step(),
            },
            ResetStage::DeletingState => match outcome {
                OutcomeView::Done { .. } => self.finished(true),
                OutcomeView::Failed { error } => self.with_error(
                    delete_failed_text(self.plan.state_path, error),
                ).finished(false),
            },
        }
    }
}

/// How the execution of a reset begins: with the first forest's turn.
pub open spec fn reset_begin(plan: ResetPlanView) -> ResetStepView {
    (ResetRunView {
        plan,
        stage: ResetStage::Starting,
        forest: 0,
        repo: 0,
        entries: Seq::empty(),
        errors: Seq::empty(),
        config_deleted: false,
    }).enter(0)
}

/// The confirmation step. A dry run answers with the preview and does nothing. Without
/// confirmation the same preview is the answer, marked as waiting for
/// confirmation. Only a confirmed reset that is no dry run is carried out.
pub open spec fn reset_started(
    confirm: bool,
    dry_run: bool,
    plan: ResetPlanView,
    present: Seq<bool>,
) -> ResetStepView {
    if dry_run {
        ResetStepView::Finished { result: plan.preview(present, true) }
    } else if !confirm {
        ResetStepView::Finished { result: plan.preview(present, false) }
    } else {
        reset_begin(plan)
    }
}

impl ResetPlan {
    /// Whether every worktree of every forest lies inside the forest's
    /// directory.
    pub fn is_contained(&self) -> (r: bool)
        ensures
            r == self@.contained(),
    {
        let mut f: usize = 0;
        while f < self.forests.len()
            invariant
                f <= self.forests.len(),
                forall|a: int, j: int|
                    0 <= a < f && 0 <= j < self@.forests[a].repos.len() ==> inside(
                        self@.forests[a].path,
                        (#[trigger] self@.forests[a].repos[j]).worktree_dir,
                    ),
            decreases self.forests.len() - f,
        {
            let forest = &self.forests[f];
            assert(self@.forests[f as int] == forest@);
            let mut j: usize = 0;
            while j < forest.repos.len()
                invariant
                    j <= forest.repos.len(),
                    f < self.forests.len(),
                    self@.forests[f as int] == forest@,
                    forall|b: int|
                        0 <= b < j ==> inside(
                            forest@.path,
                            (#[trigger] forest@.repos[b]).worktree_dir,
                        ),
                decreases forest.repos.len() - j,
            {
                assert(forest@.repos[j as int] == forest.repos@[j as int]@);
                if !is_inside(forest.path.as_str(), forest.repos[j].worktree_dir.as_str()) {
                    return false;
                }
                j += 1;
            }
            f += 1;
        }
        true
    }

    fn preview(&self, present: &Vec<bool>, dry_run: bool) -> (r: ResetResult)
        requires
            present.len() == self.forests.len(),
        ensures
            r@ == self@.preview(present@, dry_run),
    {
        let mut forests: Vec<ForestResetEntry> = Vec::new();
        let mut i: usize = 0;
        while i < self.forests.len()
            invariant
                i <= self.forests.len(),
                present.len() == self.forests.len(),
                view_each(forests@) == Seq::new(
                    i as nat,
                    |k: int|
                        ForestResetEntryView {
                            name: self@.forests[k].name,
                            path: self@.forests[k].path,
                            removed: present@[k],
                        },
                ),
            decreases self.forests.len() - i,
        {
            let f = &self.forests[i];
            let item = ForestResetEntry {
                name: f.name.clone(),
                path: f.path.clone(),
                removed: present[i],
            };
            proof {
                assert(self@.forests[i as int] == f@);
                lemma_view_each_push(forests@, item);
                assert(Seq::new(
                    (i + 1) as nat,
                    |k: int|
                        ForestResetEntryView {
                            name: self@.forests[k].name,
                            path: self@.forests[k].path,
                            removed: present@[k],
                        },
                ) =~= Seq::new(
                    i as nat,
                    |k: int|
                        ForestResetEntryView {
                            name: self@.forests[k].name,
                            path: self@.forests[k].path,
                            removed: present@[k],
                        },
                ).push(item@));
            }
            forests.push(item);
            i += 1;
        }
        ResetResult {
            dry_run,
            confirm_required: !dry_run,
            config_only: self.config_only,
            config_file: FileResetEntry {
                path: self.config_path.clone(),
                existed: self.config_exists,
                deleted: self.config_exists,
            },
            state_file: FileResetEntry {
                path: self.state_path.clone(),
                existed: self.state_exists,
                deleted: self.state_exists,
            },
            forests,
            warnings: clone_args(&self.warnings),
            errors: no_args(),
        }
    }
}

/// What a dry run of the reset reports. `present` says of each forest of
/// the plan whether its directory exists.
pub fn plan_to_dry_run(plan: &ResetPlan, present: &Vec<bool>) -> (r: ResetResult)
    requires
        present.len() == plan.forests.len(),
    ensures
        r@ == plan@.preview(present@, true),
{
    plan.preview(present, true)
}

/// What a reset that is not confirmed reports: the preview, and that
/// confirmation is required.
pub fn plan_to_confirm_required(plan: &ResetPlan, present: &Vec<bool>) -> (r: ResetResult)
    requires
        present.len() == plan.forests.len(),
    ensures
        r@ == plan@.preview(present@, false),
{
    plan.preview(present, false)
}

/// A reset under way.
#[derive(Debug)]
pub struct ResetRun {
    plan: ResetPlan,
    stage: ResetStage,
    forest: usize,
    repo: usize,
    entries: Vec<ForestResetEntry>,
    errors: Vec<String>,
    config_deleted: bool,
}

impl View for ResetRun {
    type V = ResetRunView;

    closed spec fn view(&self) -> ResetRunView {
        ResetRunView {
            plan: self.plan@,
            stage: self.stage,
            forest: self.forest as nat,
            repo: self.repo as nat,
            entries: view_each(self.entries@),
            errors: view_each(self.errors@),
            config_deleted: self.config_deleted,
        }
    }
}

/// Where a reset stands: an action to perform, or the result.
#[derive(Debug)]
pub enum ResetStep {
    Perform { run: ResetRun, action: ResetAction },
    Finished { result: ResetResult },
}

impl View for ResetStep {
    type V = ResetStepView;

    open spec fn view(&self) -> ResetStepView {
        match *self {
            ResetStep::Perform { run, action } => ResetStepView::Perform {
                run: run@,
                action: action@,
            },
            ResetStep::Finished { result } => ResetStepView::Finished { result: result@ },
        }
    }
}

fn text4(a: &str, b: &str, c: &str, d: &str) -> (r: String)
    ensures
        r@ == a@ + b@ + c@ + d@,
{
    let mut s = String::from_str(a);
    s.append(b);
    s.append(c);
    s.append(d);
    s
}

impl ResetRun {
    #[verifier::type_invariant]
    spec fn inv(self) -> bool {
        self@.wf()
    }

    fn with_error(self, text: String) -> (r: ResetRun)
        requires
            self@.wf(),
        ensures
            r@ == self@.with_error(text@),
    {
        let mut errors = self.errors;
        proof {
            lemma_view_each_push(errors@, text);
        }
        errors.push(text);
        ResetRun { errors, ..self }
    }

    fn finished(self, state_deleted: bool) -> (r: ResetStep)
        ensures
            r@ == self@.finished(state_deleted),
    {
        ResetStep::Finished {
            result: ResetResult {
                dry_run: false,
                confirm_required: false,
                config_only: self.plan.config_only,
                config_file: FileResetEntry {
                    path: self.plan.config_path,
                    existed: self.plan.config_exists,
                    deleted: self.config_deleted,
                },
                state_file: FileResetEntry {
                    path: self.plan.state_path,
                    existed: self.plan.state_exists,
                    deleted: state_deleted,
                },
                forests: self.entries,
                warnings: self.plan.warnings,
                errors: self.errors,
            },
        }
    }

    fn state_step(self) -> (r: ResetStep)
        requires
            self@.wf(),
            !self@.at_forests(),
        ensures
            r@ == self@.state_step(),
    {
        if self.plan.state_exists {
            let path = self.plan.state_path.clone();
            ResetStep::Perform {
                run: ResetRun { stage: ResetStage::DeletingState, ..self },
                action: ResetAction::RemoveFile { path },
            }
        } else {
            self.finished(false)
        }
    }

    fn enter(self, forest: usize) -> (r: ResetStep)
        requires
            forest <= self.plan.forests.len(),
            self.entries.len() == forest,
            self@.plan.contained(),
        ensures
            r@ == self@.enter(forest as nat),
    {
        if forest < self.plan.forests.len() {
            let f = &self.plan.forests[forest];
            assert(self@.plan.forests[forest as int] == f@);
            let name = f.name.clone();
            let path = f.path.clone();
            ResetStep::Perform {
                run: ResetRun { forest, stage: ResetStage::Starting, ..self },
                action: ResetAction::Report {
                    progress: ResetProgress::ForestStarting { name, path },
                },
            }
        } else if self.plan.config_exists {
            let path = self.plan.config_path.clone();
            ResetStep::Perform {
                run: ResetRun { forest, stage: ResetStage::DeletingConfig, ..self },
                action: ResetAction::RemoveFile { path },
            }
        } else {
            let run = ResetRun { forest, stage: ResetStage::DeletingConfig, ..self };
            run.state_step()
        }
    }

    fn unregister(self, repo: usize) -> (r: ResetStep)
        requires
            self@.wf(),
            self@.stage is Starting || self@.stage is Unregistering,
            repo <= self@.cur().repos.len(),
        ensures
            r@ == self@.unregister(repo as nat),
    {
        assert(self.forest < self.plan.forests.len());
        let f = &self.plan.forests[self.forest];
        assert(self@.cur() == f@);
        if repo < f.repos.len() {
            let info = &f.repos[repo];
            assert(f@.repos[repo as int] == info@);
            let source = info.source.display();
            let args = worktree_remove_args(info.worktree_dir.as_str());
            ResetStep::Perform {
                run: ResetRun { repo, stage: ResetStage::Unregistering, ..self },
                action: ResetAction::Git { repo: source, args },
            }
        } else {
            let path = f.path.clone();
            ResetStep::Perform {
                run: ResetRun { repo, stage: ResetStage::Probing, ..self },
                action: ResetAction::Exists { path },
            }
        }
    }

    fn settle(self, removed: bool) -> (r: ResetStep)
        requires
            self@.wf(),
            self@.stage is Probing || self@.stage is Removing,
        ensures
            r@ == self@.settle(removed),
    {
        assert(self.forest < self.plan.forests.len());
        let f = &self.plan.forests[self.forest];
        assert(self@.cur() == f@);
        let entry = ForestResetEntry { name: f.name.clone(), path: f.path.clone(), removed };
        let announced = entry.clone();
        let mut entries = self.entries;
        proof {
            lemma_view_each_push(entries@, entry);
        }
        entries.push(entry);
        ResetStep::Perform {
            run: ResetRun { entries, stage: ResetStage::Reporting, ..self },
            action: ResetAction::Report { progress: ResetProgress::ForestDone { entry: announced } },
        }
    }

    /// Takes the outcome of the action that the run waited for, and answers
    /// with the next action or the result.
    pub fn resume(self, outcome: Outcome) -> (r: ResetStep)
        ensures
            r@ == self@.next(outcome@),
    {
        proof {
            use_type_invariant(&self);
        }
        match self.stage {
            ResetStage::Starting => self.unregister(0),
            ResetStage::Unregistering => {
                assert(self.forest < self.plan.forests.len());
                assert(self@.cur() == self.plan.forests@[self.forest as int]@);
                assert(self.repo < self.plan.forests@[self.forest as int].repos.len());
                let next = self.repo + 1;
                match outcome {
                    Outcome::Done { .. } => self.unregister(next),
                    Outcome::Failed { error } => {
                        let f = &self.plan.forests[self.forest];
                        assert(f@.repos[self.repo as int] == f.repos@[self.repo as int]@);
                        let text = text4(
                            "warning: git worktree remove failed for ",
                            f.repos[self.repo].worktree_dir.as_str(),
                            ": ",
                            error.as_str(),
                        );
                        let run = self.with_error(text);
                        run.unregister(next)
                    },
                }
            },
            ResetStage::Probing => match outcome {
                Outcome::Done { .. } => {
                    assert(self.forest < self.plan.forests.len());
                    assert(self@.cur() == self.plan.forests@[self.forest as int]@);
                    let path = self.plan.forests[self.forest].path.clone();
                    ResetStep::Perform {
                        run: ResetRun { stage: ResetStage::Removing, ..self },
                        action: ResetAction::RemoveDirAll { path },
                    }
                },
                Outcome::Failed { .. } => self.settle(false),
            },
            ResetStage::Removing => match outcome {
                Outcome::Done { .. } => self.settle(true),
                Outcome::Failed { error } => {
                    assert(self.forest < self.plan.forests.len());
                    assert(self@.cur() == self.plan.forests@[self.forest as int]@);
                    let text = text4(
                        "failed to remove forest ",
                        self.plan.forests[self.forest].name.as_str(),
                        ": ",
                        error.as_str(),
                    );
                    let run = self.with_error(text);
                    run.settle(false)
                },
            },
            ResetStage::Reporting => {
                assert(self.forest < self.plan.forests.len());
                let next = self.forest + 1;
                self.enter(next)
            },
            ResetStage::DeletingConfig => match outcome {
                Outcome::Done { .. } => {
                    let run = ResetRun { config_deleted: true, ..self };
                    run.state_step()
                },
                Outcome::Failed { error } => {
                    let text = text4(
                        "failed to delete ",
                        self.plan.config_path.as_str(),
                        ": ",
                        error.as_str(),
                    );
                    let run = self.with_error(text);
                    run.state_step()
                },
            },
            ResetStage::DeletingState => match outcome {
                Outcome::Done { .. } => self.finished(true),
                Outcome::Failed { error } => {
                    let text = text4(
                        "failed to delete ",
                        self.plan.state_path.as_str(),
                        ": ",
                        error.as_str(),
                    );
                    let run = self.with_error(text);
                    run.finished(false)
                },
            },
        }
    }
}

/// Begins to carry out a reset whose worktrees all lie inside their
/// forests' directories.
pub fn execute_reset(plan: ResetPlan) -> (r: ResetStep)
    requires
        plan@.contained(),
    ensures
        r@ == reset_begin(plan@),
{
    let entries: Vec<ForestResetEntry> = Vec::new();
    assert(view_each(entries@) =~= Seq::<ForestResetEntryView>::empty());
    let stage = if plan.forests.len() == 0 {
        ResetStage::DeletingConfig
    } else {
        ResetStage::Starting
    };
    let run = ResetRun {
        plan,
        stage,
        forest: 0,
        repo: 0,
        entries,
        errors: no_args(),
        config_deleted: false,
    };
    run.enter(0)
}

/// Resets, or says what a reset would do. `present` says of each forest of
/// the plan whether its directory exists; it is read for the preview only.
pub fn cmd_reset(
    confirm: bool,
    config_only: bool,
    dry_run: bool,
    facts: &ResetFacts,
    present: &Vec<bool>,
) -> (r: Result<ResetStep, ResetError>)
    requires
        reset_planned(config_only, facts@) matches Ok(p) ==> if !dry_run && confirm {
            p.contained()
        } else {
            present.len() == p.forests.len()
        },
    ensures
        match r {
            Ok(step) => reset_planned(config_only, facts@) matches Ok(p) && step@ == reset_started(
                confirm,
                dry_run,
                p,
                present@,
            ),
            Err(e) => reset_planned(config_only, facts@) == Err::<ResetPlanView, ResetError>(e),
        },
{
    let plan = match plan_reset(config_only, facts) {
        Ok(p) => p,
        Err(e) => {
            return Err(e);
        },
    };
    if dry_run {
        return Ok(ResetStep::Finished { result: plan_to_dry_run(&plan, present) });
    }
    if !confirm {
        return Ok(ResetStep::Finished { result: plan_to_confirm_required(&plan, present) });
    }
    Ok(execute_reset(plan))
}

/// Every repository of the record has a name that is a relative path.
pub open spec fn names_relative(meta: crate::meta::ForestMetaView) -> bool {
    forall|j: int|
        0 <= j < meta.repos.len() ==> (#[trigger] meta.repos[j]).name.len() > 0
            && !crate::paths::is_absolute(meta.repos[j].name)
}

/// Every forest among the entries has repository names that are relative.
pub open spec fn entries_relative(entries: Seq<crate::forest::ScanEntryView>) -> bool {
    forall|i: int|
        0 <= i < entries.len() && (#[trigger] entries[i]).is_forest() ==> names_relative(
            entries[i].meta->Read_meta,
        )
}

/// Every forest of every base scanned has repository names that are
/// relative.
pub open spec fn scans_relative(scans: Seq<crate::commands::reset::BaseScanView>) -> bool {
    forall|k: int|
        0 <= k < scans.len() && (#[trigger] scans[k]).scan is Entries ==> entries_relative(
            scans[k].scan->entries,
        )
}

/// Every worktree of every forest lies inside the forest's directory.
pub open spec fn forests_contained(forests: Seq<ForestInfoView>) -> bool {
    forall|f: int, j: int|
        0 <= f < forests.len() && 0 <= j < forests[f].repos.len() ==> inside(
            forests[f].path,
            (#[trigger] forests[f].repos[j]).worktree_dir,
        )
}

proof fn lemma_discovered_relative(entries: Seq<crate::forest::ScanEntryView>)
    requires
        entries_relative(entries),
    ensures
        forall|i: int|
            0 <= i < crate::forest::discovered(entries).len() ==> names_relative(
                #[trigger] crate::forest::discovered(entries)[i],
            ),
    decreases entries.len(),
{
    if entries.len() > 0 {
        let before = entries.drop_last();
        assert forall|i: int| 0 <= i < before.len() && (#[trigger] before[i]).is_forest() implies names_relative(
            before[i].meta->Read_meta,
        ) by {
            assert(before[i] == entries[i]);
        }
        lemma_discovered_relative(before);
        let found = crate::forest::discovered(entries);
        let found_before = crate::forest::discovered(before);
        assert forall|i: int| 0 <= i < found.len() implies names_relative(#[trigger] found[i]) by {
            if entries.last().is_forest() {
                assert(entries[entries.len() - 1].is_forest());
                assert(found == found_before.push(entries.last().meta->Read_meta));
                if i < found_before.len() {
                    assert(found[i] == found_before[i]);
                }
            } else {
                assert(found == found_before);
            }
        }
    }
}

proof fn lemma_gathered_contained(scans: Seq<crate::commands::reset::BaseScanView>)
    requires
        scans_relative(scans),
    ensures
        forests_contained(crate::commands::reset::gathered(scans).0),
    decreases scans.len(),
{
    if scans.len() > 0 {
        let before = scans.drop_last();
        assert forall|k: int| 0 <= k < before.len() && (#[trigger] before[k]).scan
            is Entries implies entries_relative(before[k].scan->entries) by {
            assert(before[k] == scans[k]);
        }
        lemma_gathered_contained(before);
        let last = scans.last();
        let sofar = crate::commands::reset::gathered(before).0;
        if last.scan is Entries {
            assert(scans[scans.len() - 1].scan is Entries);
            let metas = crate::forest::discovered(last.scan->entries);
            lemma_discovered_relative(last.scan->entries);
            let added = crate::commands::reset::base_forests(last.base, metas);
            let all = sofar + added;
            assert forall|f: int, j: int|
                0 <= f < all.len() && 0 <= j < all[f].repos.len() implies inside(
                all[f].path,
                (#[trigger] all[f].repos[j]).worktree_dir,
            ) by {
                if f < sofar.len() {
                    assert(all[f] == sofar[f]);
                } else {
                    let m = metas[f - sofar.len()];
                    assert(all[f] == crate::commands::reset::forest_info_of(last.base, m));
                    assert(names_relative(m));
                    let rel = m.repos[j].name;
                    assert(crate::paths::joined_path(all[f].path, rel) == all[f].repos[j].worktree_dir);
                }
            }
        }
    }
}

/// A reset plan made from records whose repository names are relative
/// paths is contained: every worktree lies inside its forest's directory.
pub proof fn law_reset_planned_is_contained(config_only: bool, facts: ResetFactsView)
    requires
        facts.config matches ConfigLoadView::Loaded { scans } ==> scans_relative(scans),
    ensures
        reset_planned(config_only, facts) matches Ok(plan) ==> plan.contained(),
{
    if reset_planned(config_only, facts) is Ok {
        let plan = reset_planned(config_only, facts)->Ok_0;
        if facts.config is Loaded {
            lemma_gathered_contained(facts.config->scans);
        }
        assert(forests_contained(plan.forests));
    }
}

/// Nothing happens before confirmation. A dry run, and a reset that is not
/// confirmed, end at once: they ask for no action, report no error, and
/// differ only in that the second says that confirmation is required.
pub proof fn law_reset_gate(confirm: bool, dry_run: bool, plan: ResetPlanView, present: Seq<bool>)
    requires
        dry_run || !confirm,
    ensures
        reset_started(confirm, dry_run, plan, present) matches ResetStepView::Finished { result }
            && result.dry_run == dry_run && result.confirm_required == !dry_run
            && result.errors.len() == 0 && result.forests.len() == plan.forests.len()
            && result.config_file.deleted == plan.config_exists && result.state_file.deleted
            == plan.state_exists,
{
}

/// The files go last. While a forest is left, the run asks for no file to
/// be deleted; the configuration is asked for only after the last forest
/// was reported, and the state only after the configuration.
pub proof fn law_files_go_last(run: ResetRunView, outcome: OutcomeView)
    requires
        run.wf(),
    ensures
        run.next(outcome) matches ResetStepView::Perform { run: after, action } ==> (action
            is RemoveFile ==> after.forest == run.plan.forests.len() && after.entries.len()
            == run.plan.forests.len()) && after.wf() && after.plan == run.plan,
        run.next(outcome) matches ResetStepView::Finished { result } ==> result.forests.len()
            == run.plan.forests.len(),
{
}

/// A configuration that cannot be read does not stop a reset: the plan
/// holds a warning and no forest, and the files are still to be deleted.
pub proof fn law_unreadable_config_is_no_obstacle(facts: ResetFactsView, error: Seq<char>)
    requires
        facts.config_exists,
        facts.config == (ConfigLoadView::Failed { error }),
    ensures
        reset_planned(false, facts) matches Ok(plan) && plan.forests.len() == 0 && plan.warnings
            == seq![crate::commands::reset::parse_warning(error)] && plan.config_exists
            && plan.contained(),
{
}

} // verus!
