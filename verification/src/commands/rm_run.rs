//! Carrying out a removal plan, one action at a time.
//!
//! Unless forced, a removal of a forest with a dirty worktree is refused
//! before anything is touched. Otherwise each repository is handled in
//! turn, a failure in one not keeping the others from being tried, and the
//! forest's directory goes only if no error was met.

use crate::commands::rm::{
    dirty_hint, plan_rm, plan_to_dry_run_result, rm_planned, RepoRmPlanView, RepoRmResult,
    RepoRmResultView, RmOutcome, RmOutcomeView, RmPlan, RmPlanView, RmProbe, RmProgress,
    RmProgressView, RmResult, RmResultView,
};
use crate::git::{no_args, push_arg, Outcome, OutcomeView};
use crate::meta::{ForestMeta, META_FILENAME};
use crate::paths::{inside, is_inside, join_text, joined_path};
use crate::seqs::{lemma_view_each_push, view_each};
use crate::text::{quote, quoted, str_eq, trim, trimmed};
use vstd::prelude::*;
use vstd::string::*;

verus! {

/// What the caller is asked to do.
#[derive(Debug)]
pub enum RmAction {
    /// Let the user know; any outcome will do.
    Report { progress: RmProgress },
    /// Run git in `repo` with `args`.
    Git { repo: String, args: Vec<String> },
    /// Remove the directory and all below it.
    RemoveDirAll { path: String },
    /// Remove the directory if it is empty.
    RemoveDir { path: String },
    /// Remove the file.
    RemoveFile { path: String },
    /// Say whether the path exists: done if it does, failed if it does not.
    Exists { path: String },
}

/// The mathematical content of an [`RmAction`].
pub enum RmActionView {
    Report { progress: RmProgressView },
    Git { repo: Seq<char>, args: Seq<Seq<char>> },
    RemoveDirAll { path: Seq<char> },
    RemoveDir { path: Seq<char> },
    RemoveFile { path: Seq<char> },
    Exists { path: Seq<char> },
}

impl View for RmAction {
    type V = RmActionView;

    open spec fn view(&self) -> RmActionView {
        match *self {
            RmAction::Report { progress } => RmActionView::Report { progress: progress@ },
            RmAction::Git { repo, args } => RmActionView::Git {
                repo: repo@,
                args: view_each(args@),
            },
            RmAction::RemoveDirAll { path } => RmActionView::RemoveDirAll { path: path@ },
            RmAction::RemoveDir { path } => RmActionView::RemoveDir { path: path@ },
            RmAction::RemoveFile { path } => RmActionView::RemoveFile { path: path@ },
            RmAction::Exists { path } => RmActionView::Exists { path: path@ },
        }
    }
}

/// Where a removal stands: which action it waits for.
#[derive(Debug, Clone, Copy, PartialEq, Eq, Structural)]
pub enum RmStage {
    /// A repository's turn is being announced.
    Starting,
    /// The worktree's directory is being deleted, its source being gone.
    RemovingWorktreeDir,
    /// Git is removing the worktree.
    RemovingWorktree,
    /// The branch is being deleted unconditionally, as forced.
    DeletingForced,
    /// The branch is being deleted if git finds it merged.
    DeletingSafe,
    /// Whether the branch is an ancestor of its base is being asked.
    CheckingAncestor,
    /// The branch's upstream is being asked for.
    ReadingUpstream,
    /// The commits that the upstream lacks are being counted.
    CountingUnpushed,
    /// The branch is being deleted, a fallback having found it safe.
    DeletingFallback,
    /// A repository's result is being announced.
    Reporting,
    /// Whether the forest's directory exists is being asked.
    ProbingDir,
    /// The forest's directory is being removed with all below it.
    RemovingDirAll,
    /// Whether the forest's record exists is being asked.
    ProbingMeta,
    /// The forest's record is being removed.
    RemovingMeta,
    /// The forest's directory, then empty, is being removed.
    RemovingDir,
}

/// The mathematical content of an [`RmRun`].
pub struct RmRunView {
    pub plan: RmPlanView,
    pub force: bool,
    pub stage: RmStage,
    /// The repository whose turn it is.
    pub index: nat,
    /// The results of the repositories before it.
    pub repos: Seq<RepoRmResultView>,
    /// The errors met so far.
    pub errors: Seq<Seq<char>>,
    /// How the worktree step of this repository ended.
    pub worktree: RmOutcomeView,
    /// What git said when it refused the safe deletion.
    pub rejection: Seq<char>,
    /// The branch's upstream.
    pub upstream: Seq<char>,
}

/// The mathematical content of an [`RmStep`].
pub enum RmStepView {
    Perform { run: RmRunView, action: RmActionView },
    Finished { result: RmResultView },
}

/// The texts of the errors of a removal.
pub open spec fn worktree_dir_failed_text(name: Seq<char>, e: Seq<char>) -> Seq<char> {
    name + ": source repo missing, failed to remove worktree directory: "@ + e
}

pub open spec fn worktree_failed_text(name: Seq<char>, e: Seq<char>) -> Seq<char> {
    name + ": git worktree remove failed: "@ + e
}

pub open spec fn branch_failed_text(name: Seq<char>, e: Seq<char>) -> Seq<char> {
    name + ": git branch -D failed: "@ + e
}

pub open spec fn unmerged_text(name: Seq<char>, branch: Seq<char>, rejection: Seq<char>) -> Seq<
    char,
> {
    name + ": branch "@ + quoted(branch) + " is not fully merged ("@ + rejection
        + ")\n  hint: if the branch was merged (e.g. squash-merge) and the remote branch was deleted, use `git forest rm --force`"@
}

pub open spec fn dir_failed_text(e: Seq<char>) -> Seq<char> {
    "failed to remove forest directory: "@ + e
}

pub open spec fn meta_failed_text(e: Seq<char>) -> Seq<char> {
    "failed to remove meta file: "@ + e
}

pub open spec fn dir_not_empty_text(e: Seq<char>) -> Seq<char> {
    "forest directory not removed (not empty): "@ + e
        + "\n  hint: resolve errors above, then rm the directory manually or re-run with --force"@
}

/// The arguments that remove the worktree at `path`; `--force` is passed on.
pub open spec fn worktree_rm_args(path: Seq<char>, force: bool) -> Seq<Seq<char>> {
    if force {
        seq!["worktree"@, "remove"@, "--force"@, path]
    } else {
        seq!["worktree"@, "remove"@, path]
    }
}

/// The arguments that delete a branch: `-D` whatever its state, `-d` only if
/// git finds it merged.
pub open spec fn branch_delete_args(branch: Seq<char>, whatever: bool) -> Seq<Seq<char>> {
    if whatever {
        seq!["branch"@, "-D"@, branch]
    } else {
        seq!["branch"@, "-d"@, branch]
    }
}

/// The arguments that ask whether `branch` is an ancestor of `base`. The
/// base is the one that the forest's record holds for the repository, as it
/// was when the forest was created. If the repository's base branch was
/// changed in the configuration since, that change is not looked at: a
/// branch merged into the new base only is not found safe by this question.
pub open spec fn ancestor_args(branch: Seq<char>, base: Seq<char>) -> Seq<Seq<char>> {
    seq!["merge-base"@, "--is-ancestor"@, branch, base]
}

/// The arguments that ask for the upstream of `branch`.
pub open spec fn upstream_args(branch: Seq<char>) -> Seq<Seq<char>> {
    seq!["for-each-ref"@, "--format=%(upstream:short)"@, "refs/heads/"@ + branch]
}

/// The arguments that count the commits of `branch` that `upstream` lacks.
pub open spec fn unpushed_args(upstream: Seq<char>, branch: Seq<char>) -> Seq<Seq<char>> {
    seq!["rev-list"@, "--count"@, upstream + ".."@ + branch]
}

/// A count of commits that says there is none.
pub open spec fn says_none(output: Seq<char>) -> bool {
    trimmed(output) == seq!['0']
}

impl RmPlanView {
    /// Every worktree of the plan lies inside the forest's directory.
    pub open spec fn contained(self) -> bool {
        forall|i: int|
            0 <= i < self.repo_plans.len() ==> inside(
                self.forest_dir,
                (#[trigger] self.repo_plans[i]).worktree_path,
            )
    }
}

impl RmRunView {
    /// The counters of a run are within the plan, and its results are those
    /// of the repositories before the current one.
    pub open spec fn wf(self) -> bool {
        &&& self.plan.contained()
        &&& self.index <= self.plan.repo_plans.len()
        &&& self.after_repos() <==> self.index == self.plan.repo_plans.len()
        &&& self.repos.len() == if self.stage is Reporting {
            self.index + 1
        } else {
            self.index
        }
    }

    /// The stages that come after the last repository.
    pub open spec fn after_repos(self) -> bool {
        self.stage is ProbingDir || self.stage is RemovingDirAll || self.stage is ProbingMeta
            || self.stage is RemovingMeta || self.stage is RemovingDir
    }

    /// The repository whose turn it is.
    pub open spec fn cur(self) -> RepoRmPlanView {
        self.plan.repo_plans[self.index as int]
    }

    /// The run with one more error.
    pub open spec fn with_error(self, text: Seq<char>) -> RmRunView {
        RmRunView { errors: self.errors.push(text), ..self }
    }

    /// The end of the run.
    pub open spec fn finished(self, removed: bool) -> RmStepView {
        RmStepView::Finished {
            result: RmResultView {
                forest_name: self.plan.forest_name,
                forest_dir: self.plan.forest_dir,
                dry_run: false,
                force: self.force,
                repos: self.repos,
                forest_dir_removed: removed,
                errors: self.errors,
            },
        }
    }

    /// The run asks for `action` and waits in `stage`.
    pub open spec fn ask(self, stage: RmStage, action: RmActionView) -> RmStepView {
        RmStepView::Perform { run: RmRunView { stage, ..self }, action }
    }

    /// After the repositories: the forest's directory goes only if no error
    /// was met.
    pub open spec fn remove_forest_dir(self) -> RmStepView {
        if self.errors.len() == 0 {
            self.ask(RmStage::ProbingDir, RmActionView::Exists { path: self.plan.forest_dir })
        } else {
            self.finished(false)
        }
    }

    /// The turn of repository `index`, or, past the last one, the end.
    pub open spec fn enter(self, index: nat) -> RmStepView {
        if index < self.plan.repo_plans.len() {
            (RmRunView { index, ..self }).ask(
                RmStage::Starting,
                RmActionView::Report {
                    progress: RmProgressView::RepoStarting {
                        name: self.plan.repo_plans[index as int].name,
                    },
                },
            )
        } else {
            (RmRunView { index, ..self }).remove_forest_dir()
        }
    }

    /// The repository's result is settled and announced.
    pub open spec fn settle(self, branch: RmOutcomeView) -> RmStepView {
        let result = RepoRmResultView {
            name: self.cur().name,
            worktree_removed: self.worktree,
            branch_deleted: branch,
        };
        (RmRunView { repos: self.repos.push(result), ..self }).ask(
            RmStage::Reporting,
            RmActionView::Report { progress: RmProgressView::RepoDone { result } },
        )
    }

    /// The branch is deleted whatever its state.
    pub open spec fn delete_whatever(self, stage: RmStage) -> RmStepView {
        self.ask(
            stage,
            RmActionView::Git {
                repo: self.cur().source,
                args: branch_delete_args(self.cur().branch, true),
            },
        )
    }

    /// The branch is left in place: no fallback found it safe to delete.
    pub open spec fn refuse(self) -> RmStepView {
        let text = unmerged_text(self.cur().name, self.cur().branch, self.rejection);
        self.with_error(text).settle(RmOutcomeView::Failed { error: text })
    }

    /// The branch step. Only a branch that the forest created is deleted,
    /// only after its worktree is gone, only in a source that is there.
    pub open spec fn delete_branch(self, worktree_gone: bool) -> RmStepView {
        let rp = self.cur();
        if !rp.branch_created {
            self.settle(RmOutcomeView::Skipped { reason: "branch not created by forest"@ })
        } else if !worktree_gone {
            self.settle(
                RmOutcomeView::Skipped { reason: "worktree still exists, cannot delete branch"@ },
            )
        } else if !rp.source_exists {
            self.settle(RmOutcomeView::Skipped { reason: "source repo missing"@ })
        } else if self.force {
            self.delete_whatever(RmStage::DeletingForced)
        } else {
            self.ask(
                RmStage::DeletingSafe,
                RmActionView::Git { repo: rp.source, args: branch_delete_args(rp.branch, false) },
            )
        }
    }

    /// The worktree step. A worktree that is gone counts as removed; one
    /// whose source is gone is deleted as a directory; else git removes it.
    pub open spec fn remove_worktree(self) -> RmStepView {
        let rp = self.cur();
        if !rp.worktree_exists {
            (RmRunView {
                worktree: RmOutcomeView::Skipped { reason: "worktree already missing"@ },
                ..self
            }).delete_branch(true)
        } else if !rp.source_exists {
            self.ask(
                RmStage::RemovingWorktreeDir,
                RmActionView::RemoveDirAll { path: rp.worktree_path },
            )
        } else {
            self.ask(
                RmStage::RemovingWorktree,
                RmActionView::Git {
                    repo: rp.source,
                    args: worktree_rm_args(rp.worktree_path, self.force),
                },
            )
        }
    }

    /// The worktree step ended with `outcome`; a failure is recorded under
    /// `text`.
    pub open spec fn worktree_ended(self, outcome: OutcomeView, text: Seq<char>) -> RmStepView {
        match outcome {
            OutcomeView::Done { .. } => (RmRunView {
                worktree: RmOutcomeView::Success,
                ..self
            }).delete_branch(true),
            OutcomeView::Failed { .. } => (RmRunView {
                worktree: RmOutcomeView::Failed { error: text },
                ..self
            }).with_error(text).delete_branch(false),
        }
    }

    /// An unconditional deletion ended with `outcome`.
    pub open spec fn deletion_ended(self, outcome: OutcomeView) -> RmStepView {
        match outcome {
            OutcomeView::Done { .. } => self.settle(RmOutcomeView::Success),
            OutcomeView::Failed { error } => {
                let text = branch_failed_text(self.cur().name, error);
                self.with_error(text).settle(RmOutcomeView::Failed { error: text })
            },
        }
    }

    /// The removal of the forest's directory ended with `outcome`; a
    /// failure is recorded under `text`.
    pub open spec fn dir_ended(self, outcome: OutcomeView, text: Seq<char>) -> RmStepView {
        match outcome {
            OutcomeView::Done { .. } => self.finished(true),
            OutcomeView::Failed { .. } => self.with_error(text).finished(false),
        }
    }

    /// Asks for the removal of the forest's directory, which must be empty.
    pub open spec fn remove_dir(self) -> RmStepView {
        self.ask(RmStage::RemovingDir, RmActionView::RemoveDir { path: self.plan.forest_dir })
    }

    /// What follows the outcome of the action that the run waits for.
    pub open spec fn next(self, outcome: OutcomeView) -> RmStepView {
        let rp = self.cur();
        match self.stage {
            RmStage::Starting => self.remove_worktree(),
            RmStage::RemovingWorktreeDir => self.worktree_ended(
                outcome,
                worktree_dir_failed_text(rp.name, outcome->error),
            ),
            RmStage::RemovingWorktree => self.worktree_ended(
                outcome,
                worktree_failed_text(rp.name, outcome->error),
            ),
            RmStage::DeletingForced => self.deletion_ended(outcome),
            RmStage::DeletingFallback => self.deletion_ended(outcome),
            RmStage::DeletingSafe => match outcome {
                OutcomeView::Done { .. } => self.settle(RmOutcomeView::Success),
                OutcomeView::Failed { error } => (RmRunView { rejection: error, ..self }).ask(
                    RmStage::CheckingAncestor,
                    RmActionView::Git {
                        repo: rp.source,
                        args: ancestor_args(rp.branch, rp.base_branch),
                    },
                ),
            },
            RmStage::CheckingAncestor => match outcome {
                OutcomeView::Done { .. } => self.delete_whatever(RmStage::DeletingFallback),
                OutcomeView::Failed { .. } => self.ask(
                    RmStage::ReadingUpstream,
                    RmActionView::Git { repo: rp.source, args: upstream_args(rp.branch) },
                ),
            },
            RmStage::ReadingUpstream => match outcome {
                OutcomeView::Done { output } => if output.len() > 0 {
                    (RmRunView { upstream: output, ..self }).ask(
                        RmStage::CountingUnpushed,
                        RmActionView::Git {
                            repo: rp.source,
                            args: unpushed_args(output, rp.branch),
                        },
                    )
                } else {
                    self.refuse()
                },
                OutcomeView::Failed { .. } => self.refuse(),
            },
            RmStage::CountingUnpushed => match outcome {
                OutcomeView::Done { output } => if says_none(output) {
                    self.delete_whatever(RmStage::DeletingFallback)
                } else {
                    self.refuse()
                },
                OutcomeView::Failed { .. } => self.refuse(),
            },
            RmStage::Reporting => self.enter(self.index + 1),
            RmStage::ProbingDir => match outcome {
                OutcomeView::Failed { .. } => self.finished(true),
                OutcomeView::Done { .. } => if self.force {
                    self.ask(
                        RmStage::RemovingDirAll,
                        RmActionView::RemoveDirAll { path: self.plan.forest_dir },
                    )
                } else {
                    self.ask(
                        RmStage::ProbingMeta,
                        RmActionView::Exists {
                            path: joined_path(self.plan.forest_dir, META_FILENAME@),
                        },
                    )
                },
            },
            RmStage::RemovingDirAll => self.dir_ended(outcome, dir_failed_text(outcome->error)),
            RmStage::ProbingMeta => match outcome {
                OutcomeView::Done { .. } => self.ask(
                    RmStage::RemovingMeta,
                    RmActionView::RemoveFile {
                        path: joined_path(self.plan.forest_dir, META_FILENAME@),
                    },
                ),
                OutcomeView::Failed { .. } => self.remove_dir(),
            },
            RmStage::RemovingMeta => match outcome {
                OutcomeView::Done { .. } => self.remove_dir(),
                OutcomeView::Failed { error } => self.with_error(meta_failed_text(error)).finished(
                    false,
                ),
            },
            RmStage::RemovingDir => self.dir_ended(outcome, dir_not_empty_text(outcome->error)),
        }
    }
}

/// How a removal begins: refused, if it is not forced and some worktree is
/// dirty; else with the first repository's turn.
pub open spec fn rm_begin(plan: RmPlanView, force: bool) -> RmStepView {
    if plan.blocked(force) {
        RmStepView::Finished { result: plan.blocked_result(force, false) }
    } else {
        (RmRunView {
            plan,
            force,
            stage: RmStage::Starting,
            index: 0,
            repos: Seq::empty(),
            errors: Seq::empty(),
            worktree: RmOutcomeView::Success,
            rejection: Seq::empty(),
            upstream: Seq::empty(),
        }).enter(0)
    }
}

fn text3(a: &str, b: &str, c: &str) -> (r: String)
    ensures
        r@ == a@ + b@ + c@,
{
    let mut s = String::from_str(a);
    s.append(b);
    s.append(c);
    s
}

fn skipped(reason: &str) -> (r: RmOutcome)
    ensures
        r@ == (RmOutcomeView::Skipped { reason: reason@ }),
{
    RmOutcome::Skipped { reason: String::from_str(reason) }
}

fn args3(a: &str, b: &str, c: &str) -> (r: Vec<String>)
    ensures
        view_each(r@) == seq![a@, b@, c@],
{
    let mut args = no_args();
    push_arg(&mut args, a);
    push_arg(&mut args, b);
    push_arg(&mut args, c);
    assert(view_each(args@) =~= seq![a@, b@, c@]);
    args
}

fn args4(a: &str, b: &str, c: &str, d: &str) -> (r: Vec<String>)
    ensures
        view_each(r@) == seq![a@, b@, c@, d@],
{
    let mut args = no_args();
    push_arg(&mut args, a);
    push_arg(&mut args, b);
    push_arg(&mut args, c);
    push_arg(&mut args, d);
    assert(view_each(args@) =~= seq![a@, b@, c@, d@]);
    args
}

impl RmPlan {
    /// Whether every worktree of the plan lies inside the forest's directory.
    pub fn is_contained(&self) -> (r: bool)
        ensures
            r == self@.contained(),
    {
        let mut i: usize = 0;
        while i < self.repo_plans.len()
            invariant
                i <= self.repo_plans.len(),
                forall|j: int|
                    0 <= j < i ==> inside(
                        self@.forest_dir,
                        (#[trigger] self@.repo_plans[j]).worktree_path,
                    ),
            decreases self.repo_plans.len() - i,
        {
            assert(self@.repo_plans[i as int] == self.repo_plans@[i as int]@);
            if !is_inside(self.forest_dir.as_str(), self.repo_plans[i].worktree_path.as_str()) {
                return false;
            }
            i += 1;
        }
        true
    }
}

/// A removal under way.
#[derive(Debug)]
pub struct RmRun {
    plan: RmPlan,
    force: bool,
    stage: RmStage,
    index: usize,
    repos: Vec<RepoRmResult>,
    errors: Vec<String>,
    worktree: RmOutcome,
    rejection: String,
    upstream: String,
}

impl View for RmRun {
    type V = RmRunView;

    closed spec fn view(&self) -> RmRunView {
        RmRunView {
            plan: self.plan@,
            force: self.force,
            stage: self.stage,
            index: self.index as nat,
            repos: view_each(self.repos@),
            errors: view_each(self.errors@),
            worktree: self.worktree@,
            rejection: self.rejection@,
            upstream: self.upstream@,
        }
    }
}

/// Where a removal stands: an action to perform, or the result.
#[derive(Debug)]
pub enum RmStep {
    Perform { run: RmRun, action: RmAction },
    Finished { result: RmResult },
}

impl View for RmStep {
    type V = RmStepView;

    open spec fn view(&self) -> RmStepView {
        match *self {
            RmStep::Perform { run, action } => RmStepView::Perform { run: run@, action: action@ },
            RmStep::Finished { result } => RmStepView::Finished { result: result@ },
        }
    }
}

impl RmRun {
    #[verifier::type_invariant]
    spec fn inv(self) -> bool {
        self@.wf()
    }

    spec fn in_turn(self) -> bool {
        !self@.after_repos() && !(self@.stage is Reporting)
    }

    fn with_error(self, text: &String) -> (r: RmRun)
        requires
            self@.wf(),
        ensures
            r@ == self@.with_error(text@),
    {
        let mut errors = self.errors;
        proof {
            lemma_view_each_push(errors@, *text);
        }
        errors.push(text.clone());
        RmRun { errors, ..self }
    }

    fn finished(self, removed: bool) -> (r: RmStep)
        ensures
            r@ == self@.finished(removed),
    {
        RmStep::Finished {
            result: RmResult {
                forest_name: self.plan.forest_name,
                forest_dir: self.plan.forest_dir,
                dry_run: false,
                force: self.force,
                repos: self.repos,
                forest_dir_removed: removed,
                errors: self.errors,
            },
        }
    }

    fn ask(self, stage: RmStage, action: RmAction) -> (r: RmStep)
        requires
            (RmRunView { stage, ..self@ }).wf(),
        ensures
            r@ == self@.ask(stage, action@),
    {
        RmStep::Perform { run: RmRun { stage, ..self }, action }
    }

    fn enter(self, index: usize) -> (r: RmStep)
        requires
            index <= self.plan.repo_plans.len(),
            self.repos.len() == index,
            self@.plan.contained(),
        ensures
            r@ == self@.enter(index as nat),
    {
        if index < self.plan.repo_plans.len() {
            let name = self.plan.repo_plans[index].name.clone();
            assert(self@.plan.repo_plans[index as int] == self.plan.repo_plans@[index as int]@);
            RmStep::Perform {
                run: RmRun { index, stage: RmStage::Starting, ..self },
                action: RmAction::Report { progress: RmProgress::RepoStarting { name } },
            }
        } else if self.errors.len() == 0 {
            let path = self.plan.forest_dir.clone();
            RmStep::Perform {
                run: RmRun { index, stage: RmStage::ProbingDir, ..self },
                action: RmAction::Exists { path },
            }
        } else {
            RmStep::Finished {
                result: RmResult {
                    forest_name: self.plan.forest_name,
                    forest_dir: self.plan.forest_dir,
                    dry_run: false,
                    force: self.force,
                    repos: self.repos,
                    forest_dir_removed: false,
                    errors: self.errors,
                },
            }
        }
    }

    fn settle(self, branch: RmOutcome) -> (r: RmStep)
        requires
            self@.wf(),
            self.in_turn(),
        ensures
            r@ == self@.settle(branch@),
    {
        assert(self.index < self.plan.repo_plans.len());
        assert(self@.cur() == self.plan.repo_plans@[self.index as int]@);
        let result = RepoRmResult {
            name: self.plan.repo_plans[self.index].name.clone(),
            worktree_removed: self.worktree.clone(),
            branch_deleted: branch,
        };
        let announced = result.clone();
        let mut repos = self.repos;
        proof {
            lemma_view_each_push(repos@, result);
        }
        repos.push(result);
        RmStep::Perform {
            run: RmRun { repos, stage: RmStage::Reporting, ..self },
            action: RmAction::Report { progress: RmProgress::RepoDone { result: announced } },
        }
    }

    fn delete_whatever(self, stage: RmStage) -> (r: RmStep)
        requires
            self@.wf(),
            self.in_turn(),
            stage is DeletingForced || stage is DeletingFallback,
        ensures
            r@ == self@.delete_whatever(stage),
    {
        assert(self.index < self.plan.repo_plans.len());
        assert(self@.cur() == self.plan.repo_plans@[self.index as int]@);
        let rp = &self.plan.repo_plans[self.index];
        let repo = rp.source.display();
        let args = args3("branch", "-D", rp.branch.as_str());
        self.ask(stage, RmAction::Git { repo, args })
    }

    fn refuse(self) -> (r: RmStep)
        requires
            self@.wf(),
            self.in_turn(),
        ensures
            r@ == self@.refuse(),
    {
        assert(self.index < self.plan.repo_plans.len());
        assert(self@.cur() == self.plan.repo_plans@[self.index as int]@);
        let rp = &self.plan.repo_plans[self.index];
        let mut text = rp.name.display();
        text.append(": branch ");
        text.append(quote(rp.branch.as_str()).as_str());
        text.append(" is not fully merged (");
        text.append(self.rejection.as_str());
        text.append(
            ")\n  hint: if the branch was merged (e.g. squash-merge) and the remote branch was deleted, use `git forest rm --force`",
        );
        let run = self.with_error(&text);
        run.settle(RmOutcome::Failed { error: text })
    }

    fn delete_branch(self, worktree_gone: bool) -> (r: RmStep)
        requires
            self@.wf(),
            self.in_turn(),
        ensures
            r@ == self@.delete_branch(worktree_gone),
    {
        assert(self.index < self.plan.repo_plans.len());
        assert(self@.cur() == self.plan.repo_plans@[self.index as int]@);
        let rp = &self.plan.repo_plans[self.index];
        if !rp.branch_created {
            self.settle(skipped("branch not created by forest"))
        } else if !worktree_gone {
            self.settle(skipped("worktree still exists, cannot delete branch"))
        } else if !rp.source_exists {
            self.settle(skipped("source repo missing"))
        } else if self.force {
            self.delete_whatever(RmStage::DeletingForced)
        } else {
            let repo = rp.source.display();
            let args = args3("branch", "-d", rp.branch.as_str());
            self.ask(RmStage::DeletingSafe, RmAction::Git { repo, args })
        }
    }

    fn remove_worktree(self) -> (r: RmStep)
        requires
            self@.wf(),
            self.in_turn(),
        ensures
            r@ == self@.remove_worktree(),
    {
        assert(self.index < self.plan.repo_plans.len());
        assert(self@.cur() == self.plan.repo_plans@[self.index as int]@);
        let rp = &self.plan.repo_plans[self.index];
        if !rp.worktree_exists {
            let run = RmRun { worktree: skipped("worktree already missing"), ..self };
            run.delete_branch(true)
        } else if !rp.source_exists {
            let path = rp.worktree_path.clone();
            self.ask(RmStage::RemovingWorktreeDir, RmAction::RemoveDirAll { path })
        } else {
            let repo = rp.source.display();
            let args = if self.force {
                args4("worktree", "remove", "--force", rp.worktree_path.as_str())
            } else {
                args3("worktree", "remove", rp.worktree_path.as_str())
            };
            self.ask(RmStage::RemovingWorktree, RmAction::Git { repo, args })
        }
    }

    fn worktree_ended(self, outcome: Outcome, prefix: &str) -> (r: RmStep)
        requires
            self@.wf(),
            self.in_turn(),
        ensures
            r@ == self@.worktree_ended(
                outcome@,
                self@.cur().name + prefix@ + outcome@->error,
            ),
    {
        assert(self.index < self.plan.repo_plans.len());
        assert(self@.cur() == self.plan.repo_plans@[self.index as int]@);
        match outcome {
            Outcome::Done { .. } => {
                let run = RmRun { worktree: RmOutcome::Success, ..self };
                run.delete_branch(true)
            },
            Outcome::Failed { error } => {
                let text = text3(
                    self.plan.repo_plans[self.index].name.as_str(),
                    prefix,
                    error.as_str(),
                );
                let run = RmRun { worktree: RmOutcome::Failed { error: text.clone() }, ..self };
                let run = run.with_error(&text);
                run.delete_branch(false)
            },
        }
    }

    fn deletion_ended(self, outcome: Outcome) -> (r: RmStep)
        requires
            self@.wf(),
            self.in_turn(),
        ensures
            r@ == self@.deletion_ended(outcome@),
    {
        assert(self.index < self.plan.repo_plans.len());
        assert(self@.cur() == self.plan.repo_plans@[self.index as int]@);
        match outcome {
            Outcome::Done { .. } => self.settle(RmOutcome::Success),
            Outcome::Failed { error } => {
                let text = text3(
                    self.plan.repo_plans[self.index].name.as_str(),
                    ": git branch -D failed: ",
                    error.as_str(),
                );
                let run = self.with_error(&text);
                run.settle(RmOutcome::Failed { error: text })
            },
        }
    }

    fn dir_ended(self, outcome: Outcome, prefix: &str, suffix: &str) -> (r: RmStep)
        requires
            self@.wf(),
        ensures
            r@ == self@.dir_ended(outcome@, prefix@ + outcome@->error + suffix@),
    {
        match outcome {
            Outcome::Done { .. } => self.finished(true),
            Outcome::Failed { error } => {
                let text = text3(prefix, error.as_str(), suffix);
                let run = self.with_error(&text);
                run.finished(false)
            },
        }
    }

    fn remove_dir(self) -> (r: RmStep)
        requires
            self@.wf(),
            self@.after_repos(),
        ensures
            r@ == self@.remove_dir(),
    {
        let path = self.plan.forest_dir.clone();
        self.ask(RmStage::RemovingDir, RmAction::RemoveDir { path })
    }

    /// Takes the outcome of the action that the run waited for, and answers
    /// with the next action or the result.
    pub fn resume(self, outcome: Outcome) -> (r: RmStep)
        ensures
            r@ == self@.next(outcome@),
    {
        proof {
            use_type_invariant(&self);
        }
        match self.stage {
            RmStage::Starting => self.remove_worktree(),
            RmStage::RemovingWorktreeDir => self.worktree_ended(
                outcome,
                ": source repo missing, failed to remove worktree directory: ",
            ),
            RmStage::RemovingWorktree => self.worktree_ended(
                outcome,
                ": git worktree remove failed: ",
            ),
            RmStage::DeletingForced => self.deletion_ended(outcome),
            RmStage::DeletingFallback => self.deletion_ended(outcome),
            RmStage::DeletingSafe => match outcome {
                Outcome::Done { .. } => self.settle(RmOutcome::Success),
                Outcome::Failed { error } => {
                    assert(self.index < self.plan.repo_plans.len());
                    assert(self@.cur() == self.plan.repo_plans@[self.index as int]@);
                    let rp = &self.plan.repo_plans[self.index];
                    let repo = rp.source.display();
                    let args = args4(
                        "merge-base",
                        "--is-ancestor",
                        rp.branch.as_str(),
                        rp.base_branch.as_str(),
                    );
                    let run = RmRun { rejection: error, ..self };
                    run.ask(RmStage::CheckingAncestor, RmAction::Git { repo, args })
                },
            },
            RmStage::CheckingAncestor => match outcome {
                Outcome::Done { .. } => self.delete_whatever(RmStage::DeletingFallback),
                Outcome::Failed { .. } => {
                    assert(self.index < self.plan.repo_plans.len());
                    assert(self@.cur() == self.plan.repo_plans@[self.index as int]@);
                    let rp = &self.plan.repo_plans[self.index];
                    let repo = rp.source.display();
                    let mut full = String::from_str("refs/heads/");
                    full.append(rp.branch.as_str());
                    let args = args3("for-each-ref", "--format=%(upstream:short)", full.as_str());
                    self.ask(RmStage::ReadingUpstream, RmAction::Git { repo, args })
                },
            },
            RmStage::ReadingUpstream => match outcome {
                Outcome::Done { output } => {
                    if output.as_str().unicode_len() > 0 {
                        assert(self.index < self.plan.repo_plans.len());
                        assert(self@.cur() == self.plan.repo_plans@[self.index as int]@);
                        let rp = &self.plan.repo_plans[self.index];
                        let repo = rp.source.display();
                        let range = text3(output.as_str(), "..", rp.branch.as_str());
                        let args = args3("rev-list", "--count", range.as_str());
                        let run = RmRun { upstream: output, ..self };
                        run.ask(RmStage::CountingUnpushed, RmAction::Git { repo, args })
                    } else {
                        self.refuse()
                    }
                },
                Outcome::Failed { .. } => self.refuse(),
            },
            RmStage::CountingUnpushed => match outcome {
                Outcome::Done { output } => {
                    proof {
                        reveal_strlit("0");
                    }
                    assert("0"@ =~= seq!['0']);
                    if str_eq(trim(output.as_str()).as_str(), "0") {
                        self.delete_whatever(RmStage::DeletingFallback)
                    } else {
                        self.refuse()
                    }
                },
                Outcome::Failed { .. } => self.refuse(),
            },
            RmStage::Reporting => {
                assert(self.index < self.plan.repo_plans.len());
                let next = self.index + 1;
                self.enter(next)
            },
            RmStage::ProbingDir => match outcome {
                Outcome::Failed { .. } => self.finished(true),
                Outcome::Done { .. } => {
                    if self.force {
                        let path = self.plan.forest_dir.clone();
                        self.ask(RmStage::RemovingDirAll, RmAction::RemoveDirAll { path })
                    } else {
                        let path = join_text(self.plan.forest_dir.as_str(), META_FILENAME);
                        self.ask(RmStage::ProbingMeta, RmAction::Exists { path })
                    }
                },
            },
            RmStage::RemovingDirAll => {
                proof {
                    reveal_strlit("");
                }
                assert(forall|s: Seq<char>| s + ""@ =~= s);
                self.dir_ended(outcome, "failed to remove forest directory: ", "")
            },
            RmStage::ProbingMeta => match outcome {
                Outcome::Done { .. } => {
                    let path = join_text(self.plan.forest_dir.as_str(), META_FILENAME);
                    self.ask(RmStage::RemovingMeta, RmAction::RemoveFile { path })
                },
                Outcome::Failed { .. } => self.remove_dir(),
            },
            RmStage::RemovingMeta => match outcome {
                Outcome::Done { .. } => self.remove_dir(),
                Outcome::Failed { error } => {
                    let mut text = String::from_str("failed to remove meta file: ");
                    text.append(error.as_str());
                    let run = self.with_error(&text);
                    run.finished(false)
                },
            },
            RmStage::RemovingDir => self.dir_ended(
                outcome,
                "forest directory not removed (not empty): ",
                "\n  hint: resolve errors above, then rm the directory manually or re-run with --force",
            ),
        }
    }
}

/// Begins to carry out a removal plan. A removal that is not forced is
/// refused, with nothing touched and no path looked at, if any worktree has
/// uncommitted changes. A removal that goes ahead is for a plan whose
/// worktrees all lie inside the forest's directory.
pub fn execute_rm(plan: RmPlan, force: bool) -> (r: RmStep)
    requires
        plan@.blocked(force) || plan@.contained(),
    ensures
        r@ == rm_begin(plan@, force),
{
    if !force && plan.any_dirty() {
        return RmStep::Finished { result: plan.blocked_result(force, false) };
    }
    let repos: Vec<RepoRmResult> = Vec::new();
    assert(view_each(repos@) =~= Seq::<RepoRmResultView>::empty());
    let stage = if plan.repo_plans.len() == 0 {
        RmStage::ProbingDir
    } else {
        RmStage::Starting
    };
    let run = RmRun {
        plan,
        force,
        stage,
        index: 0,
        repos,
        errors: no_args(),
        worktree: RmOutcome::Success,
        rejection: String::new(),
        upstream: String::new(),
    };
    run.enter(0)
}

/// A removal plan made from a record whose repository names are relative
/// paths is contained in the forest's directory.
pub proof fn law_rm_planned_is_contained(
    forest_dir: Seq<char>,
    meta: crate::meta::ForestMetaView,
    probes: Seq<crate::commands::rm::RmProbeView>,
)
    requires
        forall|i: int|
            0 <= i < meta.repos.len() ==> (#[trigger] meta.repos[i]).name.len() > 0
                && !crate::paths::is_absolute(meta.repos[i].name),
    ensures
        rm_planned(forest_dir, meta, probes).contained(),
{
    let plan = rm_planned(forest_dir, meta, probes);
    assert forall|i: int| 0 <= i < plan.repo_plans.len() implies inside(
        plan.forest_dir,
        (#[trigger] plan.repo_plans[i]).worktree_path,
    ) by {
        let rel = meta.repos[i].name;
        assert(joined_path(forest_dir, rel) == plan.repo_plans[i].worktree_path);
    }
}

/// What the command does: a dry run answers at once and asks for nothing;
/// otherwise the removal begins.
pub open spec fn rm_started(plan: RmPlanView, force: bool, dry_run: bool) -> RmStepView {
    if dry_run {
        RmStepView::Finished { result: plan.dry_run_result(force) }
    } else {
        rm_begin(plan, force)
    }
}

/// Removes a forest, or says what removing it would do. The facts in
/// `probes`, one for each repository of the record, are taken as they are
/// and not asked for again.
pub fn cmd_rm(
    forest_dir: &str,
    meta: &ForestMeta,
    probes: &Vec<RmProbe>,
    force: bool,
    dry_run: bool,
) -> (r: RmStep)
    requires
        probes.len() == meta.repos.len(),
        dry_run || rm_planned(forest_dir@, meta@, view_each(probes@)).blocked(force) || rm_planned(
            forest_dir@,
            meta@,
            view_each(probes@),
        ).contained(),
    ensures
        r@ == rm_started(rm_planned(forest_dir@, meta@, view_each(probes@)), force, dry_run),
{
    let plan = plan_rm(forest_dir, meta, probes);
    if dry_run {
        return RmStep::Finished { result: plan_to_dry_run_result(&plan, force) };
    }
    execute_rm(plan, force)
}

/// The dirty preflight is all or nothing. A removal that is not forced, of
/// a forest with a dirty worktree, ends before any action is asked for:
/// the forest's directory stays, no repository is reported as removed, each
/// dirty one is reported as failed and each clean one as skipped, and the
/// errors end with a hint at the remedies. A dry run reports the same.
pub proof fn law_dirty_preflight(plan: RmPlanView)
    requires
        plan.any_dirty(),
    ensures
        rm_begin(plan, false) == (RmStepView::Finished {
            result: plan.blocked_result(false, false),
        }),
        plan.dry_run_result(false) == plan.blocked_result(false, true),
        !plan.blocked_result(false, false).forest_dir_removed,
        plan.blocked_result(false, false).errors.len() > 0,
        plan.blocked_result(false, false).errors.last() == dirty_hint(),
        plan.blocked_result(false, false).repos.len() == plan.repo_plans.len(),
        forall|i: int|
            0 <= i < plan.repo_plans.len() ==> {
                let r = #[trigger] plan.blocked_result(false, false).repos[i];
                &&& r.name == plan.repo_plans[i].name
                &&& r.worktree_removed is Failed <==> plan.repo_plans[i].has_dirty_files
                &&& r.worktree_removed is Skipped <==> !plan.repo_plans[i].has_dirty_files
                &&& r.branch_deleted is Skipped
            },
{
}

/// A dry run mirrors the run. For the repository whose turn it is, the dry
/// run reports the worktree as skipped exactly where the run asks for no
/// removal, and the branch as skipped, for the same reason, exactly where
/// the run, its worktree gone, settles the branch as skipped without asking
/// for anything; where the dry run reports a success, the run asks for the
/// removal or the deletion.
pub proof fn law_dry_run_mirrors_the_run(run: RmRunView)
    requires
        run.wf(),
        run.stage is Starting,
    ensures
        ({
            let rp = run.cur();
            let dry = crate::commands::rm::dry_repo(rp);
            let missing = RmOutcomeView::Skipped { reason: "worktree already missing"@ };
            let gone = RmRunView { worktree: RmOutcomeView::Success, ..run };
            &&& dry.name == rp.name
            &&& dry.worktree_removed == missing <==> !rp.worktree_exists
            &&& dry.worktree_removed is Success <==> rp.worktree_exists
            &&& !rp.worktree_exists ==> run.remove_worktree() == (RmRunView {
                worktree: missing,
                ..run
            }).delete_branch(true)
            &&& rp.worktree_exists ==> (run.remove_worktree() matches RmStepView::Perform {
                action,
                ..
            } && (action == (RmActionView::RemoveDirAll { path: rp.worktree_path }) || action == (
            RmActionView::Git {
                repo: rp.source,
                args: worktree_rm_args(rp.worktree_path, run.force),
            })))
            &&& dry.branch_deleted is Skipped ==> gone.delete_branch(true) == gone.settle(
                dry.branch_deleted,
            )
            &&& dry.branch_deleted is Success <==> rp.branch_created && rp.source_exists
            &&& dry.branch_deleted is Success ==> (gone.delete_branch(true) matches RmStepView::Perform {
                action,
                ..
            } && action == (RmActionView::Git {
                repo: rp.source,
                args: branch_delete_args(rp.branch, run.force),
            }))
        }),
{
}

/// Force passes the preflight: a forced removal begins with the first
/// repository's turn, dirty or not.
pub proof fn law_force_passes_preflight(plan: RmPlanView)
    requires
        plan.repo_plans.len() > 0,
    ensures
        rm_begin(plan, true) matches RmStepView::Perform { run, action } && run.stage is Starting
            && run.index == 0 && action == (RmActionView::Report {
            progress: RmProgressView::RepoStarting { name: plan.repo_plans[0].name },
        }),
{
}

/// A branch whose commits are all on its upstream is deleted without
/// force. When the count of commits that the upstream lacks says none, the
/// run asks for the unconditional deletion of the branch, and if that
/// succeeds the branch is reported as deleted and no error is added.
pub proof fn law_pushed_branch_is_deleted(run: RmRunView, count: Seq<char>, output: Seq<char>)
    requires
        run.wf(),
        run.stage is CountingUnpushed,
        says_none(count),
    ensures
        run.next(OutcomeView::Done { output: count }) matches RmStepView::Perform {
            run: deleting,
            action,
        } && action == (RmActionView::Git {
            repo: run.cur().source,
            args: branch_delete_args(run.cur().branch, true),
        }) && (deleting.next(OutcomeView::Done { output }) matches RmStepView::Perform {
            run: settled,
            ..
        } && settled.errors == run.errors && settled.repos.last().branch_deleted is Success),
{
}

/// A branch that is merged into its base is deleted without force: when
/// the branch is found to be an ancestor of its base, the run asks for its
/// unconditional deletion.
pub proof fn law_merged_branch_is_deleted(run: RmRunView, output: Seq<char>)
    requires
        run.wf(),
        run.stage is CheckingAncestor,
    ensures
        run.next(OutcomeView::Done { output }) == run.delete_whatever(RmStage::DeletingFallback),
{
}

/// A branch with work that is neither merged nor pushed is kept. After git
/// refused the safe deletion and the branch was not found to be an ancestor
/// of its base: if the branch has no upstream, or the upstream lacks some
/// of its commits, or either question fails, then no deletion is asked for,
/// the branch is reported as failed, and the error, which names the
/// rejection and points at `--force`, is added to the errors.
pub proof fn law_unpushed_branch_is_kept(run: RmRunView, outcome: OutcomeView)
    requires
        run.wf(),
        !run.force,
        run.stage is ReadingUpstream || run.stage is CountingUnpushed,
        outcome is Failed || (run.stage is ReadingUpstream && outcome->output.len() == 0) || (
        run.stage is CountingUnpushed && !says_none(outcome->output)),
    ensures
        run.next(outcome) matches RmStepView::Perform { run: settled, action } && action
            is Report && settled.stage is Reporting && settled.errors == run.errors.push(
            unmerged_text(run.cur().name, run.cur().branch, run.rejection),
        ) && settled.repos.last().branch_deleted == (RmOutcomeView::Failed {
            error: unmerged_text(run.cur().name, run.cur().branch, run.rejection),
        }),
{
}

/// Only a removal that is not forced asks git whether a branch is safe to
/// delete, and only a forced one deletes a branch without asking.
pub proof fn law_force_decides_deletion(run: RmRunView, worktree_gone: bool)
    requires
        run.wf(),
        run.cur().branch_created,
        worktree_gone,
        run.cur().source_exists,
    ensures
        run.delete_branch(worktree_gone) matches RmStepView::Perform { run: asked, action }
            && action == (RmActionView::Git {
            repo: run.cur().source,
            args: branch_delete_args(run.cur().branch, run.force),
        }) && (asked.stage is DeletingForced <==> run.force) && (asked.stage is DeletingSafe
            <==> !run.force),
{
}

/// A forest with errors stays. After the last repository, the forest's
/// directory is asked about only if no error was met; with an error the
/// run ends at once and reports the directory as not removed.
pub proof fn law_errors_keep_the_forest(run: RmRunView, outcome: OutcomeView)
    requires
        run.wf(),
        run.stage is Reporting,
        run.index + 1 == run.plan.repo_plans.len(),
    ensures
        run.errors.len() > 0 ==> (run.next(outcome) matches RmStepView::Finished { result }
            && !result.forest_dir_removed && result.errors == run.errors && result.repos
            == run.repos),
        run.errors.len() == 0 ==> (run.next(outcome) matches RmStepView::Perform { action, .. }
            && action == (RmActionView::Exists { path: run.plan.forest_dir })),
{
}

/// A run that is well formed stays so.
pub proof fn law_rm_run_stays_well_formed(run: RmRunView, outcome: OutcomeView)
    requires
        run.wf(),
    ensures
        run.next(outcome) matches RmStepView::Perform { run: after, .. } ==> after.wf()
            && after.plan == run.plan && after.force == run.force,
{
}

/// Whether a branch that git refused to delete is safe to delete all the
/// same: it is if it is an ancestor of its base; or if it has an upstream
/// that lacks none of its commits.
pub open spec fn safely_deletable(ancestor: OutcomeView, upstream: OutcomeView, unpushed: OutcomeView)
    -> bool {
    ancestor is Done || (upstream is Done && upstream->output.len() > 0 && unpushed is Done
        && says_none(unpushed->output))
}

/// Decides whether a branch that git refused to delete is safe to delete
/// all the same, from what the three questions came to: whether it is an
/// ancestor of its base, what its upstream is, and how many of its commits
/// the upstream lacks.
pub fn can_safely_force_delete(ancestor: &Outcome, upstream: &Outcome, unpushed: &Outcome) -> (r:
    bool)
    ensures
        r == safely_deletable(ancestor@, upstream@, unpushed@),
{
    match ancestor {
        Outcome::Done { .. } => true,
        Outcome::Failed { .. } => match upstream {
            Outcome::Done { output } => {
                if output.as_str().unicode_len() == 0 {
                    return false;
                }
                match unpushed {
                    Outcome::Done { output } => {
                        proof {
                            reveal_strlit("0");
                        }
                        assert("0"@ =~= seq!['0']);
                        str_eq(trim(output.as_str()).as_str(), "0")
                    },
                    Outcome::Failed { .. } => false,
                }
            },
            Outcome::Failed { .. } => false,
        },
    }
}

/// The questions that are asked about a branch that git refused to delete,
/// and the step that their answers lead to. Each question is asked only
/// while the answers so far leave the matter open.
pub open spec fn asked_until_settled(
    run: RmRunView,
    ancestor: OutcomeView,
    upstream: OutcomeView,
    unpushed: OutcomeView,
) -> RmStepView {
    let first = run.next(ancestor);
    if ancestor is Done {
        first
    } else {
        let second = first->run.next(upstream);
        if !(upstream is Done && upstream->output.len() > 0) {
            second
        } else {
            second->run.next(unpushed)
        }
    }
}

/// Branch deletion is safe. After git refused to delete a branch, the
/// branch is deleted exactly if it is safe to delete: then the run asks for
/// its unconditional deletion; otherwise it asks for no deletion, reports
/// the branch as failed, and adds the error that names git's refusal.
pub proof fn law_branch_deletion_safety(
    run: RmRunView,
    ancestor: OutcomeView,
    upstream: OutcomeView,
    unpushed: OutcomeView,
)
    requires
        run.wf(),
        run.stage is CheckingAncestor,
    ensures
        safely_deletable(ancestor, upstream, unpushed) ==> (asked_until_settled(
            run,
            ancestor,
            upstream,
            unpushed,
        ) matches RmStepView::Perform { run: deleting, action } && deleting.stage
            is DeletingFallback && deleting.errors == run.errors && action == (RmActionView::Git {
            repo: run.cur().source,
            args: branch_delete_args(run.cur().branch, true),
        })),
        !safely_deletable(ancestor, upstream, unpushed) ==> (asked_until_settled(
            run,
            ancestor,
            upstream,
            unpushed,
        ) matches RmStepView::Perform { run: settled, action } && action is Report
            && settled.errors == run.errors.push(
            unmerged_text(run.cur().name, run.cur().branch, run.rejection),
        ) && settled.repos.last().branch_deleted is Failed),
{
}

/// The actions that are performed, and where the run then stands, when the
/// outcomes come in as given. An action is performed when its outcome comes.
pub open spec fn rm_performed(step: RmStepView, outcomes: Seq<OutcomeView>) -> (
    Seq<RmActionView>,
    RmStepView,
)
    decreases outcomes.len(),
{
    match step {
        RmStepView::Finished { .. } => (Seq::empty(), step),
        RmStepView::Perform { run, action } => if outcomes.len() == 0 {
            (Seq::empty(), step)
        } else {
            let rest = rm_performed(run.next(outcomes[0]), outcomes.skip(1));
            (seq![action] + rest.0, rest.1)
        },
    }
}

impl RmPlanView {
    /// Nothing stands in the way of the removal: every worktree and every
    /// source is there, no worktree is dirty, and every branch was created
    /// by the forest.
    pub open spec fn unhindered(self) -> bool {
        forall|i: int|
            0 <= i < self.repo_plans.len() ==> {
                let rp = #[trigger] self.repo_plans[i];
                rp.worktree_exists && rp.source_exists && !rp.has_dirty_files && rp.branch_created
            }
    }

    /// What a removal reports of a repository when all went well.
    pub open spec fn removed_repo(self, i: int) -> RepoRmResultView {
        RepoRmResultView {
            name: self.repo_plans[i].name,
            worktree_removed: RmOutcomeView::Success,
            branch_deleted: RmOutcomeView::Success,
        }
    }

    /// The actions of an unhindered removal that is not forced and meets no
    /// failure, from repository `from` on: for each repository in turn the
    /// announcement, the removal of the worktree, the safe deletion of the
    /// branch and the report; then, for the forest's directory, whether it
    /// is there, whether its record is there, the removal of the record, and
    /// the removal of the directory, which must then be empty.
    pub open spec fn clean_removal(self, from: nat) -> Seq<RmActionView>
        decreases self.repo_plans.len() - from,
    {
        if from >= self.repo_plans.len() {
            seq![
                RmActionView::Exists { path: self.forest_dir },
                RmActionView::Exists { path: joined_path(self.forest_dir, META_FILENAME@) },
                RmActionView::RemoveFile { path: joined_path(self.forest_dir, META_FILENAME@) },
                RmActionView::RemoveDir { path: self.forest_dir },
            ]
        } else {
            let rp = self.repo_plans[from as int];
            seq![
                RmActionView::Report { progress: RmProgressView::RepoStarting { name: rp.name } },
                RmActionView::Git {
                    repo: rp.source,
                    args: worktree_rm_args(rp.worktree_path, false),
                },
                RmActionView::Git { repo: rp.source, args: branch_delete_args(rp.branch, false) },
                RmActionView::Report {
                    progress: RmProgressView::RepoDone { result: self.removed_repo(from as int) },
                },
            ] + self.clean_removal(from + 1)
        }
    }

    /// What an unhindered removal that meets no failure reports.
    pub open spec fn clean_result(self) -> RmResultView {
        RmResultView {
            forest_name: self.forest_name,
            forest_dir: self.forest_dir,
            dry_run: false,
            force: false,
            repos: Seq::new(self.repo_plans.len(), |i: int| self.removed_repo(i)),
            forest_dir_removed: true,
            errors: Seq::empty(),
        }
    }
}

proof fn lemma_clean_removal(run: RmRunView, from: nat, outcomes: Seq<OutcomeView>)
    requires
        run.plan.unhindered(),
        !run.force,
        from <= run.plan.repo_plans.len(),
        run.errors.len() == 0,
        run.repos == Seq::new(from, |i: int| run.plan.removed_repo(i)),
        outcomes.len() == 4 * (run.plan.repo_plans.len() - from) + 4,
        forall|k: int| 0 <= k < outcomes.len() ==> outcomes[k] is Done,
    ensures
        rm_performed(run.enter(from), outcomes) == (
            run.plan.clean_removal(from),
            RmStepView::Finished { result: run.plan.clean_result() },
        ),
    decreases run.plan.repo_plans.len() - from,
{
    let plan = run.plan;
    let s0 = run.enter(from);
    let o1 = outcomes.skip(1);
    let o2 = o1.skip(1);
    let o3 = o2.skip(1);
    let o4 = o3.skip(1);
    assert(o1[0] == outcomes[1] && o2[0] == outcomes[2] && o3[0] == outcomes[3]);
    let s1 = s0->run.next(outcomes[0]);
    let s2 = s1->run.next(o1[0]);
    let s3 = s2->run.next(o2[0]);
    let s4 = s3->run.next(o3[0]);
    assert(rm_performed(s0, outcomes) == (seq![s0->action] + rm_performed(s1, o1).0, rm_performed(
        s1,
        o1,
    ).1));
    assert(rm_performed(s1, o1) == (seq![s1->action] + rm_performed(s2, o2).0, rm_performed(
        s2,
        o2,
    ).1));
    assert(rm_performed(s2, o2) == (seq![s2->action] + rm_performed(s3, o3).0, rm_performed(
        s3,
        o3,
    ).1));
    assert(rm_performed(s3, o3) == (seq![s3->action] + rm_performed(s4, o4).0, rm_performed(
        s4,
        o4,
    ).1));
    if from < plan.repo_plans.len() {
        let rp = plan.repo_plans[from as int];
        assert(rp.worktree_exists && rp.source_exists && rp.branch_created);
        let settled = s3->run;
        assert(settled.repos =~= Seq::new(from + 1, |i: int| plan.removed_repo(i)));
        assert(s4 == settled.enter(from + 1));
        assert forall|k: int| 0 <= k < o4.len() implies o4[k] is Done by {
            assert(o4[k] == outcomes[k + 4]);
        }
        lemma_clean_removal(settled, from + 1, o4);
        assert(settled.plan == plan);
        assert(rm_performed(s4, o4).0 == plan.clean_removal(from + 1));
        assert(seq![s0->action] + (seq![s1->action] + (seq![s2->action] + (seq![s3->action]
            + plan.clean_removal(from + 1)))) =~= plan.clean_removal(from));
    } else {
        assert(o4.len() == 0);
        assert(run.repos =~= plan.clean_result().repos);
        assert(run.errors =~= Seq::<Seq<char>>::empty());
        assert(s4 == (RmStepView::Finished { result: plan.clean_result() }));
        assert(rm_performed(s4, o4) == (Seq::<RmActionView>::empty(), s4));
        assert(seq![s0->action] + (seq![s1->action] + (seq![s2->action] + (seq![s3->action]
            + Seq::<RmActionView>::empty()))) =~= plan.clean_removal(from));
    }
}

/// A removal that nothing hinders removes everything. For a plan in which
/// every worktree and source is there, nothing is dirty and every branch was
/// created by the forest, a removal that is not forced and meets no failure
/// asks, for each repository in turn, for the removal of the worktree and
/// the safe deletion of the branch, then removes the forest's record and
/// its directory, and reports every step as a success and no error.
pub proof fn law_clean_removal(plan: RmPlanView, outcomes: Seq<OutcomeView>)
    requires
        plan.unhindered(),
        outcomes.len() == 4 * plan.repo_plans.len() + 4,
        forall|k: int| 0 <= k < outcomes.len() ==> outcomes[k] is Done,
    ensures
        rm_performed(rm_begin(plan, false), outcomes) == (
            plan.clean_removal(0),
            RmStepView::Finished { result: plan.clean_result() },
        ),
{
    assert(!plan.any_dirty()) by {
        if plan.any_dirty() {
            let i = choose|i: int|
                0 <= i < plan.repo_plans.len() && (#[trigger] plan.repo_plans[i]).has_dirty_files;
            assert(!plan.repo_plans[i].has_dirty_files);
        }
    }
    let run = RmRunView {
        plan,
        force: false,
        stage: RmStage::Starting,
        index: 0,
        repos: Seq::empty(),
        errors: Seq::empty(),
        worktree: RmOutcomeView::Success,
        rejection: Seq::empty(),
        upstream: Seq::empty(),
    };
    assert(run.repos =~= Seq::new(0, |i: int| plan.removed_repo(i)));
    lemma_clean_removal(run, 0, outcomes);
}

} // verus!
