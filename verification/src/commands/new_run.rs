//! Carrying out a creation plan, one action at a time, with rollback.
//!
//! The run hands out an action; the caller performs it and reports the
//! outcome; the run answers with the next action or with the result. Once
//! the forest's directory exists, any failure is answered by a rollback:
//! every worktree created so far is removed again, then the directory, and
//! the first failure is the result.

use crate::commands::new::{
    branch_created, creates_branch, first_unplanned, plan_forest, plan_to_result, planned,
    repo_planned, result_of, CheckoutKind, ForestPlan, ForestPlanView, NewInputs, NewInputsView,
    NewResult, NewResultView, PlanError, PlanErrorView, PlanProbes, PlanProbesView, RepoPlan,
    RepoPlanView, RepoProbeView,
};
use crate::config::{ResolvedTemplate, ResolvedTemplateView};
use crate::git::{no_args, push_arg, Outcome, OutcomeView};
use crate::meta::{
    now, ForestMeta, ForestMetaView, RepoMeta, RepoMetaView, Timestamp, META_FILENAME,
};
use crate::paths::{inside, is_inside, joined_path, AbsolutePath};
use crate::seqs::{lemma_first_where, lemma_first_where_none, lemma_view_each_push, view_each};
use vstd::prelude::*;
use vstd::string::*;

verus! {

/// The record of a repository that joined the forest as planned.
pub open spec fn repo_meta_of(rp: RepoPlanView) -> RepoMetaView {
    RepoMetaView {
        name: rp.name,
        source: rp.source,
        branch: rp.branch,
        base_branch: rp.base_branch,
        branch_created: creates_branch(rp.checkout),
    }
}

/// The arguments that create a repository's worktree. Each kind of checkout
/// has its own shape; a new branch is made with no upstream.
pub open spec fn add_args(rp: RepoPlanView) -> Seq<Seq<char>> {
    match rp.checkout {
        CheckoutKind::ExistingLocal => seq!["worktree"@, "add"@, rp.dest, rp.branch],
        CheckoutKind::TrackRemote => seq![
            "worktree"@,
            "add"@,
            rp.dest,
            "-b"@,
            rp.branch,
            rp.remote + "/"@ + rp.branch,
        ],
        CheckoutKind::NewBranch => seq![
            "worktree"@,
            "add"@,
            "-b"@,
            rp.branch,
            "--no-track"@,
            rp.dest,
            rp.remote + "/"@ + rp.base_branch,
        ],
    }
}

/// The arguments that remove the worktree at `dest`, whatever its state.
pub open spec fn remove_args(dest: Seq<char>) -> Seq<Seq<char>> {
    seq!["worktree"@, "remove"@, "--force"@, dest]
}

impl ForestPlanView {
    /// Every worktree of the plan lies inside the forest's directory.
    pub open spec fn contained(self) -> bool {
        forall|i: int|
            0 <= i < self.repo_plans.len() ==> inside(
                self.forest_dir,
                (#[trigger] self.repo_plans[i]).dest,
            )
    }

    /// Where the forest's record is kept.
    pub open spec fn meta_path(self) -> Seq<char> {
        joined_path(self.forest_dir, META_FILENAME@)
    }

    /// The forest's record once the first `done` repositories have joined.
    pub open spec fn meta_after(self, created_at: Timestamp, done: nat) -> ForestMetaView {
        ForestMetaView {
            name: self.forest_name,
            created_at,
            mode: self.mode,
            repos: Seq::new(done, |i: int| repo_meta_of(self.repo_plans[i])),
        }
    }
}

/// What the caller is asked to do.
#[derive(Debug)]
pub enum NewAction {
    /// Create the directory; fail if it exists.
    CreateForestDir { path: AbsolutePath },
    /// Write the forest's record, replacing what is there.
    WriteMeta { path: AbsolutePath, meta: ForestMeta },
    /// Run git in `repo` with `args`.
    Git { repo: AbsolutePath, args: Vec<String> },
    /// Remove the directory and all below it.
    RemoveForestDir { path: AbsolutePath },
}

/// The mathematical content of a [`NewAction`].
pub enum NewActionView {
    CreateForestDir { path: Seq<char> },
    WriteMeta { path: Seq<char>, meta: ForestMetaView },
    Git { repo: Seq<char>, args: Seq<Seq<char>> },
    RemoveForestDir { path: Seq<char> },
}

impl View for NewAction {
    type V = NewActionView;

    open spec fn view(&self) -> NewActionView {
        match *self {
            NewAction::CreateForestDir { path } => NewActionView::CreateForestDir { path: path@ },
            NewAction::WriteMeta { path, meta } => NewActionView::WriteMeta {
                path: path@,
                meta: meta@,
            },
            NewAction::Git { repo, args } => NewActionView::Git {
                repo: repo@,
                args: view_each(args@),
            },
            NewAction::RemoveForestDir { path } => NewActionView::RemoveForestDir { path: path@ },
        }
    }
}

/// Where a run stands: which action it waits for.
#[derive(Debug, Clone, Copy, PartialEq, Eq, Structural)]
pub enum NewStage {
    /// The forest's directory is being created.
    CreatingDir,
    /// The record is being written, after `done` repositories.
    WritingMeta,
    /// The worktree of repository `done` is being added.
    AddingWorktree,
    /// The worktree of repository `cursor` is being removed again.
    RollingBack,
    /// The forest's directory is being removed again.
    RemovingDir,
}

/// The mathematical content of a [`NewRun`].
pub struct NewRunView {
    pub plan: ForestPlanView,
    pub created_at: Timestamp,
    pub stage: NewStage,
    /// How many worktrees have been created.
    pub done: nat,
    /// Which worktree the rollback is at.
    pub cursor: nat,
    /// The failure that started the rollback.
    pub error: Seq<char>,
}

/// The result of a run: what was created, or the failure that undid it.
pub enum NewOutcomeView {
    Created { result: NewResultView },
    Failed { error: Seq<char> },
}

/// The mathematical content of a [`NewProgress`].
pub enum NewProgressView {
    Perform { run: NewRunView, action: NewActionView },
    Finished { outcome: NewOutcomeView },
}

impl NewRunView {
    /// The counters of a run are within the plan.
    pub open spec fn wf(self) -> bool {
        &&& self.done <= self.plan.repo_plans.len()
        &&& self.stage is AddingWorktree ==> self.done < self.plan.repo_plans.len()
        &&& self.stage is RollingBack ==> self.cursor < self.done
        &&& self.stage is CreatingDir ==> self.done == 0
    }

    /// The action that writes the record as it stands.
    pub open spec fn write_meta(self) -> NewProgressView {
        NewProgressView::Perform {
            run: NewRunView { stage: NewStage::WritingMeta, ..self },
            action: NewActionView::WriteMeta {
                path: self.plan.meta_path(),
                meta: self.plan.meta_after(self.created_at, self.done),
            },
        }
    }

    /// After the record is written: the next worktree, or the end.
    pub open spec fn advance(self) -> NewProgressView {
        if self.done < self.plan.repo_plans.len() {
            NewProgressView::Perform {
                run: NewRunView { stage: NewStage::AddingWorktree, ..self },
                action: NewActionView::Git {
                    repo: self.plan.repo_plans[self.done as int].source,
                    args: add_args(self.plan.repo_plans[self.done as int]),
                },
            }
        } else {
            NewProgressView::Finished {
                outcome: NewOutcomeView::Created { result: result_of(self.plan, false) },
            }
        }
    }

    /// The rollback's action for worktree `cursor`, or, past the last one
    /// created, the removal of the directory.
    pub open spec fn unwind(self, cursor: nat) -> NewProgressView {
        if cursor < self.done {
            NewProgressView::Perform {
                run: NewRunView { stage: NewStage::RollingBack, cursor, ..self },
                action: NewActionView::Git {
                    repo: self.plan.repo_plans[cursor as int].source,
                    args: remove_args(self.plan.repo_plans[cursor as int].dest),
                },
            }
        } else {
            NewProgressView::Perform {
                run: NewRunView { stage: NewStage::RemovingDir, cursor, ..self },
                action: NewActionView::RemoveForestDir { path: self.plan.forest_dir },
            }
        }
    }

    /// The worktree whose removal follows `outcome`, if one does.
    pub open spec fn undone_next(self, outcome: OutcomeView) -> Option<nat> {
        match self.stage {
            NewStage::WritingMeta | NewStage::AddingWorktree => if outcome is Failed && 0
                < self.done {
                Some(0)
            } else {
                None
            },
            NewStage::RollingBack => if self.cursor + 1 < self.done {
                Some(self.cursor + 1)
            } else {
                None
            },
            _ => None,
        }
    }

    /// A rollback removes a worktree only inside the forest's directory:
    /// whether the step that follows `outcome` keeps to that.
    pub open spec fn may_resume(self, outcome: OutcomeView) -> bool {
        self.undone_next(outcome) matches Some(c) ==> inside(
            self.plan.forest_dir,
            self.plan.repo_plans[c as int].dest,
        )
    }

    /// What follows the outcome of the action that the run waits for.
    pub open spec fn next(self, outcome: OutcomeView) -> NewProgressView {
        match self.stage {
            NewStage::CreatingDir => match outcome {
                OutcomeView::Done { .. } => self.write_meta(),
                OutcomeView::Failed { error } => NewProgressView::Finished {
                    outcome: NewOutcomeView::Failed { error },
                },
            },
            NewStage::WritingMeta => match outcome {
                OutcomeView::Done { .. } => self.advance(),
                OutcomeView::Failed { error } => (NewRunView { error, ..self }).unwind(0),
            },
            NewStage::AddingWorktree => match outcome {
                OutcomeView::Done { .. } => (NewRunView {
                    done: self.done + 1,
                    ..self
                }).write_meta(),
                OutcomeView::Failed { error } => (NewRunView { error, ..self }).unwind(0),
            },
            NewStage::RollingBack => self.unwind(self.cursor + 1),
            NewStage::RemovingDir => NewProgressView::Finished {
                outcome: NewOutcomeView::Failed { error: self.error },
            },
        }
    }
}

/// How a run begins: with the creation of the forest's directory.
pub open spec fn begin(plan: ForestPlanView, created_at: Timestamp) -> NewProgressView {
    NewProgressView::Perform {
        run: NewRunView {
            plan,
            created_at,
            stage: NewStage::CreatingDir,
            done: 0,
            cursor: 0,
            error: Seq::empty(),
        },
        action: NewActionView::CreateForestDir { path: plan.forest_dir },
    }
}

impl ForestPlan {
    /// Whether every worktree of the plan lies inside the forest's directory.
    pub fn is_contained(&self) -> (r: bool)
        ensures
            r == self@.contained(),
    {
        let mut i: usize = 0;
        while i < self.repo_plans.len()
            invariant
                i <= self.repo_plans.len(),
                forall|j: int|
                    0 <= j < i ==> inside(self@.forest_dir, (#[trigger] self@.repo_plans[j]).dest),
            decreases self.repo_plans.len() - i,
        {
            assert(self@.repo_plans[i as int] == self.repo_plans@[i as int]@);
            if !is_inside(self.forest_dir.as_str(), self.repo_plans[i].dest.as_str()) {
                return false;
            }
            i += 1;
        }
        true
    }
}

/// The result of a run.
#[derive(Debug)]
pub enum NewOutcome {
    /// The forest stands as planned.
    Created { result: NewResult },
    /// Nothing was created, or all of it was removed again.
    Failed { error: String },
}

impl View for NewOutcome {
    type V = NewOutcomeView;

    open spec fn view(&self) -> NewOutcomeView {
        match *self {
            NewOutcome::Created { result } => NewOutcomeView::Created { result: result@ },
            NewOutcome::Failed { error } => NewOutcomeView::Failed { error: error@ },
        }
    }
}

/// A creation under way.
#[derive(Debug)]
pub struct NewRun {
    plan: ForestPlan,
    created_at: Timestamp,
    stage: NewStage,
    done: usize,
    cursor: usize,
    error: String,
}

impl View for NewRun {
    type V = NewRunView;

    closed spec fn view(&self) -> NewRunView {
        NewRunView {
            plan: self.plan@,
            created_at: self.created_at,
            stage: self.stage,
            done: self.done as nat,
            cursor: self.cursor as nat,
            error: self.error@,
        }
    }
}

/// Where a creation stands: an action to perform, or the result.
#[derive(Debug)]
pub enum NewProgress {
    Perform { run: NewRun, action: NewAction },
    Finished { outcome: NewOutcome },
}

impl View for NewProgress {
    type V = NewProgressView;

    open spec fn view(&self) -> NewProgressView {
        match *self {
            NewProgress::Perform { run, action } => NewProgressView::Perform {
                run: run@,
                action: action@,
            },
            NewProgress::Finished { outcome } => NewProgressView::Finished { outcome: outcome@ },
        }
    }
}

fn repo_meta(rp: &RepoPlan) -> (r: RepoMeta)
    ensures
        r@ == repo_meta_of(rp@),
{
    RepoMeta {
        name: rp.name.clone(),
        source: rp.source.clone(),
        branch: rp.branch.display(),
        base_branch: rp.base_branch.clone(),
        branch_created: branch_created(&rp.checkout),
    }
}

fn meta_after(plan: &ForestPlan, created_at: Timestamp, done: usize) -> (r: ForestMeta)
    requires
        done <= plan.repo_plans.len(),
    ensures
        r@ == plan@.meta_after(created_at, done as nat),
{
    let mut repos: Vec<RepoMeta> = Vec::new();
    let mut i: usize = 0;
    while i < done
        invariant
            i <= done <= plan.repo_plans.len(),
            view_each(repos@) == Seq::new(i as nat, |j: int| repo_meta_of(plan@.repo_plans[j])),
        decreases done - i,
    {
        let m = repo_meta(&plan.repo_plans[i]);
        proof {
            lemma_view_each_push(repos@, m);
            assert(plan@.repo_plans[i as int] == plan.repo_plans@[i as int]@);
            assert(Seq::new((i + 1) as nat, |j: int| repo_meta_of(plan@.repo_plans[j]))
                =~= Seq::new(i as nat, |j: int| repo_meta_of(plan@.repo_plans[j])).push(m@));
        }
        repos.push(m);
        i += 1;
    }
    ForestMeta { name: plan.forest_name.clone(), created_at, mode: plan.mode, repos }
}

/// The arguments that create a repository's worktree.
pub fn worktree_add_args(rp: &RepoPlan) -> (r: Vec<String>)
    ensures
        view_each(r@) == add_args(rp@),
{
    let mut args = no_args();
    push_arg(&mut args, "worktree");
    push_arg(&mut args, "add");
    match rp.checkout {
        CheckoutKind::ExistingLocal => {
            push_arg(&mut args, rp.dest.as_str());
            push_arg(&mut args, rp.branch.as_str());
        },
        CheckoutKind::TrackRemote => {
            let mut start = rp.remote.clone();
            start.append("/");
            start.append(rp.branch.as_str());
            push_arg(&mut args, rp.dest.as_str());
            push_arg(&mut args, "-b");
            push_arg(&mut args, rp.branch.as_str());
            push_arg(&mut args, start.as_str());
        },
        CheckoutKind::NewBranch => {
            let mut start = rp.remote.clone();
            start.append("/");
            start.append(rp.base_branch.as_str());
            push_arg(&mut args, "-b");
            push_arg(&mut args, rp.branch.as_str());
            push_arg(&mut args, "--no-track");
            push_arg(&mut args, rp.dest.as_str());
            push_arg(&mut args, start.as_str());
        },
    }
    assert(view_each(args@) =~= add_args(rp@));
    args
}

/// The arguments that remove the worktree at `dest`, whatever its state.
pub fn worktree_remove_args(dest: &str) -> (r: Vec<String>)
    ensures
        view_each(r@) == remove_args(dest@),
{
    let mut args = no_args();
    push_arg(&mut args, "worktree");
    push_arg(&mut args, "remove");
    push_arg(&mut args, "--force");
    push_arg(&mut args, dest);
    assert(view_each(args@) =~= remove_args(dest@));
    args
}

impl NewRun {
    #[verifier::type_invariant]
    spec fn inv(self) -> bool {
        self@.wf()
    }

    fn write_meta(self) -> (r: NewProgress)
        requires
            self@.wf(),
            !(self@.stage is AddingWorktree),
            !(self@.stage is RollingBack),
            !(self@.stage is CreatingDir),
        ensures
            r@ == self@.write_meta(),
    {
        let path = self.plan.forest_dir.join(META_FILENAME);
        let meta = meta_after(&self.plan, self.created_at, self.done);
        NewProgress::Perform {
            run: NewRun { stage: NewStage::WritingMeta, ..self },
            action: NewAction::WriteMeta { path, meta },
        }
    }

    fn advance(self) -> (r: NewProgress)
        requires
            self@.wf(),
        ensures
            r@ == self@.advance(),
    {
        if self.done < self.plan.repo_plans.len() {
            let rp = &self.plan.repo_plans[self.done];
            assert(self@.plan.repo_plans[self.done as int] == rp@);
            let repo = rp.source.clone();
            let args = worktree_add_args(rp);
            NewProgress::Perform {
                run: NewRun { stage: NewStage::AddingWorktree, ..self },
                action: NewAction::Git { repo, args },
            }
        } else {
            NewProgress::Finished {
                outcome: NewOutcome::Created { result: plan_to_result(&self.plan, false) },
            }
        }
    }

    fn unwind(self, cursor: usize) -> (r: NewProgress)
        requires
            self@.wf(),
            !(self@.stage is CreatingDir),
        ensures
            r@ == self@.unwind(cursor as nat),
    {
        if cursor < self.done {
            let rp = &self.plan.repo_plans[cursor];
            assert(self@.plan.repo_plans[cursor as int] == rp@);
            let repo = rp.source.clone();
            let args = worktree_remove_args(rp.dest.as_str());
            NewProgress::Perform {
                run: NewRun { stage: NewStage::RollingBack, cursor, ..self },
                action: NewAction::Git { repo, args },
            }
        } else {
            let path = self.plan.forest_dir.clone();
            NewProgress::Perform {
                run: NewRun { stage: NewStage::RemovingDir, cursor, ..self },
                action: NewAction::RemoveForestDir { path },
            }
        }
    }

    /// Begins to carry out a plan. The record will bear `created_at`.
    pub fn start(plan: ForestPlan, created_at: Timestamp) -> (r: NewProgress)
        ensures
            r@ == begin(plan@, created_at),
    {
        let path = plan.forest_dir.clone();
        NewProgress::Perform {
            run: NewRun {
                plan,
                created_at,
                stage: NewStage::CreatingDir,
                done: 0,
                cursor: 0,
                error: String::new(),
            },
            action: NewAction::CreateForestDir { path },
        }
    }

    /// Whether the run can take `outcome`: it cannot where the rollback
    /// would next remove a worktree outside the forest's directory.
    pub fn may_resume(&self, outcome: &Outcome) -> (r: bool)
        ensures
            r == self@.may_resume(outcome@),
    {
        proof {
            use_type_invariant(self);
        }
        let next: usize = match self.stage {
            NewStage::WritingMeta | NewStage::AddingWorktree => match outcome {
                Outcome::Failed { .. } => 0,
                Outcome::Done { .. } => {
                    return true;
                },
            },
            NewStage::RollingBack => self.cursor + 1,
            _ => {
                return true;
            },
        };
        if next < self.done {
            assert(self@.plan.repo_plans[next as int] == self.plan.repo_plans@[next as int]@);
            is_inside(self.plan.forest_dir.as_str(), self.plan.repo_plans[next].dest.as_str())
        } else {
            true
        }
    }

    /// Takes the outcome of the action that the run waited for, and answers
    /// with the next action or the result. A rollback never asks for the
    /// removal of a worktree outside the forest's directory: an outcome
    /// after which it would is not taken.
    pub fn resume(self, outcome: Outcome) -> (r: NewProgress)
        requires
            self@.may_resume(outcome@),
        ensures
            r@ == self@.next(outcome@),
    {
        proof {
            use_type_invariant(&self);
        }
        match self.stage {
            NewStage::CreatingDir => match outcome {
                Outcome::Done { .. } => {
                    let run = NewRun { stage: NewStage::WritingMeta, ..self };
                    run.write_meta()
                },
                Outcome::Failed { error } => NewProgress::Finished {
                    outcome: NewOutcome::Failed { error },
                },
            },
            NewStage::WritingMeta => match outcome {
                Outcome::Done { .. } => self.advance(),
                Outcome::Failed { error } => {
                    let run = NewRun { error, ..self };
                    run.unwind(0)
                },
            },
            NewStage::AddingWorktree => match outcome {
                Outcome::Done { .. } => {
                    assert(self@.done < self@.plan.repo_plans.len());
                    assert(self.done < self.plan.repo_plans.len());
                    let run = NewRun {
                        stage: NewStage::WritingMeta,
                        done: self.done + 1,
                        ..self
                    };
                    run.write_meta()
                },
                Outcome::Failed { error } => {
                    let run = NewRun { stage: NewStage::WritingMeta, error, ..self };
                    run.unwind(0)
                },
            },
            NewStage::RollingBack => {
                let next = self.cursor + 1;
                self.unwind(next)
            },
            NewStage::RemovingDir => NewProgress::Finished {
                outcome: NewOutcome::Failed { error: self.error },
            },
        }
    }
}

/// The actions that are performed, and where the run then stands, when the
/// outcomes come in as given. An action is performed when its outcome comes.
pub open spec fn performed(p: NewProgressView, outcomes: Seq<OutcomeView>) -> (
    Seq<NewActionView>,
    NewProgressView,
)
    decreases outcomes.len(),
{
    match p {
        NewProgressView::Finished { .. } => (Seq::empty(), p),
        NewProgressView::Perform { run, action } => if outcomes.len() == 0 {
            (Seq::empty(), p)
        } else {
            let rest = performed(run.next(outcomes[0]), outcomes.skip(1));
            (seq![action] + rest.0, rest.1)
        },
    }
}

/// The actions of a rollback from worktree `from` on, after `done` worktrees
/// were created: one removal for each, in the order of their creation, then
/// the removal of the forest's directory.
pub open spec fn rollback_actions(plan: ForestPlanView, from: nat, done: nat) -> Seq<
    NewActionView,
> {
    Seq::new(
        (done - from) as nat,
        |j: int|
            NewActionView::Git {
                repo: plan.repo_plans[from + j].source,
                args: remove_args(plan.repo_plans[from + j].dest),
            },
    ).push(NewActionView::RemoveForestDir { path: plan.forest_dir })
}

/// The actions of a creation that meets no failure, from the writing of the
/// record after `done` worktrees on: the record, then in turn each further
/// worktree and the record that counts it.
pub open spec fn creation_actions(plan: ForestPlanView, created_at: Timestamp, done: nat) -> Seq<
    NewActionView,
>
    decreases plan.repo_plans.len() - done,
{
    let write = NewActionView::WriteMeta {
        path: plan.meta_path(),
        meta: plan.meta_after(created_at, done),
    };
    if done >= plan.repo_plans.len() {
        seq![write]
    } else {
        seq![
            write,
            NewActionView::Git {
                repo: plan.repo_plans[done as int].source,
                args: add_args(plan.repo_plans[done as int]),
            },
        ] + creation_actions(plan, created_at, done + 1)
    }
}

/// A run that is well formed stays so.
pub proof fn law_run_stays_well_formed(run: NewRunView, outcome: OutcomeView)
    requires
        run.wf(),
    ensures
        run.next(outcome) matches NewProgressView::Perform { run: after, .. } ==> after.wf()
            && after.plan == run.plan && after.created_at == run.created_at,
{
}

/// A rollback stays inside the forest's directory: a removal of a worktree
/// that follows an outcome which the run can take names a path inside it.
pub proof fn law_rollback_stays_inside(run: NewRunView, outcome: OutcomeView)
    requires
        run.wf(),
        run.may_resume(outcome),
    ensures
        run.next(outcome) matches NewProgressView::Perform { run: after, action } ==> (
        after.stage is RollingBack ==> exists|dest: Seq<char>|
            inside(run.plan.forest_dir, dest) && #[trigger] remove_args(dest) == action->args),
{
    let then = run.next(outcome);
    if then is Perform && then->run.stage is RollingBack {
        let dest = run.plan.repo_plans[then->run.cursor as int].dest;
        assert(inside(run.plan.forest_dir, dest) && remove_args(dest) == then->action->args);
    }
}

/// A run of a plan whose worktrees all lie inside the forest's directory
/// can take every outcome.
pub proof fn law_contained_run_resumes(run: NewRunView, outcome: OutcomeView)
    requires
        run.wf(),
        run.plan.contained(),
    ensures
        run.may_resume(outcome),
{
}

proof fn lemma_unwind(run: NewRunView, cursor: nat, outcomes: Seq<OutcomeView>)
    requires
        cursor <= run.done,
        outcomes.len() == run.done - cursor + 1,
    ensures
        performed(run.unwind(cursor), outcomes) == (
            rollback_actions(run.plan, cursor, run.done),
            NewProgressView::Finished { outcome: NewOutcomeView::Failed { error: run.error } },
        ),
    decreases run.done - cursor,
{
    let first = run.unwind(cursor);
    let at = first->run;
    let rest = performed(at.next(outcomes[0]), outcomes.skip(1));
    if cursor < run.done {
        assert(at.next(outcomes[0]) == run.unwind(cursor + 1));
        lemma_unwind(run, cursor + 1, outcomes.skip(1));
        assert(seq![first->action] + rollback_actions(run.plan, cursor + 1, run.done)
            =~= rollback_actions(run.plan, cursor, run.done));
    } else {
        assert(outcomes.skip(1).len() == 0);
        assert(seq![first->action] + Seq::<NewActionView>::empty() =~= rollback_actions(
            run.plan,
            cursor,
            run.done,
        ));
    }
}

/// Rollback is complete. When adding a worktree or writing the record
/// fails, then, whatever the outcomes of the rollback's own actions, the run
/// asks for the removal of every worktree created so far, each from its
/// source repository, then for the removal of the forest's directory, and
/// ends with the failure that started the rollback.
pub proof fn law_rollback(
    run: NewRunView,
    action: NewActionView,
    error: Seq<char>,
    outcomes: Seq<OutcomeView>,
)
    requires
        run.wf(),
        run.stage is AddingWorktree || run.stage is WritingMeta,
        outcomes.len() == run.done + 1,
    ensures
        performed(
            NewProgressView::Perform { run, action },
            seq![OutcomeView::Failed { error }] + outcomes,
        ) == (
            seq![action] + rollback_actions(run.plan, 0, run.done),
            NewProgressView::Finished { outcome: NewOutcomeView::Failed { error } },
        ),
{
    let all = seq![OutcomeView::Failed { error }] + outcomes;
    assert(all[0] == OutcomeView::Failed { error });
    assert(all.skip(1) =~= outcomes);
    let failed = NewRunView { error, ..run };
    assert(run.next(all[0]) == failed.unwind(0));
    lemma_unwind(failed, 0, outcomes);
}

proof fn lemma_creation(run: NewRunView, outcomes: Seq<OutcomeView>)
    requires
        run.wf(),
        run.stage is WritingMeta,
        outcomes.len() == 2 * (run.plan.repo_plans.len() - run.done) + 1,
        forall|k: int| 0 <= k < outcomes.len() ==> outcomes[k] is Done,
    ensures
        performed(run.write_meta(), outcomes) == (
            creation_actions(run.plan, run.created_at, run.done),
            NewProgressView::Finished {
                outcome: NewOutcomeView::Created { result: result_of(run.plan, false) },
            },
        ),
    decreases run.plan.repo_plans.len() - run.done,
{
    let first = run.write_meta();
    assert(first->run == run);
    let second = run.advance();
    assert(run.next(outcomes[0]) == second);
    let o1 = outcomes.skip(1);
    assert(performed(first, outcomes) == (
        seq![first->action] + performed(second, o1).0,
        performed(second, o1).1,
    ));
    if run.done < run.plan.repo_plans.len() {
        let adding = second->run;
        let counted = NewRunView { done: run.done + 1, ..adding };
        let third = counted.write_meta();
        assert(o1[0] is Done) by {
            assert(o1[0] == outcomes[1]);
        }
        assert(adding.next(o1[0]) == third);
        let moved = NewRunView { stage: NewStage::WritingMeta, ..counted };
        assert(third == moved.write_meta());
        let o2 = o1.skip(1);
        assert forall|k: int| 0 <= k < o2.len() implies o2[k] is Done by {
            assert(o2[k] == outcomes[k + 2]);
        }
        lemma_creation(moved, o2);
        assert(performed(second, o1) == (
            seq![second->action] + performed(third, o2).0,
            performed(third, o2).1,
        ));
        assert(seq![first->action] + (seq![second->action] + creation_actions(
            run.plan,
            run.created_at,
            run.done + 1,
        )) =~= creation_actions(run.plan, run.created_at, run.done));
    } else {
        assert(performed(second, o1) == (Seq::<NewActionView>::empty(), second));
        assert(seq![first->action] + Seq::<NewActionView>::empty() =~= creation_actions(
            run.plan,
            run.created_at,
            run.done,
        ));
    }
}

/// The last action of a creation that meets no failure writes the record
/// with one entry for each repository of the plan.
pub proof fn law_last_record_is_complete(plan: ForestPlanView, created_at: Timestamp, done: nat)
    requires
        done <= plan.repo_plans.len(),
    ensures
        creation_actions(plan, created_at, done).len() == 2 * (plan.repo_plans.len() - done) + 1,
        creation_actions(plan, created_at, done).last() == (NewActionView::WriteMeta {
            path: plan.meta_path(),
            meta: plan.meta_after(created_at, plan.repo_plans.len()),
        }),
    decreases plan.repo_plans.len() - done,
{
    if done < plan.repo_plans.len() {
        law_last_record_is_complete(plan, created_at, done + 1);
    }
}

/// The record reflects what was created. A creation that meets no failure
/// creates the directory, writes the record with no repository, then for
/// each repository in the plan's order adds its worktree and writes the
/// record again, and ends with the plan's result. Each record written holds
/// one entry for each worktree created before it, and an entry says that
/// the branch was created exactly where the checkout made a new branch.
pub proof fn law_creation(plan: ForestPlanView, created_at: Timestamp, outcomes: Seq<OutcomeView>)
    requires
        outcomes.len() == 2 * plan.repo_plans.len() + 2,
        forall|k: int| 0 <= k < outcomes.len() ==> outcomes[k] is Done,
    ensures
        performed(begin(plan, created_at), outcomes) == (
            seq![NewActionView::CreateForestDir { path: plan.forest_dir }] + creation_actions(
                plan,
                created_at,
                0,
            ),
            NewProgressView::Finished {
                outcome: NewOutcomeView::Created { result: result_of(plan, false) },
            },
        ),
        forall|done: nat|
            done <= plan.repo_plans.len() ==> (#[trigger] plan.meta_after(
                created_at,
                done,
            )).repos.len() == done,
        forall|done: nat, i: int|
            0 <= i < done <= plan.repo_plans.len() ==> (#[trigger] plan.meta_after(
                created_at,
                done,
            ).repos[i]).branch_created == (plan.repo_plans[i].checkout is NewBranch),
        forall|i: int|
            0 <= i < plan.repo_plans.len() ==> (#[trigger] result_of(
                plan,
                false,
            ).repos[i]).branch_created == (plan.repo_plans[i].checkout is NewBranch),
{
    let start = begin(plan, created_at);
    let run = start->run;
    let moved = NewRunView { stage: NewStage::WritingMeta, ..run };
    assert(run.next(outcomes[0]) == moved.write_meta());
    lemma_creation(moved, outcomes.skip(1));
}

proof fn lemma_failure(run: NewRunView, outcomes: Seq<OutcomeView>, k: int)
    requires
        run.wf(),
        run.stage is WritingMeta,
        0 <= k <= 2 * (run.plan.repo_plans.len() - run.done),
        outcomes.len() == k + run.done + k / 2 + 2,
        forall|j: int| 0 <= j < k ==> (#[trigger] outcomes[j]) is Done,
        outcomes[k] is Failed,
    ensures
        performed(run.write_meta(), outcomes) == (
            creation_actions(run.plan, run.created_at, run.done).take(k + 1) + rollback_actions(
                run.plan,
                0,
                (run.done + k / 2) as nat,
            ),
            NewProgressView::Finished {
                outcome: NewOutcomeView::Failed { error: outcomes[k]->error },
            },
        ),
    decreases k,
{
    let error = outcomes[k]->error;
    let all = creation_actions(run.plan, run.created_at, run.done);
    law_last_record_is_complete(run.plan, run.created_at, run.done);
    let first = run.write_meta();
    assert(first->run == run);
    let o1 = outcomes.skip(1);
    assert(performed(first, outcomes) == (
        seq![first->action] + performed(run.next(outcomes[0]), o1).0,
        performed(run.next(outcomes[0]), o1).1,
    ));
    if k == 0 {
        let failed = NewRunView { error, ..run };
        assert(run.next(outcomes[0]) == failed.unwind(0));
        lemma_unwind(failed, 0, o1);
        assert(all.take(1) =~= seq![first->action]);
    } else {
        let second = run.advance();
        assert(outcomes[0] is Done);
        assert(run.next(outcomes[0]) == second);
        let adding = second->run;
        let o2 = o1.skip(1);
        assert(o1[0] == outcomes[1]);
        assert(performed(second, o1) == (
            seq![second->action] + performed(adding.next(o1[0]), o2).0,
            performed(adding.next(o1[0]), o2).1,
        ));
        if k == 1 {
            let failed = NewRunView { error, ..adding };
            assert(adding.next(o1[0]) == failed.unwind(0));
            lemma_unwind(failed, 0, o2);
            assert(all.take(2) =~= seq![first->action] + seq![second->action]);
            assert(seq![first->action] + (seq![second->action] + rollback_actions(
                run.plan,
                0,
                run.done,
            )) =~= all.take(2) + rollback_actions(run.plan, 0, run.done));
        } else {
            assert(outcomes[1] is Done);
            let counted = NewRunView { done: run.done + 1, ..adding };
            let moved = NewRunView { stage: NewStage::WritingMeta, ..counted };
            assert(adding.next(o1[0]) == moved.write_meta());
            assert forall|j: int| 0 <= j < k - 2 implies (#[trigger] o2[j]) is Done by {
                assert(o2[j] == outcomes[j + 2]);
            }
            assert(o2[k - 2] == outcomes[k]);
            lemma_failure(moved, o2, k - 2);
            let rest = creation_actions(run.plan, run.created_at, run.done + 1);
            law_last_record_is_complete(run.plan, run.created_at, run.done + 1);
            let undo = rollback_actions(run.plan, 0, (run.done + k / 2) as nat);
            assert(all =~= seq![first->action] + (seq![second->action] + rest));
            assert(all.take(k + 1) =~= seq![first->action] + (seq![second->action] + rest.take(
                k - 1,
            )));
            assert(seq![first->action] + (seq![second->action] + (rest.take(k - 1) + undo))
                =~= all.take(k + 1) + undo);
        }
    }
}

/// The actions of a creation that meets no failure, from the first on.
pub open spec fn all_creation_actions(plan: ForestPlanView, created_at: Timestamp) -> Seq<
    NewActionView,
> {
    seq![NewActionView::CreateForestDir { path: plan.forest_dir }] + creation_actions(
        plan,
        created_at,
        0,
    )
}

/// How many worktrees were added when action `k` of a creation is the first
/// to fail: the directory comes first, then the record and a worktree in
/// turn.
pub open spec fn added_before(k: int) -> nat {
    if k <= 0 {
        0
    } else {
        ((k - 1) / 2) as nat
    }
}

/// A creation fails with nothing left behind, whichever action fails. When
/// the creation of the directory fails, nothing else is asked for. When a
/// later action is the first to fail, then, whatever the outcomes of the
/// rollback's own actions, the run asks for the removal of each worktree
/// added until then and of the forest's directory, for nothing more, and
/// ends with that first failure.
pub proof fn law_failure_is_rolled_back(
    plan: ForestPlanView,
    created_at: Timestamp,
    outcomes: Seq<OutcomeView>,
    k: int,
)
    requires
        0 <= k <= 2 * plan.repo_plans.len() + 1,
        outcomes.len() == (if k == 0 {
            1
        } else {
            k + added_before(k) + 2
        }),
        forall|j: int| 0 <= j < k ==> (#[trigger] outcomes[j]) is Done,
        outcomes[k] is Failed,
    ensures
        performed(begin(plan, created_at), outcomes) == (
            if k == 0 {
                all_creation_actions(plan, created_at).take(1)
            } else {
                all_creation_actions(plan, created_at).take(k + 1) + rollback_actions(
                    plan,
                    0,
                    added_before(k),
                )
            },
            NewProgressView::Finished {
                outcome: NewOutcomeView::Failed { error: outcomes[k]->error },
            },
        ),
        added_before(k) <= plan.repo_plans.len(),
{
    let start = begin(plan, created_at);
    let run = start->run;
    let all = all_creation_actions(plan, created_at);
    let o1 = outcomes.skip(1);
    assert(performed(start, outcomes) == (
        seq![start->action] + performed(run.next(outcomes[0]), o1).0,
        performed(run.next(outcomes[0]), o1).1,
    ));
    if k == 0 {
        assert(performed(run.next(outcomes[0]), o1).0 =~= Seq::<NewActionView>::empty());
        assert(all.take(1) =~= seq![start->action]);
        assert(seq![start->action] + Seq::<NewActionView>::empty() =~= all.take(1));
    } else {
        let moved = NewRunView { stage: NewStage::WritingMeta, ..run };
        assert(outcomes[0] is Done);
        assert(run.next(outcomes[0]) == moved.write_meta());
        assert forall|j: int| 0 <= j < k - 1 implies (#[trigger] o1[j]) is Done by {
            assert(o1[j] == outcomes[j + 1]);
        }
        assert(o1[k - 1] == outcomes[k]);
        lemma_failure(moved, o1, k - 1);
        law_last_record_is_complete(plan, created_at, 0);
        let rest = creation_actions(plan, created_at, 0);
        let undo = rollback_actions(plan, 0, added_before(k));
        assert(all.take(k + 1) =~= seq![start->action] + rest.take(k));
        assert(seq![start->action] + (rest.take(k) + undo) =~= all.take(k + 1) + undo);
    }
}

/// Begins to carry out a plan. The record will bear `created_at`. On a
/// failure after the directory was created, everything created is removed
/// again.
pub fn execute_plan(plan: ForestPlan, created_at: Timestamp) -> (r: NewProgress)
    ensures
        r@ == begin(plan@, created_at),
{
    NewRun::start(plan, created_at)
}

/// How the command begins: with the result of a dry run, or with the first
/// action of a run.
#[derive(Debug)]
pub enum NewStart {
    DryRun { result: NewResult },
    Run { progress: NewProgress },
}

/// The mathematical content of a [`NewStart`].
pub enum NewStartView {
    DryRun { result: NewResultView },
    Run { progress: NewProgressView },
}

impl View for NewStart {
    type V = NewStartView;

    open spec fn view(&self) -> NewStartView {
        match *self {
            NewStart::DryRun { result } => NewStartView::DryRun { result: result@ },
            NewStart::Run { progress } => NewStartView::Run { progress: progress@ },
        }
    }
}

/// What the command does with a request: it plans; a plan that fails is the
/// answer; a dry run answers with the plan's result and asks for nothing;
/// otherwise the run begins, and its record will bear `created_at`.
pub open spec fn new_started(
    inputs: NewInputsView,
    tmpl: ResolvedTemplateView,
    probes: PlanProbesView,
    created_at: Timestamp,
) -> Result<NewStartView, PlanErrorView> {
    match planned(inputs, tmpl, probes) {
        Err(e) => Err(e),
        Ok(plan) => if inputs.dry_run {
            Ok(NewStartView::DryRun { result: result_of(plan, true) })
        } else {
            Ok(NewStartView::Run { progress: begin(plan, created_at) })
        },
    }
}

/// A plan made for a template whose repository names are relative is
/// contained in the forest's directory.
pub proof fn law_planned_is_contained(
    inputs: NewInputsView,
    tmpl: ResolvedTemplateView,
    probes: PlanProbesView,
)
    requires
        tmpl.names_relative(),
    ensures
        planned(inputs, tmpl, probes) matches Ok(plan) ==> plan.contained(),
{
    if planned(inputs, tmpl, probes) is Ok {
        let plan = planned(inputs, tmpl, probes)->Ok_0;
        let p = |i: int| repo_planned(inputs, tmpl, probes, i) is Err;
        lemma_first_where(tmpl.repos.len(), p);
        assert(first_unplanned(inputs, tmpl, probes) is None);
        assert forall|i: int| 0 <= i < plan.repo_plans.len() implies inside(
            plan.forest_dir,
            (#[trigger] plan.repo_plans[i]).dest,
        ) by {
            let rel = tmpl.repos[i].name;
            assert(!p(i));
            assert(plan.repo_plans[i] == repo_planned(inputs, tmpl, probes, i)->Ok_0);
            assert(joined_path(plan.forest_dir, rel) == plan.repo_plans[i].dest);
        }
    }
}

/// Whether `after` are the facts of `before` but for this: the forest's
/// directory is not there, and branches that were absent locally may have
/// come to be. This is what a creation leaves that was rolled back: its
/// worktrees and its directory are removed again, and the branches that its
/// worktrees were given stay behind.
pub open spec fn left_by_rollback(before: PlanProbesView, after: PlanProbesView) -> bool {
    &&& !after.forest_dir_exists
    &&& after.scan == before.scan
    &&& after.repos.len() == before.repos.len()
    &&& forall|i: int|
        0 <= i < before.repos.len() ==> {
            let b = before.repos[i];
            let a = #[trigger] after.repos[i];
            &&& a.source_is_dir == b.source_is_dir
            &&& a.remote_branch == b.remote_branch
            &&& a.base_branch == b.base_branch
            &&& (a.local_branch == b.local_branch || (b.local_branch is Absent && a.local_branch
                is Present))
        }
}

/// A repository's plan as it is made a second time: the same, but for a
/// worktree that attaches to its branch where the branch is there by now.
pub open spec fn replanned(first: RepoPlanView, probe: RepoProbeView) -> RepoPlanView {
    RepoPlanView {
        checkout: if probe.local_branch is Present {
            CheckoutKind::ExistingLocal
        } else {
            first.checkout
        },
        ..first
    }
}

/// A creation that was rolled back can be asked for again. Where a request
/// was planned, and the facts found later are what a rollback of its run
/// leaves, the same request is planned again: for the same name and
/// directory, with every repository of the template, each at its place and
/// on its branch as before. Neither the directory of the first attempt nor
/// a branch that it made stands in the way; such a branch is attached to.
/// The second plan is contained where the first was, its run begins with
/// the creation of the directory, and a run of it that meets no failure
/// ends with a result for every repository.
pub proof fn law_retry_after_rollback(
    inputs: NewInputsView,
    tmpl: ResolvedTemplateView,
    before: PlanProbesView,
    after: PlanProbesView,
    created_at: Timestamp,
    outcomes: Seq<OutcomeView>,
)
    requires
        before.repos.len() == tmpl.repos.len(),
        planned(inputs, tmpl, before) is Ok,
        left_by_rollback(before, after),
        !inputs.dry_run,
        outcomes.len() == 2 * tmpl.repos.len() + 2,
        forall|k: int| 0 <= k < outcomes.len() ==> outcomes[k] is Done,
    ensures
        planned(inputs, tmpl, after) is Ok,
        ({
            let first = planned(inputs, tmpl, before)->Ok_0;
            let again = planned(inputs, tmpl, after)->Ok_0;
            &&& again.forest_name == first.forest_name
            &&& again.forest_dir == first.forest_dir
            &&& again.mode == first.mode
            &&& again.repo_plans.len() == tmpl.repos.len()
            &&& forall|i: int|
                0 <= i < tmpl.repos.len() ==> #[trigger] again.repo_plans[i] == replanned(
                    first.repo_plans[i],
                    after.repos[i],
                )
            &&& first.contained() ==> again.contained()
            &&& new_started(inputs, tmpl, after, created_at) == Ok::<NewStartView, PlanErrorView>(
                NewStartView::Run { progress: begin(again, created_at) },
            )
            &&& performed(begin(again, created_at), outcomes).1 == (NewProgressView::Finished {
                outcome: NewOutcomeView::Created { result: result_of(again, false) },
            })
            &&& result_of(again, false).repos.len() == tmpl.repos.len()
            &&& !result_of(again, false).dry_run
        }),
{
    let n = tmpl.repos.len();
    let first = planned(inputs, tmpl, before)->Ok_0;
    let missed = |i: int| !before.repos[i].source_is_dir;
    let misses = |i: int| !after.repos[i].source_is_dir;
    let failed = |i: int| repo_planned(inputs, tmpl, before, i) is Err;
    let fails = |i: int| repo_planned(inputs, tmpl, after, i) is Err;
    lemma_first_where(n, missed);
    lemma_first_where(n, failed);
    assert forall|i: int| 0 <= i < n implies !#[trigger] misses(i) by {
        assert(!missed(i));
        assert(after.repos[i].source_is_dir == before.repos[i].source_is_dir);
    }
    lemma_first_where_none(n, misses);
    assert forall|i: int| 0 <= i < n implies !#[trigger] fails(i) && repo_planned(
        inputs,
        tmpl,
        after,
        i,
    )->Ok_0 == replanned(first.repo_plans[i], after.repos[i]) by {
        assert(!failed(i));
        assert(first.repo_plans[i] == repo_planned(inputs, tmpl, before, i)->Ok_0);
        assert(after.repos[i].remote_branch == before.repos[i].remote_branch);
    }
    lemma_first_where_none(n, fails);
    assert(first_unplanned(inputs, tmpl, after) is None);
    assert(planned(inputs, tmpl, after) is Ok);
    let again = planned(inputs, tmpl, after)->Ok_0;
    assert forall|i: int| 0 <= i < n implies #[trigger] again.repo_plans[i] == replanned(
        first.repo_plans[i],
        after.repos[i],
    ) by {
        assert(!fails(i));
        assert(again.repo_plans[i] == repo_planned(inputs, tmpl, after, i)->Ok_0);
    }
    if first.contained() {
        assert forall|i: int| 0 <= i < again.repo_plans.len() implies inside(
            again.forest_dir,
            (#[trigger] again.repo_plans[i]).dest,
        ) by {
            assert(again.repo_plans[i] == replanned(first.repo_plans[i], after.repos[i]));
            assert(inside(first.forest_dir, first.repo_plans[i].dest));
        }
    }
    law_creation(again, created_at, outcomes);
}

/// The command with the time of creation given.
pub fn cmd_new_at(
    inputs: &NewInputs,
    tmpl: &ResolvedTemplate,
    probes: &PlanProbes,
    created_at: Timestamp,
) -> (r: Result<NewStart, PlanError>)
    requires
        probes.repos.len() == tmpl.repos.len(),
    ensures
        match r {
            Ok(s) => new_started(inputs@, tmpl@, probes@, created_at) == Ok::<
                NewStartView,
                PlanErrorView,
            >(s@),
            Err(e) => new_started(inputs@, tmpl@, probes@, created_at) == Err::<
                NewStartView,
                PlanErrorView,
            >(e@),
        },
{
    let plan = match plan_forest(inputs, tmpl, probes) {
        Ok(p) => p,
        Err(e) => {
            return Err(e);
        },
    };
    if inputs.dry_run {
        return Ok(NewStart::DryRun { result: plan_to_result(&plan, true) });
    }
    Ok(NewStart::Run { progress: execute_plan(plan, created_at) })
}

/// Creates a forest, or says what creating it would do. The time of
/// creation is the time of the call.
pub fn cmd_new(inputs: &NewInputs, tmpl: &ResolvedTemplate, probes: &PlanProbes) -> (r: Result<
    NewStart,
    PlanError,
>)
    requires
        probes.repos.len() == tmpl.repos.len(),
    ensures
        exists|created_at: Timestamp|
            match r {
                Ok(s) => #[trigger] new_started(inputs@, tmpl@, probes@, created_at) == Ok::<
                    NewStartView,
                    PlanErrorView,
                >(s@),
                Err(e) => new_started(inputs@, tmpl@, probes@, created_at) == Err::<
                    NewStartView,
                    PlanErrorView,
                >(e@),
            },
{
    let created_at = now();
    let r = cmd_new_at(inputs, tmpl, probes, created_at);
    assert(match r {
        Ok(s) => new_started(inputs@, tmpl@, probes@, created_at) == Ok::<
            NewStartView,
            PlanErrorView,
        >(s@),
        Err(e) => new_started(inputs@, tmpl@, probes@, created_at) == Err::<
            NewStartView,
            PlanErrorView,
        >(e@),
    });
    r
}

} // verus!
