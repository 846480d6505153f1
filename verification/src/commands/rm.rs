//! Removing a forest: the plan with its frozen facts, the preflight, and
//! what a dry run reports.

use crate::git::{no_args, push_arg, Outcome, OutcomeView};
use crate::meta::{ForestMeta, ForestMetaView, RepoMetaView};
use crate::paths::{join_text, joined_path, AbsolutePath, ForestName, RepoName};
use crate::seqs::{lemma_view_each_push, view_each};
use crate::text::{join, joined, push_line, push_section, quote, quoted, section, str_eq};
use vstd::prelude::*;
use vstd::string::*;

verus! {

/// What was found out about one repository of the forest, once, at the
/// time of planning.
#[derive(Debug)]
pub struct RmProbe {
    /// Whether the worktree's directory exists.
    pub worktree_exists: bool,
    /// Whether the source repository is a directory.
    pub source_exists: bool,
    /// What asking the worktree for its uncommitted changes came to. It is
    /// read only where the worktree exists.
    pub status: Outcome,
}

/// The mathematical content of an [`RmProbe`].
pub struct RmProbeView {
    pub worktree_exists: bool,
    pub source_exists: bool,
    pub status: OutcomeView,
}

impl View for RmProbe {
    type V = RmProbeView;

    open spec fn view(&self) -> RmProbeView {
        RmProbeView {
            worktree_exists: self.worktree_exists,
            source_exists: self.source_exists,
            status: self.status@,
        }
    }
}

impl RmProbeView {
    /// A worktree is dirty when it exists and its status could be read and
    /// is not empty.
    pub open spec fn dirty(self) -> bool {
        self.worktree_exists && self.status is Done && self.status->output.len() > 0
    }
}

/// One repository's part of a removal plan.
#[derive(Debug)]
pub struct RepoRmPlan {
    pub name: RepoName,
    pub worktree_path: String,
    pub source: AbsolutePath,
    pub branch: String,
    pub base_branch: String,
    pub branch_created: bool,
    pub worktree_exists: bool,
    pub source_exists: bool,
    pub has_dirty_files: bool,
}

/// The mathematical content of a [`RepoRmPlan`].
pub struct RepoRmPlanView {
    pub name: Seq<char>,
    pub worktree_path: Seq<char>,
    pub source: Seq<char>,
    pub branch: Seq<char>,
    pub base_branch: Seq<char>,
    pub branch_created: bool,
    pub worktree_exists: bool,
    pub source_exists: bool,
    pub has_dirty_files: bool,
}

impl View for RepoRmPlan {
    type V = RepoRmPlanView;

    open spec fn view(&self) -> RepoRmPlanView {
        RepoRmPlanView {
            name: self.name@,
            worktree_path: self.worktree_path@,
            source: self.source@,
            branch: self.branch@,
            base_branch: self.base_branch@,
            branch_created: self.branch_created,
            worktree_exists: self.worktree_exists,
            source_exists: self.source_exists,
            has_dirty_files: self.has_dirty_files,
        }
    }
}

/// A removal plan.
#[derive(Debug)]
pub struct RmPlan {
    pub forest_name: ForestName,
    pub forest_dir: String,
    pub repo_plans: Vec<RepoRmPlan>,
}

/// The mathematical content of an [`RmPlan`].
pub struct RmPlanView {
    pub forest_name: Seq<char>,
    pub forest_dir: Seq<char>,
    pub repo_plans: Seq<RepoRmPlanView>,
}

impl View for RmPlan {
    type V = RmPlanView;

    open spec fn view(&self) -> RmPlanView {
        RmPlanView {
            forest_name: self.forest_name@,
            forest_dir: self.forest_dir@,
            repo_plans: view_each(self.repo_plans@),
        }
    }
}

/// How one step of a removal ended.
#[derive(Debug)]
pub enum RmOutcome {
    Success,
    Skipped { reason: String },
    Failed { error: String },
}

/// The mathematical content of an [`RmOutcome`].
pub enum RmOutcomeView {
    Success,
    Skipped { reason: Seq<char> },
    Failed { error: Seq<char> },
}

impl View for RmOutcome {
    type V = RmOutcomeView;

    open spec fn view(&self) -> RmOutcomeView {
        match *self {
            RmOutcome::Success => RmOutcomeView::Success,
            RmOutcome::Skipped { reason } => RmOutcomeView::Skipped { reason: reason@ },
            RmOutcome::Failed { error } => RmOutcomeView::Failed { error: error@ },
        }
    }
}

impl Clone for RmOutcome {
    fn clone(&self) -> (r: RmOutcome)
        ensures
            r@ == self@,
    {
        match self {
            RmOutcome::Success => RmOutcome::Success,
            RmOutcome::Skipped { reason } => RmOutcome::Skipped { reason: reason.clone() },
            RmOutcome::Failed { error } => RmOutcome::Failed { error: error.clone() },
        }
    }
}

/// What removing one repository's part came to.
#[derive(Debug)]
pub struct RepoRmResult {
    pub name: RepoName,
    pub worktree_removed: RmOutcome,
    pub branch_deleted: RmOutcome,
}

/// The mathematical content of a [`RepoRmResult`].
pub struct RepoRmResultView {
    pub name: Seq<char>,
    pub worktree_removed: RmOutcomeView,
    pub branch_deleted: RmOutcomeView,
}

impl View for RepoRmResult {
    type V = RepoRmResultView;

    open spec fn view(&self) -> RepoRmResultView {
        RepoRmResultView {
            name: self.name@,
            worktree_removed: self.worktree_removed@,
            branch_deleted: self.branch_deleted@,
        }
    }
}

impl Clone for RepoRmResult {
    fn clone(&self) -> (r: RepoRmResult)
        ensures
            r@ == self@,
    {
        RepoRmResult {
            name: self.name.clone(),
            worktree_removed: self.worktree_removed.clone(),
            branch_deleted: self.branch_deleted.clone(),
        }
    }
}

/// What removing a forest came to, or would come to.
#[derive(Debug)]
pub struct RmResult {
    pub forest_name: ForestName,
    pub forest_dir: String,
    pub dry_run: bool,
    pub force: bool,
    pub repos: Vec<RepoRmResult>,
    pub forest_dir_removed: bool,
    pub errors: Vec<String>,
}

/// The mathematical content of an [`RmResult`].
pub struct RmResultView {
    pub forest_name: Seq<char>,
    pub forest_dir: Seq<char>,
    pub dry_run: bool,
    pub force: bool,
    pub repos: Seq<RepoRmResultView>,
    pub forest_dir_removed: bool,
    pub errors: Seq<Seq<char>>,
}

impl View for RmResult {
    type V = RmResultView;

    open spec fn view(&self) -> RmResultView {
        RmResultView {
            forest_name: self.forest_name@,
            forest_dir: self.forest_dir@,
            dry_run: self.dry_run,
            force: self.force,
            repos: view_each(self.repos@),
            forest_dir_removed: self.forest_dir_removed,
            errors: view_each(self.errors@),
        }
    }
}

/// What a removal lets its caller know while it runs.
#[derive(Debug)]
pub enum RmProgress {
    RepoStarting { name: RepoName },
    RepoDone { result: RepoRmResult },
}

/// The mathematical content of an [`RmProgress`].
pub enum RmProgressView {
    RepoStarting { name: Seq<char> },
    RepoDone { result: RepoRmResultView },
}

impl View for RmProgress {
    type V = RmProgressView;

    open spec fn view(&self) -> RmProgressView {
        match *self {
            RmProgress::RepoStarting { name } => RmProgressView::RepoStarting { name: name@ },
            RmProgress::RepoDone { result } => RmProgressView::RepoDone { result: result@ },
        }
    }
}

/// One repository's part of the plan: its record, with the facts frozen in.
pub open spec fn repo_rm_planned(forest_dir: Seq<char>, repo: RepoMetaView, probe: RmProbeView)
    -> RepoRmPlanView {
    RepoRmPlanView {
        name: repo.name,
        worktree_path: joined_path(forest_dir, repo.name),
        source: repo.source,
        branch: repo.branch,
        base_branch: repo.base_branch,
        branch_created: repo.branch_created,
        worktree_exists: probe.worktree_exists,
        source_exists: probe.source_exists,
        has_dirty_files: probe.dirty(),
    }
}

/// The removal plan for a forest, from its record and the facts found out.
pub open spec fn rm_planned(forest_dir: Seq<char>, meta: ForestMetaView, probes: Seq<RmProbeView>)
    -> RmPlanView {
    RmPlanView {
        forest_name: meta.name,
        forest_dir,
        repo_plans: Seq::new(
            meta.repos.len(),
            |i: int| repo_rm_planned(forest_dir, meta.repos[i], probes[i]),
        ),
    }
}

/// Plans the removal of a forest. The facts in `probes`, one for each
/// repository of the record, are frozen into the plan.
pub fn plan_rm(forest_dir: &str, meta: &ForestMeta, probes: &Vec<RmProbe>) -> (r: RmPlan)
    requires
        probes.len() == meta.repos.len(),
    ensures
        r@ == rm_planned(forest_dir@, meta@, view_each(probes@)),
{
    let mut repo_plans: Vec<RepoRmPlan> = Vec::new();
    let mut i: usize = 0;
    while i < meta.repos.len()
        invariant
            i <= meta.repos.len(),
            probes.len() == meta.repos.len(),
            view_each(repo_plans@) == Seq::new(
                i as nat,
                |j: int| repo_rm_planned(forest_dir@, meta@.repos[j], view_each(probes@)[j]),
            ),
        decreases meta.repos.len() - i,
    {
        let repo = &meta.repos[i];
        let probe = &probes[i];
        let dirty = probe.worktree_exists && match &probe.status {
            Outcome::Done { output } => output.as_str().unicode_len() > 0,
            Outcome::Failed { .. } => false,
        };
        let rp = RepoRmPlan {
            name: repo.name.clone(),
            worktree_path: join_text(forest_dir, repo.name.as_str()),
            source: repo.source.clone(),
            branch: repo.branch.clone(),
            base_branch: repo.base_branch.clone(),
            branch_created: repo.branch_created,
            worktree_exists: probe.worktree_exists,
            source_exists: probe.source_exists,
            has_dirty_files: dirty,
        };
        proof {
            lemma_view_each_push(repo_plans@, rp);
            assert(meta@.repos[i as int] == repo@);
            assert(view_each(probes@)[i as int] == probe@);
            assert(Seq::new(
                (i + 1) as nat,
                |j: int| repo_rm_planned(forest_dir@, meta@.repos[j], view_each(probes@)[j]),
            ) =~= Seq::new(
                i as nat,
                |j: int| repo_rm_planned(forest_dir@, meta@.repos[j], view_each(probes@)[j]),
            ).push(rp@));
        }
        repo_plans.push(rp);
        i += 1;
    }
    RmPlan {
        forest_name: meta.name.clone(),
        forest_dir: String::from_str(forest_dir),
        repo_plans,
    }
}

/// The texts of a refused removal.
pub open spec fn dirty_text(name: Seq<char>) -> Seq<char> {
    name + ": worktree has uncommitted changes"@
}

pub open spec fn dirty_hint() -> Seq<char> {
    "hint: commit or stash changes, then retry — or use `git forest rm --force`"@
}

/// What a refused removal reports for one repository: a dirty one blocks,
/// a clean one is blocked; neither is touched.
pub open spec fn blocked_repo(rp: RepoRmPlanView) -> RepoRmResultView {
    if rp.has_dirty_files {
        RepoRmResultView {
            name: rp.name,
            worktree_removed: RmOutcomeView::Failed { error: dirty_text(rp.name) },
            branch_deleted: RmOutcomeView::Skipped { reason: "worktree not removed"@ },
        }
    } else {
        RepoRmResultView {
            name: rp.name,
            worktree_removed: RmOutcomeView::Skipped { reason: "blocked by dirty repos"@ },
            branch_deleted: RmOutcomeView::Skipped { reason: "blocked by dirty repos"@ },
        }
    }
}

/// One error for each dirty repository, in the plan's order.
pub open spec fn dirty_errors(plans: Seq<RepoRmPlanView>) -> Seq<Seq<char>>
    decreases plans.len(),
{
    if plans.len() == 0 {
        Seq::empty()
    } else if plans.last().has_dirty_files {
        dirty_errors(plans.drop_last()).push(dirty_text(plans.last().name))
    } else {
        dirty_errors(plans.drop_last())
    }
}

/// What a dry run reports for one repository of a removal that would go
/// ahead: what a run decides from the same facts, taking every action that
/// it would ask for to succeed. A worktree that is gone is skipped; a branch
/// is skipped if the forest did not create it, or if its source repository
/// is gone.
pub open spec fn dry_repo(rp: RepoRmPlanView) -> RepoRmResultView {
    RepoRmResultView {
        name: rp.name,
        worktree_removed: if rp.worktree_exists {
            RmOutcomeView::Success
        } else {
            RmOutcomeView::Skipped { reason: "worktree already missing"@ }
        },
        branch_deleted: if !rp.branch_created {
            RmOutcomeView::Skipped { reason: "branch not created by forest"@ }
        } else if !rp.source_exists {
            RmOutcomeView::Skipped { reason: "source repo missing"@ }
        } else {
            RmOutcomeView::Success
        },
    }
}

impl RmPlanView {
    /// Some worktree of the plan has uncommitted changes.
    pub open spec fn any_dirty(self) -> bool {
        exists|i: int| 0 <= i < self.repo_plans.len() && (#[trigger] self.repo_plans[i]).has_dirty_files
    }

    /// A removal is refused when it is not forced and some worktree has
    /// uncommitted changes.
    pub open spec fn blocked(self, force: bool) -> bool {
        !force && self.any_dirty()
    }

    /// The result of a refused removal: nothing removed, every repository
    /// reported as blocking or blocked, one error for each that blocks, and
    /// a hint at the remedies.
    pub open spec fn blocked_result(self, force: bool, dry_run: bool) -> RmResultView {
        RmResultView {
            forest_name: self.forest_name,
            forest_dir: self.forest_dir,
            dry_run,
            force,
            repos: Seq::new(self.repo_plans.len(), |i: int| blocked_repo(self.repo_plans[i])),
            forest_dir_removed: false,
            errors: dirty_errors(self.repo_plans).push(dirty_hint()),
        }
    }

    /// What a dry run reports: the refusal, where the removal would be
    /// refused; otherwise what the frozen facts let expect.
    pub open spec fn dry_run_result(self, force: bool) -> RmResultView {
        if self.blocked(force) {
            self.blocked_result(force, true)
        } else {
            RmResultView {
                forest_name: self.forest_name,
                forest_dir: self.forest_dir,
                dry_run: true,
                force,
                repos: Seq::new(self.repo_plans.len(), |i: int| dry_repo(self.repo_plans[i])),
                forest_dir_removed: true,
                errors: Seq::empty(),
            }
        }
    }
}

fn skipped(reason: &str) -> (r: RmOutcome)
    ensures
        r@ == (RmOutcomeView::Skipped { reason: reason@ }),
{
    RmOutcome::Skipped { reason: String::from_str(reason) }
}

impl RmPlan {
    /// Whether some worktree of the plan has uncommitted changes.
    pub fn any_dirty(&self) -> (r: bool)
        ensures
            r == self@.any_dirty(),
    {
        let mut i: usize = 0;
        while i < self.repo_plans.len()
            invariant
                i <= self.repo_plans.len(),
                forall|j: int| 0 <= j < i ==> !(#[trigger] self@.repo_plans[j]).has_dirty_files,
            decreases self.repo_plans.len() - i,
        {
            assert(self@.repo_plans[i as int] == self.repo_plans@[i as int]@);
            if self.repo_plans[i].has_dirty_files {
                return true;
            }
            i += 1;
        }
        false
    }

    /// The result of a refused removal.
    pub fn blocked_result(&self, force: bool, dry_run: bool) -> (r: RmResult)
        ensures
            r@ == self@.blocked_result(force, dry_run),
    {
        let mut repos: Vec<RepoRmResult> = Vec::new();
        let mut errors = no_args();
        let mut i: usize = 0;
        while i < self.repo_plans.len()
            invariant
                i <= self.repo_plans.len(),
                view_each(repos@) == Seq::new(i as nat, |j: int| blocked_repo(self@.repo_plans[j])),
                view_each(errors@) == dirty_errors(self@.repo_plans.take(i as int)),
            decreases self.repo_plans.len() - i,
        {
            let rp = &self.repo_plans[i];
            proof {
                assert(self@.repo_plans[i as int] == rp@);
                assert(self@.repo_plans.take(i + 1).drop_last() == self@.repo_plans.take(i as int));
            }
            let item = if rp.has_dirty_files {
                let mut msg = rp.name.display();
                msg.append(": worktree has uncommitted changes");
                push_arg(&mut errors, msg.as_str());
                RepoRmResult {
                    name: rp.name.clone(),
                    worktree_removed: RmOutcome::Failed { error: msg },
                    branch_deleted: skipped("worktree not removed"),
                }
            } else {
                RepoRmResult {
                    name: rp.name.clone(),
                    worktree_removed: skipped("blocked by dirty repos"),
                    branch_deleted: skipped("blocked by dirty repos"),
                }
            };
            proof {
                lemma_view_each_push(repos@, item);
                assert(Seq::new((i + 1) as nat, |j: int| blocked_repo(self@.repo_plans[j]))
                    =~= Seq::new(i as nat, |j: int| blocked_repo(self@.repo_plans[j])).push(item@));
            }
            repos.push(item);
            i += 1;
        }
        assert(self@.repo_plans.take(self.repo_plans.len() as int) == self@.repo_plans);
        push_arg(
            &mut errors,
            "hint: commit or stash changes, then retry — or use `git forest rm --force`",
        );
        RmResult {
            forest_name: self.forest_name.clone(),
            forest_dir: self.forest_dir.clone(),
            dry_run,
            force,
            repos,
            forest_dir_removed: false,
            errors,
        }
    }
}

/// What a dry run of the removal reports. Nothing is touched.
pub fn plan_to_dry_run_result(plan: &RmPlan, force: bool) -> (r: RmResult)
    ensures
        r@ == plan@.dry_run_result(force),
{
    if !force && plan.any_dirty() {
        return plan.blocked_result(force, true);
    }
    let mut repos: Vec<RepoRmResult> = Vec::new();
    let mut i: usize = 0;
    while i < plan.repo_plans.len()
        invariant
            i <= plan.repo_plans.len(),
            view_each(repos@) == Seq::new(i as nat, |j: int| dry_repo(plan@.repo_plans[j])),
        decreases plan.repo_plans.len() - i,
    {
        let rp = &plan.repo_plans[i];
        let item = RepoRmResult {
            name: rp.name.clone(),
            worktree_removed: if rp.worktree_exists {
                RmOutcome::Success
            } else {
                skipped("worktree already missing")
            },
            branch_deleted: if !rp.branch_created {
                skipped("branch not created by forest")
            } else if !rp.source_exists {
                skipped("source repo missing")
            } else {
                RmOutcome::Success
            },
        };
        proof {
            assert(plan@.repo_plans[i as int] == rp@);
            lemma_view_each_push(repos@, item);
            assert(Seq::new((i + 1) as nat, |j: int| dry_repo(plan@.repo_plans[j])) =~= Seq::new(
                i as nat,
                |j: int| dry_repo(plan@.repo_plans[j]),
            ).push(item@));
        }
        repos.push(item);
        i += 1;
    }
    RmResult {
        forest_name: plan.forest_name.clone(),
        forest_dir: plan.forest_dir.clone(),
        dry_run: true,
        force,
        repos,
        forest_dir_removed: true,
        errors: no_args(),
    }
}

/// How the worktree step ended, in words.
pub open spec fn worktree_text(outcome: RmOutcomeView, dry_run: bool) -> Seq<char> {
    match outcome {
        RmOutcomeView::Success => if dry_run {
            "remove worktree"@
        } else {
            "worktree removed"@
        },
        RmOutcomeView::Skipped { reason } => "worktree skipped ("@ + reason + ")"@,
        RmOutcomeView::Failed { .. } => "worktree FAILED"@,
    }
}

/// How the branch step ended, in words, to follow those of the worktree.
pub open spec fn branch_text(outcome: RmOutcomeView, dry_run: bool) -> Seq<char> {
    match outcome {
        RmOutcomeView::Success => if dry_run {
            ", delete branch"@
        } else {
            ", branch deleted"@
        },
        RmOutcomeView::Skipped { reason } => if reason == "branch not created by forest"@ {
            " (branch not ours)"@
        } else {
            ", branch skipped ("@ + reason + ")"@
        },
        RmOutcomeView::Failed { .. } => ", branch FAILED"@,
    }
}

/// What became of one repository, in words.
pub open spec fn repo_done_text(repo: RepoRmResultView, dry_run: bool) -> Seq<char> {
    worktree_text(repo.worktree_removed, dry_run) + branch_text(repo.branch_deleted, dry_run)
}

/// What became of the forest's directory, in words.
pub open spec fn dir_text(removed: bool) -> Seq<char> {
    if removed {
        "Forest directory removed."@
    } else {
        "Forest directory not removed (not empty)."@
    }
}

/// The lines that tell of a removal: what was or would be removed, one line
/// for each repository, the forest's directory, and the errors of a removal
/// that was carried out.
pub open spec fn rm_lines(result: RmResultView) -> Seq<Seq<char>> {
    (if result.dry_run {
        seq![
            "Dry run — no changes will be made."@,
            Seq::<char>::empty(),
            "Would remove forest "@ + quoted(result.forest_name),
        ]
    } else if result.errors.len() == 0 {
        seq!["Removed forest "@ + quoted(result.forest_name)]
    } else {
        seq!["Removed forest "@ + quoted(result.forest_name) + " (with errors)"@]
    }) + Seq::new(
        result.repos.len(),
        |i: int|
            "  "@ + result.repos[i].name + ": "@ + repo_done_text(result.repos[i], result.dry_run),
    ) + seq![
        if result.dry_run {
            "  Would remove forest directory"@
        } else {
            dir_text(result.forest_dir_removed)
        },
    ] + (if result.dry_run {
        Seq::<Seq<char>>::empty()
    } else {
        section("Errors:"@, result.errors)
    })
}

/// The lines that sum a removal up: the forest's directory, and the errors.
pub open spec fn rm_summary_lines(result: RmResultView) -> Seq<Seq<char>> {
    seq![dir_text(result.forest_dir_removed)] + section("Errors:"@, result.errors)
}

fn repo_done(repo: &RepoRmResult, dry_run: bool) -> (r: String)
    ensures
        r@ == repo_done_text(repo@, dry_run),
{
    let mut s = match &repo.worktree_removed {
        RmOutcome::Success => if dry_run {
            String::from_str("remove worktree")
        } else {
            String::from_str("worktree removed")
        },
        RmOutcome::Skipped { reason } => {
            let mut t = String::from_str("worktree skipped (");
            t.append(reason.as_str());
            t.append(")");
            t
        },
        RmOutcome::Failed { .. } => String::from_str("worktree FAILED"),
    };
    assert(s@ == worktree_text(repo@.worktree_removed, dry_run));
    match &repo.branch_deleted {
        RmOutcome::Success => if dry_run {
            s.append(", delete branch");
        } else {
            s.append(", branch deleted");
        },
        RmOutcome::Skipped { reason } => {
            if str_eq(reason.as_str(), "branch not created by forest") {
                s.append(" (branch not ours)");
            } else {
                s.append(", branch skipped (");
                s.append(reason.as_str());
                s.append(")");
            }
        },
        RmOutcome::Failed { .. } => {
            s.append(", branch FAILED");
        },
    }
    s
}

/// Writes what became of one repository, for the user.
pub fn format_repo_done(repo: &RepoRmResult) -> (r: String)
    ensures
        r@ == repo_done_text(repo@, false),
{
    repo_done(repo, false)
}

fn dir_line(removed: bool) -> (r: String)
    ensures
        r@ == dir_text(removed),
{
    if removed {
        String::from_str("Forest directory removed.")
    } else {
        String::from_str("Forest directory not removed (not empty).")
    }
}

/// Writes the end of a removal whose progress was shown as it went.
pub fn format_rm_summary(result: &RmResult) -> (r: String)
    ensures
        r@ == joined(rm_summary_lines(result@), "\n"@),
{
    let mut lines: Vec<String> = Vec::new();
    assert(view_each(lines@) =~= Seq::<Seq<char>>::empty());
    push_line(&mut lines, dir_line(result.forest_dir_removed));
    push_section(&mut lines, "Errors:", &result.errors);
    assert(view_each(lines@) =~= rm_summary_lines(result@));
    join(&lines, "\n")
}

/// Writes what a removal came to, for the user.
pub fn format_rm_human(result: &RmResult) -> (r: String)
    ensures
        r@ == joined(rm_lines(result@), "\n"@),
{
    let mut lines: Vec<String> = Vec::new();
    assert(view_each(lines@) =~= Seq::<Seq<char>>::empty());
    let name = quote(result.forest_name.as_str());
    if result.dry_run {
        push_line(&mut lines, String::from_str("Dry run — no changes will be made."));
        push_line(&mut lines, String::new());
        let mut t = String::from_str("Would remove forest ");
        t.append(name.as_str());
        push_line(&mut lines, t);
    } else if result.errors.len() == 0 {
        let mut t = String::from_str("Removed forest ");
        t.append(name.as_str());
        push_line(&mut lines, t);
    } else {
        let mut t = String::from_str("Removed forest ");
        t.append(name.as_str());
        t.append(" (with errors)");
        push_line(&mut lines, t);
    }
    let ghost head = view_each(lines@);
    let ghost body = Seq::new(
        result@.repos.len(),
        |i: int|
            "  "@ + result@.repos[i].name + ": "@ + repo_done_text(
                result@.repos[i],
                result@.dry_run,
            ),
    );
    let mut i: usize = 0;
    while i < result.repos.len()
        invariant
            i <= result.repos.len(),
            body == Seq::new(
                result@.repos.len(),
                |i: int|
                    "  "@ + result@.repos[i].name + ": "@ + repo_done_text(
                        result@.repos[i],
                        result@.dry_run,
                    ),
            ),
            view_each(lines@) == head + body.take(i as int),
        decreases result.repos.len() - i,
    {
        let repo = &result.repos[i];
        assert(result@.repos[i as int] == repo@);
        let mut line = String::from_str("  ");
        line.append(repo.name.as_str());
        line.append(": ");
        line.append(repo_done(repo, result.dry_run).as_str());
        proof {
            assert(body.take(i + 1) == body.take(i as int).push(line@));
            assert((head + body.take(i as int)).push(line@) =~= head + body.take(i + 1));
        }
        push_line(&mut lines, line);
        i += 1;
    }
    assert(body.take(result.repos.len() as int) == body);
    if result.dry_run {
        push_line(&mut lines, String::from_str("  Would remove forest directory"));
    } else {
        push_line(&mut lines, dir_line(result.forest_dir_removed));
        push_section(&mut lines, "Errors:", &result.errors);
    }
    assert(view_each(lines@) =~= rm_lines(result@));
    join(&lines, "\n")
}

} // verus!
