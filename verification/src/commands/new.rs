//! Creating a forest: the plan, and its execution with rollback.

use crate::config::{
    name_placeholder, ResolvedRepo, ResolvedRepoView, ResolvedTemplate, ResolvedTemplateView,
};
use crate::forest::{find_forest, found_forest, Scan, ScanView};
use crate::git::{no_args, push_arg, RefProbe, RefProbeView};
use crate::meta::ForestMode;
use crate::paths::{
    branch_name_error, check_branch_name, forest_dir, forest_dir_of, joined_path, valid_forest_name,
    AbsolutePath, BranchName, ForestName, NameError, NameErrorView, RepoName,
};
use crate::seqs::{
    as_index, first_where, lemma_first_where, lemma_first_where_is, lemma_first_where_none,
    lemma_view_each_push, view_each,
};
use crate::text::{join, joined, push_line, quote, quoted, replace_all, replaced, str_eq};
use vstd::prelude::*;
use vstd::string::*;

verus! {

/// What the user asked for.
#[derive(Debug)]
pub struct NewInputs {
    pub name: String,
    pub mode: ForestMode,
    /// A branch for every repository, unless one has its own below.
    pub branch_override: Option<String>,
    /// Branches for single repositories: repository name, then branch.
    pub repo_branches: Vec<(String, String)>,
    pub no_fetch: bool,
    pub dry_run: bool,
}

/// The mathematical content of a [`NewInputs`].
pub struct NewInputsView {
    pub name: Seq<char>,
    pub mode: ForestMode,
    pub branch_override: Option<Seq<char>>,
    pub repo_branches: Seq<(Seq<char>, Seq<char>)>,
    pub no_fetch: bool,
    pub dry_run: bool,
}

/// The view of an optional owned string.
pub open spec fn opt_string_view(s: Option<String>) -> Option<Seq<char>> {
    match s {
        Some(x) => Some(x@),
        None => None,
    }
}

impl View for NewInputs {
    type V = NewInputsView;

    open spec fn view(&self) -> NewInputsView {
        NewInputsView {
            name: self.name@,
            mode: self.mode,
            branch_override: opt_string_view(self.branch_override),
            repo_branches: view_each(self.repo_branches@),
            no_fetch: self.no_fetch,
            dry_run: self.dry_run,
        }
    }
}

/// How a repository's worktree comes by its branch.
#[derive(Debug, Clone, Copy, PartialEq, Eq, Structural)]
pub enum CheckoutKind {
    /// The branch exists locally: the worktree attaches to it.
    ExistingLocal,
    /// The branch exists on the remote only: a local branch is created that
    /// tracks it.
    TrackRemote,
    /// The branch exists nowhere: it is created from the remote's base
    /// branch, with no upstream set.
    NewBranch,
}

/// One repository's part of a creation plan.
#[derive(Debug)]
pub struct RepoPlan {
    pub name: RepoName,
    pub source: AbsolutePath,
    pub dest: AbsolutePath,
    pub branch: BranchName,
    pub base_branch: String,
    pub remote: String,
    pub checkout: CheckoutKind,
}

/// The mathematical content of a [`RepoPlan`].
pub struct RepoPlanView {
    pub name: Seq<char>,
    pub source: Seq<char>,
    pub dest: Seq<char>,
    pub branch: Seq<char>,
    pub base_branch: Seq<char>,
    pub remote: Seq<char>,
    pub checkout: CheckoutKind,
}

impl View for RepoPlan {
    type V = RepoPlanView;

    open spec fn view(&self) -> RepoPlanView {
        RepoPlanView {
            name: self.name@,
            source: self.source@,
            dest: self.dest@,
            branch: self.branch@,
            base_branch: self.base_branch@,
            remote: self.remote@,
            checkout: self.checkout,
        }
    }
}

impl Clone for RepoPlan {
    fn clone(&self) -> (r: RepoPlan)
        ensures
            r@ == self@,
    {
        RepoPlan {
            name: self.name.clone(),
            source: self.source.clone(),
            dest: self.dest.clone(),
            branch: self.branch.clone(),
            base_branch: self.base_branch.clone(),
            remote: self.remote.clone(),
            checkout: self.checkout,
        }
    }
}

/// A creation plan: what to create, in which order.
#[derive(Debug)]
pub struct ForestPlan {
    pub forest_name: ForestName,
    pub forest_dir: AbsolutePath,
    pub mode: ForestMode,
    pub repo_plans: Vec<RepoPlan>,
}

/// The mathematical content of a [`ForestPlan`].
pub struct ForestPlanView {
    pub forest_name: Seq<char>,
    pub forest_dir: Seq<char>,
    pub mode: ForestMode,
    pub repo_plans: Seq<RepoPlanView>,
}

impl View for ForestPlan {
    type V = ForestPlanView;

    open spec fn view(&self) -> ForestPlanView {
        ForestPlanView {
            forest_name: self.forest_name@,
            forest_dir: self.forest_dir@,
            mode: self.mode,
            repo_plans: view_each(self.repo_plans@),
        }
    }
}

impl Clone for ForestPlan {
    fn clone(&self) -> (r: ForestPlan)
        ensures
            r@ == self@,
    {
        let mut repo_plans: Vec<RepoPlan> = Vec::new();
        let mut i: usize = 0;
        while i < self.repo_plans.len()
            invariant
                i <= self.repo_plans.len(),
                view_each(repo_plans@) == view_each(self.repo_plans@).take(i as int),
            decreases self.repo_plans.len() - i,
        {
            let c = self.repo_plans[i].clone();
            proof {
                lemma_view_each_push(repo_plans@, c);
                assert(view_each(self.repo_plans@).take(i + 1) == view_each(self.repo_plans@).take(
                    i as int,
                ).push(self.repo_plans@[i as int]@));
            }
            repo_plans.push(c);
            i += 1;
        }
        assert(view_each(self.repo_plans@).take(self.repo_plans.len() as int) == view_each(
            self.repo_plans@,
        ));
        ForestPlan {
            forest_name: self.forest_name.clone(),
            forest_dir: self.forest_dir.clone(),
            mode: self.mode,
            repo_plans,
        }
    }
}

/// What creating one repository's worktree came to.
#[derive(Debug)]
pub struct NewRepoResult {
    pub name: RepoName,
    pub branch: String,
    pub base_branch: String,
    pub branch_created: bool,
    pub checkout_kind: CheckoutKind,
    pub worktree_path: AbsolutePath,
}

/// The mathematical content of a [`NewRepoResult`].
pub struct NewRepoResultView {
    pub name: Seq<char>,
    pub branch: Seq<char>,
    pub base_branch: Seq<char>,
    pub branch_created: bool,
    pub checkout_kind: CheckoutKind,
    pub worktree_path: Seq<char>,
}

impl View for NewRepoResult {
    type V = NewRepoResultView;

    open spec fn view(&self) -> NewRepoResultView {
        NewRepoResultView {
            name: self.name@,
            branch: self.branch@,
            base_branch: self.base_branch@,
            branch_created: self.branch_created,
            checkout_kind: self.checkout_kind,
            worktree_path: self.worktree_path@,
        }
    }
}

/// What creating a forest came to, or would come to.
#[derive(Debug)]
pub struct NewResult {
    pub forest_name: ForestName,
    pub forest_dir: AbsolutePath,
    pub mode: ForestMode,
    pub dry_run: bool,
    pub repos: Vec<NewRepoResult>,
}

/// The mathematical content of a [`NewResult`].
pub struct NewResultView {
    pub forest_name: Seq<char>,
    pub forest_dir: Seq<char>,
    pub mode: ForestMode,
    pub dry_run: bool,
    pub repos: Seq<NewRepoResultView>,
}

impl View for NewResult {
    type V = NewResultView;

    open spec fn view(&self) -> NewResultView {
        NewResultView {
            forest_name: self.forest_name@,
            forest_dir: self.forest_dir@,
            mode: self.mode,
            dry_run: self.dry_run,
            repos: view_each(self.repos@),
        }
    }
}

/// The branch that the first entry for `repo_name` among `repo_branches`
/// gives, if there is such an entry.
pub open spec fn own_branch(repo_branches: Seq<(Seq<char>, Seq<char>)>, repo_name: Seq<char>)
    -> Option<Seq<char>> {
    match first_where(repo_branches.len(), |i: int| repo_branches[i].0 == repo_name) {
        Some(i) => Some(repo_branches[i].1),
        None => None,
    }
}

/// The prefix of the branches of review forests.
pub open spec fn review_prefix() -> Seq<char> {
    seq!['f', 'o', 'r', 'e', 's', 't', '/']
}

/// The branch of a repository in a forest: its own override, else the
/// override for all, else what the mode gives: the template with the
/// forest's name filled in for features, `forest/<name>` for reviews.
pub open spec fn target_branch(
    repo_name: Seq<char>,
    forest_name: Seq<char>,
    mode: ForestMode,
    feature_branch_template: Seq<char>,
    branch_override: Option<Seq<char>>,
    repo_branches: Seq<(Seq<char>, Seq<char>)>,
) -> Seq<char> {
    match own_branch(repo_branches, repo_name) {
        Some(b) => b,
        None => match branch_override {
            Some(b) => b,
            None => match mode {
                ForestMode::Feature => replaced(
                    feature_branch_template,
                    name_placeholder(),
                    forest_name,
                ),
                ForestMode::Review => review_prefix() + forest_name,
            },
        },
    }
}

/// Computes the branch of one repository in a forest.
pub fn compute_target_branch(
    repo_name: &str,
    forest_name: &str,
    mode: &ForestMode,
    feature_branch_template: &str,
    branch_override: &Option<String>,
    repo_branches: &[(String, String)],
) -> (r: String)
    ensures
        r@ == target_branch(
            repo_name@,
            forest_name@,
            *mode,
            feature_branch_template@,
            opt_string_view(*branch_override),
            view_each(repo_branches@),
        ),
{
    let ghost rb = view_each(repo_branches@);
    let ghost p = |i: int| rb[i].0 == repo_name@;
    let mut i: usize = 0;
    while i < repo_branches.len()
        invariant
            i <= repo_branches.len(),
            rb == view_each(repo_branches@),
            p == |i: int| rb[i].0 == repo_name@,
            forall|j: int| 0 <= j < i ==> !#[trigger] p(j),
        decreases repo_branches.len() - i,
    {
        assert(rb[i as int] == repo_branches@[i as int]@);
        if str_eq(repo_branches[i].0.as_str(), repo_name) {
            proof {
                assert(p(i as int));
                lemma_first_where_is(rb.len(), p, i as int);
            }
            return repo_branches[i].1.clone();
        }
        assert(!p(i as int));
        i += 1;
    }
    proof {
        lemma_first_where_none(rb.len(), p);
    }
    match branch_override {
        Some(b) => b.clone(),
        None => match mode {
            ForestMode::Feature => {
                proof {
                    reveal_strlit("{name}");
                }
                assert("{name}"@ =~= name_placeholder());
                replace_all(feature_branch_template, "{name}", forest_name)
            },
            ForestMode::Review => {
                proof {
                    reveal_strlit("forest/");
                }
                assert("forest/"@ =~= review_prefix());
                let mut s = String::from_str("forest/");
                s.append(forest_name);
                s
            },
        },
    }
}

/// Whether a checkout of this kind creates the branch.
pub open spec fn creates_branch(checkout: CheckoutKind) -> bool {
    checkout is NewBranch
}

/// Whether a checkout of this kind creates the branch: only a new branch is
/// created; a local or a tracked branch was there before.
pub fn branch_created(checkout: &CheckoutKind) -> (r: bool)
    ensures
        r == creates_branch(*checkout),
{
    match checkout {
        CheckoutKind::ExistingLocal => false,
        CheckoutKind::TrackRemote => false,
        CheckoutKind::NewBranch => true,
    }
}

/// What a repository's plan comes to once carried out.
pub open spec fn repo_result_of(rp: RepoPlanView) -> NewRepoResultView {
    NewRepoResultView {
        name: rp.name,
        branch: rp.branch,
        base_branch: rp.base_branch,
        branch_created: creates_branch(rp.checkout),
        checkout_kind: rp.checkout,
        worktree_path: rp.dest,
    }
}

/// What a plan comes to once carried out.
pub open spec fn result_of(plan: ForestPlanView, dry_run: bool) -> NewResultView {
    NewResultView {
        forest_name: plan.forest_name,
        forest_dir: plan.forest_dir,
        mode: plan.mode,
        dry_run,
        repos: Seq::new(plan.repo_plans.len(), |i: int| repo_result_of(plan.repo_plans[i])),
    }
}

/// Projects a plan to the result of carrying it out.
pub fn plan_to_result(plan: &ForestPlan, dry_run: bool) -> (r: NewResult)
    ensures
        r@ == result_of(plan@, dry_run),
{
    let mut repos: Vec<NewRepoResult> = Vec::new();
    let mut i: usize = 0;
    while i < plan.repo_plans.len()
        invariant
            i <= plan.repo_plans.len(),
            view_each(repos@) == Seq::new(i as nat, |j: int| repo_result_of(plan@.repo_plans[j])),
        decreases plan.repo_plans.len() - i,
    {
        let rp = &plan.repo_plans[i];
        let item = NewRepoResult {
            name: rp.name.clone(),
            branch: rp.branch.display(),
            base_branch: rp.base_branch.clone(),
            branch_created: branch_created(&rp.checkout),
            checkout_kind: rp.checkout,
            worktree_path: rp.dest.clone(),
        };
        proof {
            lemma_view_each_push(repos@, item);
            assert(plan@.repo_plans[i as int] == rp@);
            assert(Seq::new((i + 1) as nat, |j: int| repo_result_of(plan@.repo_plans[j]))
                =~= Seq::new(i as nat, |j: int| repo_result_of(plan@.repo_plans[j])).push(item@));
        }
        repos.push(item);
        i += 1;
    }
    NewResult {
        forest_name: plan.forest_name.clone(),
        forest_dir: plan.forest_dir.clone(),
        mode: plan.mode,
        dry_run,
        repos,
    }
}

/// What was found out about one source repository.
#[derive(Debug)]
pub struct RepoProbe {
    /// Whether the repository's path is a directory.
    pub source_is_dir: bool,
    /// Whether the target branch exists locally.
    pub local_branch: RefProbe,
    /// Whether the target branch exists on the remote.
    pub remote_branch: RefProbe,
    /// Whether the base branch exists on the remote.
    pub base_branch: RefProbe,
}

/// The mathematical content of a [`RepoProbe`].
pub struct RepoProbeView {
    pub source_is_dir: bool,
    pub local_branch: RefProbeView,
    pub remote_branch: RefProbeView,
    pub base_branch: RefProbeView,
}

impl View for RepoProbe {
    type V = RepoProbeView;

    open spec fn view(&self) -> RepoProbeView {
        RepoProbeView {
            source_is_dir: self.source_is_dir,
            local_branch: self.local_branch@,
            remote_branch: self.remote_branch@,
            base_branch: self.base_branch@,
        }
    }
}

/// The facts that planning rests on, found out beforehand: one answer for
/// each question that planning may ask.
#[derive(Debug)]
pub struct PlanProbes {
    /// Whether something exists where the forest's directory would go.
    pub forest_dir_exists: bool,
    /// The entries of the worktree base.
    pub scan: Scan,
    /// One probe for each repository of the template, in its order.
    pub repos: Vec<RepoProbe>,
}

/// The mathematical content of a [`PlanProbes`].
pub struct PlanProbesView {
    pub forest_dir_exists: bool,
    pub scan: ScanView,
    pub repos: Seq<RepoProbeView>,
}

impl View for PlanProbes {
    type V = PlanProbesView;

    open spec fn view(&self) -> PlanProbesView {
        PlanProbesView {
            forest_dir_exists: self.forest_dir_exists,
            scan: self.scan@,
            repos: view_each(self.repos@),
        }
    }
}

/// The reasons for which a forest is not planned.
#[derive(Debug, Clone, Copy, PartialEq, Eq, Structural)]
pub enum PlanErrorKind {
    /// The forest's name is not valid.
    InvalidName,
    /// The template has no repository.
    NoRepos,
    /// Two branch overrides name the same repository.
    DuplicateRepoBranch,
    /// A branch override names a repository that the template lacks.
    UnknownRepo,
    /// The forest's directory exists already.
    DirectoryExists,
    /// Another forest answers to the name.
    NameCollision,
    /// The worktree base could not be scanned.
    ScanFailed,
    /// A source repository is no directory.
    SourceMissing,
    /// A branch name is not valid.
    InvalidBranch,
    /// A query for a ref failed.
    ProbeFailed,
    /// A new branch is needed and the remote lacks the base branch.
    BaseBranchMissing,
}

/// Why a forest was not planned: the reason, and the text for the user.
#[derive(Debug)]
pub struct PlanError {
    pub kind: PlanErrorKind,
    pub message: String,
}

/// The mathematical content of a [`PlanError`].
pub struct PlanErrorView {
    pub kind: PlanErrorKind,
    pub message: Seq<char>,
}

impl View for PlanError {
    type V = PlanErrorView;

    open spec fn view(&self) -> PlanErrorView {
        PlanErrorView { kind: self.kind, message: self.message@ }
    }
}

/// Whether an earlier override names the same repository as override `j`.
pub open spec fn duplicate_at(repo_branches: Seq<(Seq<char>, Seq<char>)>, j: int) -> bool {
    exists|i: int| 0 <= i < j && (#[trigger] repo_branches[i]).0 == repo_branches[j].0
}

/// Whether the template has a repository called `name`.
pub open spec fn known_repo(repos: Seq<ResolvedRepoView>, name: Seq<char>) -> bool {
    exists|i: int| 0 <= i < repos.len() && (#[trigger] repos[i]).name == name
}

/// The remote of the first repository called `name`; `origin` if there is
/// none.
pub open spec fn remote_for(repos: Seq<ResolvedRepoView>, name: Seq<char>) -> Seq<char> {
    match first_where(repos.len(), |i: int| repos[i].name == name) {
        Some(i) => repos[i].remote,
        None => "origin"@,
    }
}

/// The names of the repositories, in order.
pub open spec fn repo_names(repos: Seq<ResolvedRepoView>) -> Seq<Seq<char>> {
    Seq::new(repos.len(), |i: int| repos[i].name)
}

/// The full name of a local branch's ref.
pub open spec fn local_ref_of(branch: Seq<char>) -> Seq<char> {
    "refs/heads/"@ + branch
}

/// The full name of the ref that tracks `branch` of `remote`.
pub open spec fn remote_ref_of(remote: Seq<char>, branch: Seq<char>) -> Seq<char> {
    "refs/remotes/"@ + remote + "/"@ + branch
}

/// The texts of the planning errors.
pub open spec fn no_repos_text() -> Seq<char> {
    "no repos configured\n  hint: run `git forest init --repo <path>` to add repos"@
}

pub open spec fn duplicate_text(repo: Seq<char>) -> Seq<char> {
    "duplicate repo-branch for: "@ + repo + "\n  hint: specify each repo at most once"@
}

pub open spec fn unknown_repo_text(repo: Seq<char>, known: Seq<Seq<char>>) -> Seq<char> {
    "unknown repo: "@ + repo + "\n  hint: known repos: "@ + joined(known, ", "@)
}

pub open spec fn dir_exists_text(dir: Seq<char>) -> Seq<char> {
    "forest directory already exists: "@ + dir
        + "\n  hint: choose a different name, or remove the existing forest with `git forest rm`"@
}

pub open spec fn collision_text(name: Seq<char>, existing: Seq<char>, dir: Seq<char>) -> Seq<char> {
    "forest name "@ + quoted(name) + " collides with existing forest "@ + quoted(existing)
        + " at "@ + dir + "\n  hint: choose a different name"@
}

pub open spec fn source_missing_text(path: Seq<char>) -> Seq<char> {
    "source repo not found: "@ + path
        + "\n  hint: check that the path exists, or update config with `git forest init --force`"@
}

pub open spec fn base_missing_text(repo: ResolvedRepoView) -> Seq<char> {
    repo.remote + "/"@ + repo.base_branch + " not found in "@ + repo.name
        + "\n  hint: check that base_branch "@ + quoted(repo.base_branch) + " exists on remote "@
        + quoted(repo.remote) + ", or run `git fetch "@ + repo.remote + "` in "@ + repo.path
}

/// How a repository's worktree comes by its branch, from what was found out
/// about its refs: a local branch is attached to; else a branch of the remote
/// is tracked; else a new branch is made, for which the remote must have the
/// base branch. A failed query ends the planning.
pub open spec fn checkout_of(probe: RepoProbeView, repo: ResolvedRepoView) -> Result<
    CheckoutKind,
    PlanErrorView,
> {
    match probe.local_branch {
        RefProbeView::Failed { error } => Err(
            PlanErrorView { kind: PlanErrorKind::ProbeFailed, message: error },
        ),
        RefProbeView::Present => Ok(CheckoutKind::ExistingLocal),
        RefProbeView::Absent => match probe.remote_branch {
            RefProbeView::Failed { error } => Err(
                PlanErrorView { kind: PlanErrorKind::ProbeFailed, message: error },
            ),
            RefProbeView::Present => Ok(CheckoutKind::TrackRemote),
            RefProbeView::Absent => match probe.base_branch {
                RefProbeView::Failed { error } => Err(
                    PlanErrorView { kind: PlanErrorKind::ProbeFailed, message: error },
                ),
                RefProbeView::Present => Ok(CheckoutKind::NewBranch),
                RefProbeView::Absent => Err(
                    PlanErrorView {
                        kind: PlanErrorKind::BaseBranchMissing,
                        message: base_missing_text(repo),
                    },
                ),
            },
        },
    }
}

/// The branch planned for repository `i` of the template.
pub open spec fn planned_branch(inputs: NewInputsView, tmpl: ResolvedTemplateView, i: int) -> Seq<
    char,
> {
    target_branch(
        tmpl.repos[i].name,
        inputs.name,
        inputs.mode,
        tmpl.feature_branch_template,
        inputs.branch_override,
        inputs.repo_branches,
    )
}

/// The plan for repository `i` of the template, or why there is none.
pub open spec fn repo_planned(
    inputs: NewInputsView,
    tmpl: ResolvedTemplateView,
    probes: PlanProbesView,
    i: int,
) -> Result<RepoPlanView, PlanErrorView> {
    let repo = tmpl.repos[i];
    let branch = planned_branch(inputs, tmpl, i);
    match branch_name_error(branch, repo.remote) {
        Some(e) => Err(PlanErrorView { kind: PlanErrorKind::InvalidBranch, message: e.message() }),
        None => match checkout_of(probes.repos[i], repo) {
            Err(e) => Err(e),
            Ok(checkout) => Ok(
                RepoPlanView {
                    name: repo.name,
                    source: repo.path,
                    dest: joined_path(forest_dir_of(tmpl.worktree_base, inputs.name), repo.name),
                    branch,
                    base_branch: repo.base_branch,
                    remote: repo.remote,
                    checkout,
                },
            ),
        },
    }
}

/// The error that refuses override `j`'s branch for its repository's remote.
pub open spec fn override_error(inputs: NewInputsView, tmpl: ResolvedTemplateView, j: int)
    -> Option<NameErrorView> {
    branch_name_error(
        inputs.repo_branches[j].1,
        remote_for(tmpl.repos, inputs.repo_branches[j].0),
    )
}

/// The error that refuses the override for all, checked against the first
/// repository's remote.
pub open spec fn global_override_error(inputs: NewInputsView, tmpl: ResolvedTemplateView)
    -> Option<NameErrorView> {
    match inputs.branch_override {
        Some(b) => branch_name_error(b, tmpl.repos[0].remote),
        None => None,
    }
}

/// The first override that names a repository named by an earlier one.
pub open spec fn first_duplicate(rb: Seq<(Seq<char>, Seq<char>)>) -> Option<int> {
    first_where(rb.len(), |j: int| duplicate_at(rb, j))
}

/// The first override that names no repository of the template.
pub open spec fn first_unknown(rb: Seq<(Seq<char>, Seq<char>)>, repos: Seq<ResolvedRepoView>)
    -> Option<int> {
    first_where(rb.len(), |j: int| !known_repo(repos, rb[j].0))
}

/// The first repository whose source is no directory.
pub open spec fn first_missing(probes: Seq<RepoProbeView>) -> Option<int> {
    first_where(probes.len(), |i: int| !probes[i].source_is_dir)
}

/// The first override whose branch is refused.
pub open spec fn first_bad_override(inputs: NewInputsView, tmpl: ResolvedTemplateView) -> Option<
    int,
> {
    first_where(inputs.repo_branches.len(), |j: int| override_error(inputs, tmpl, j) is Some)
}

/// The first repository for which there is no plan.
pub open spec fn first_unplanned(
    inputs: NewInputsView,
    tmpl: ResolvedTemplateView,
    probes: PlanProbesView,
) -> Option<int> {
    first_where(tmpl.repos.len(), |i: int| repo_planned(inputs, tmpl, probes, i) is Err)
}

/// The creation plan for a request, or the first reason against it. The
/// checks come in this order: the forest's name; the template has
/// repositories; no repository has two overrides; every override names a
/// repository of the template; the forest's directory is free; no forest
/// answers to the name; every source repository is a directory; the override
/// for all is a valid branch name; every single override is; then, repository
/// by repository, its branch is valid and its checkout can be settled.
pub open spec fn planned(inputs: NewInputsView, tmpl: ResolvedTemplateView, probes: PlanProbesView)
    -> Result<ForestPlanView, PlanErrorView> {
    let rb = inputs.repo_branches;
    let fdir = forest_dir_of(tmpl.worktree_base, inputs.name);
    let n = tmpl.repos.len();
    let duplicate = first_duplicate(rb);
    let unknown = first_unknown(rb, tmpl.repos);
    let missing = first_missing(probes.repos);
    let bad_override = first_bad_override(inputs, tmpl);
    let unplanned = first_unplanned(inputs, tmpl, probes);
    if !valid_forest_name(inputs.name) {
        Err(
            PlanErrorView {
                kind: PlanErrorKind::InvalidName,
                message: (NameErrorView::InvalidForestName { name: inputs.name }).message(),
            },
        )
    } else if n == 0 {
        Err(PlanErrorView { kind: PlanErrorKind::NoRepos, message: no_repos_text() })
    } else if duplicate is Some {
        Err(
            PlanErrorView {
                kind: PlanErrorKind::DuplicateRepoBranch,
                message: duplicate_text(rb[duplicate->0].0),
            },
        )
    } else if unknown is Some {
        Err(
            PlanErrorView {
                kind: PlanErrorKind::UnknownRepo,
                message: unknown_repo_text(rb[unknown->0].0, repo_names(tmpl.repos)),
            },
        )
    } else if probes.forest_dir_exists {
        Err(PlanErrorView { kind: PlanErrorKind::DirectoryExists, message: dir_exists_text(fdir) })
    } else if probes.scan is Failed {
        Err(PlanErrorView { kind: PlanErrorKind::ScanFailed, message: probes.scan->error })
    } else if found_forest(probes.scan->entries, inputs.name) is Some {
        let k = found_forest(probes.scan->entries, inputs.name)->0;
        Err(
            PlanErrorView {
                kind: PlanErrorKind::NameCollision,
                message: collision_text(
                    inputs.name,
                    probes.scan->entries[k].meta->Read_meta.name,
                    probes.scan->entries[k].path,
                ),
            },
        )
    } else if missing is Some {
        Err(
            PlanErrorView {
                kind: PlanErrorKind::SourceMissing,
                message: source_missing_text(tmpl.repos[missing->0].path),
            },
        )
    } else if global_override_error(inputs, tmpl) is Some {
        Err(
            PlanErrorView {
                kind: PlanErrorKind::InvalidBranch,
                message: global_override_error(inputs, tmpl)->0.message(),
            },
        )
    } else if bad_override is Some {
        Err(
            PlanErrorView {
                kind: PlanErrorKind::InvalidBranch,
                message: override_error(inputs, tmpl, bad_override->0)->0.message(),
            },
        )
    } else if unplanned is Some {
        Err(repo_planned(inputs, tmpl, probes, unplanned->0)->Err_0)
    } else {
        Ok(
            ForestPlanView {
                forest_name: inputs.name,
                forest_dir: fdir,
                mode: inputs.mode,
                repo_plans: Seq::new(n, |i: int| repo_planned(inputs, tmpl, probes, i)->Ok_0),
            },
        )
    }
}

fn find_duplicate(rb: &Vec<(String, String)>) -> (r: Option<usize>)
    ensures
        as_index(r) == first_duplicate(view_each(rb@)),
        r matches Some(j) ==> j < rb.len(),
{
    let ghost keys = view_each(rb@);
    let ghost p = |j: int| duplicate_at(keys, j);
    let mut j: usize = 0;
    while j < rb.len()
        invariant
            j <= rb.len(),
            keys == view_each(rb@),
            p == |j: int| duplicate_at(keys, j),
            forall|k: int| 0 <= k < j ==> !#[trigger] p(k),
        decreases rb.len() - j,
    {
        let mut i: usize = 0;
        while i < j
            invariant
                i <= j < rb.len(),
                keys == view_each(rb@),
                p == |j: int| duplicate_at(keys, j),
                forall|k: int| 0 <= k < j ==> !#[trigger] p(k),
                forall|k: int| 0 <= k < i ==> (#[trigger] keys[k]).0 != keys[j as int].0,
            decreases j - i,
        {
            assert(keys[i as int] == rb@[i as int]@);
            assert(keys[j as int] == rb@[j as int]@);
            if rb[i].0 == rb[j].0 {
                proof {
                    assert(p(j as int));
                    lemma_first_where_is(keys.len(), p, j as int);
                }
                return Some(j);
            }
            i += 1;
        }
        assert(!p(j as int));
        j += 1;
    }
    proof {
        lemma_first_where_none(keys.len(), p);
    }
    None
}

fn find_repo(repos: &Vec<ResolvedRepo>, name: &str) -> (r: Option<usize>)
    ensures
        as_index(r) == first_where(
            repos.len() as nat,
            |i: int| view_each(repos@)[i].name == name@,
        ),
        r is Some <==> known_repo(view_each(repos@), name@),
        r matches Some(i) ==> i < repos.len(),
{
    let ghost rs = view_each(repos@);
    let ghost p = |i: int| rs[i].name == name@;
    let mut i: usize = 0;
    while i < repos.len()
        invariant
            i <= repos.len(),
            rs == view_each(repos@),
            p == |i: int| rs[i].name == name@,
            forall|k: int| 0 <= k < i ==> !#[trigger] p(k),
        decreases repos.len() - i,
    {
        assert(rs[i as int] == repos@[i as int]@);
        if str_eq(repos[i].name.as_str(), name) {
            proof {
                assert(p(i as int));
                lemma_first_where_is(rs.len(), p, i as int);
            }
            return Some(i);
        }
        assert(!p(i as int));
        i += 1;
    }
    proof {
        lemma_first_where_none(rs.len(), p);
        assert(!known_repo(rs, name@)) by {
            if known_repo(rs, name@) {
                let k = choose|k: int| 0 <= k < rs.len() && (#[trigger] rs[k]).name == name@;
                assert(p(k));
            }
        }
    }
    None
}

fn find_unknown(rb: &Vec<(String, String)>, repos: &Vec<ResolvedRepo>) -> (r: Option<usize>)
    ensures
        as_index(r) == first_unknown(view_each(rb@), view_each(repos@)),
        r matches Some(j) ==> j < rb.len(),
{
    let ghost keys = view_each(rb@);
    let ghost rs = view_each(repos@);
    let ghost p = |j: int| !known_repo(rs, keys[j].0);
    let mut j: usize = 0;
    while j < rb.len()
        invariant
            j <= rb.len(),
            keys == view_each(rb@),
            rs == view_each(repos@),
            p == |j: int| !known_repo(rs, keys[j].0),
            forall|k: int| 0 <= k < j ==> !#[trigger] p(k),
        decreases rb.len() - j,
    {
        assert(keys[j as int] == rb@[j as int]@);
        if find_repo(repos, rb[j].0.as_str()).is_none() {
            proof {
                assert(p(j as int));
                lemma_first_where_is(keys.len(), p, j as int);
            }
            return Some(j);
        }
        assert(!p(j as int));
        j += 1;
    }
    proof {
        lemma_first_where_none(keys.len(), p);
    }
    None
}

fn find_missing_source(probes: &Vec<RepoProbe>) -> (r: Option<usize>)
    ensures
        as_index(r) == first_missing(view_each(probes@)),
        r matches Some(i) ==> i < probes.len(),
{
    let ghost ps = view_each(probes@);
    let ghost p = |i: int| !ps[i].source_is_dir;
    let mut i: usize = 0;
    while i < probes.len()
        invariant
            i <= probes.len(),
            ps == view_each(probes@),
            p == |i: int| !ps[i].source_is_dir,
            forall|k: int| 0 <= k < i ==> !#[trigger] p(k),
        decreases probes.len() - i,
    {
        assert(ps[i as int] == probes@[i as int]@);
        if !probes[i].source_is_dir {
            proof {
                assert(p(i as int));
                lemma_first_where_is(ps.len(), p, i as int);
            }
            return Some(i);
        }
        assert(!p(i as int));
        i += 1;
    }
    proof {
        lemma_first_where_none(ps.len(), p);
    }
    None
}

fn remote_of(repos: &Vec<ResolvedRepo>, name: &str) -> (r: String)
    ensures
        r@ == remote_for(view_each(repos@), name@),
{
    match find_repo(repos, name) {
        Some(i) => {
            assert(view_each(repos@)[i as int] == repos@[i as int]@);
            repos[i].remote.clone()
        },
        None => String::from_str("origin"),
    }
}

fn find_bad_override(inputs: &NewInputs, tmpl: &ResolvedTemplate) -> (r: Option<NameError>)
    ensures
        match first_bad_override(inputs@, tmpl@) {
            Some(j) => r is Some && Some(r->0@) == override_error(inputs@, tmpl@, j),
            None => r is None,
        },
{
    let ghost p = |j: int| override_error(inputs@, tmpl@, j) is Some;
    let mut j: usize = 0;
    while j < inputs.repo_branches.len()
        invariant
            j <= inputs.repo_branches.len(),
            p == |j: int| override_error(inputs@, tmpl@, j) is Some,
            forall|k: int| 0 <= k < j ==> !#[trigger] p(k),
        decreases inputs.repo_branches.len() - j,
    {
        let entry = &inputs.repo_branches[j];
        assert(inputs@.repo_branches[j as int] == entry@);
        let remote = remote_of(&tmpl.repos, entry.0.as_str());
        match check_branch_name(entry.1.as_str(), remote.as_str()) {
            Some(e) => {
                proof {
                    assert(p(j as int));
                    lemma_first_where_is(inputs@.repo_branches.len(), p, j as int);
                }
                return Some(e);
            },
            None => {},
        }
        assert(!p(j as int));
        j += 1;
    }
    proof {
        lemma_first_where_none(inputs@.repo_branches.len(), p);
    }
    None
}

fn probe_failed(error: &String) -> (r: PlanError)
    ensures
        r@ == (PlanErrorView { kind: PlanErrorKind::ProbeFailed, message: error@ }),
{
    PlanError { kind: PlanErrorKind::ProbeFailed, message: error.clone() }
}

fn base_missing(repo: &ResolvedRepo) -> (r: PlanError)
    ensures
        r@ == (PlanErrorView {
            kind: PlanErrorKind::BaseBranchMissing,
            message: base_missing_text(repo@),
        }),
{
    let mut s = repo.remote.clone();
    s.append("/");
    s.append(repo.base_branch.as_str());
    s.append(" not found in ");
    s.append(repo.name.as_str());
    s.append("\n  hint: check that base_branch ");
    s.append(quote(repo.base_branch.as_str()).as_str());
    s.append(" exists on remote ");
    s.append(quote(repo.remote.as_str()).as_str());
    s.append(", or run `git fetch ");
    s.append(repo.remote.as_str());
    s.append("` in ");
    s.append(repo.path.as_str());
    PlanError { kind: PlanErrorKind::BaseBranchMissing, message: s }
}

/// Settles how a repository's worktree comes by its branch.
pub fn resolve_checkout(probe: &RepoProbe, repo: &ResolvedRepo) -> (r: Result<
    CheckoutKind,
    PlanError,
>)
    ensures
        match r {
            Ok(c) => checkout_of(probe@, repo@) == Ok::<CheckoutKind, PlanErrorView>(c),
            Err(e) => checkout_of(probe@, repo@) == Err::<CheckoutKind, PlanErrorView>(e@),
        },
{
    match &probe.local_branch {
        RefProbe::Failed { error } => Err(probe_failed(error)),
        RefProbe::Present => Ok(CheckoutKind::ExistingLocal),
        RefProbe::Absent => match &probe.remote_branch {
            RefProbe::Failed { error } => Err(probe_failed(error)),
            RefProbe::Present => Ok(CheckoutKind::TrackRemote),
            RefProbe::Absent => match &probe.base_branch {
                RefProbe::Failed { error } => Err(probe_failed(error)),
                RefProbe::Present => Ok(CheckoutKind::NewBranch),
                RefProbe::Absent => Err(base_missing(repo)),
            },
        },
    }
}

fn invalid_branch(e: &NameError) -> (r: PlanError)
    ensures
        r@ == (PlanErrorView { kind: PlanErrorKind::InvalidBranch, message: e@.message() }),
{
    PlanError { kind: PlanErrorKind::InvalidBranch, message: e.message() }
}

fn plan_repo(
    inputs: &NewInputs,
    tmpl: &ResolvedTemplate,
    probes: &PlanProbes,
    forest_name: &ForestName,
    fdir: &AbsolutePath,
    i: usize,
) -> (r: Result<RepoPlan, PlanError>)
    requires
        i < tmpl.repos.len(),
        probes.repos.len() == tmpl.repos.len(),
        forest_name@ == inputs@.name,
        fdir@ == forest_dir_of(tmpl@.worktree_base, inputs@.name),
    ensures
        match r {
            Ok(p) => repo_planned(inputs@, tmpl@, probes@, i as int) == Ok::<
                RepoPlanView,
                PlanErrorView,
            >(p@),
            Err(e) => repo_planned(inputs@, tmpl@, probes@, i as int) == Err::<
                RepoPlanView,
                PlanErrorView,
            >(e@),
        },
{
    let repo = &tmpl.repos[i];
    assert(tmpl@.repos[i as int] == repo@);
    assert(probes@.repos[i as int] == probes.repos@[i as int]@);
    let branch_str = compute_target_branch(
        repo.name.as_str(),
        forest_name.as_str(),
        &inputs.mode,
        tmpl.feature_branch_template.as_str(),
        &inputs.branch_override,
        inputs.repo_branches.as_slice(),
    );
    let branch = match BranchName::new(branch_str, repo.remote.as_str()) {
        Ok(b) => b,
        Err(e) => {
            return Err(invalid_branch(&e));
        },
    };
    let checkout = match resolve_checkout(&probes.repos[i], repo) {
        Ok(c) => c,
        Err(e) => {
            return Err(e);
        },
    };
    Ok(
        RepoPlan {
            name: repo.name.clone(),
            source: repo.path.clone(),
            dest: fdir.join(repo.name.as_str()),
            branch,
            base_branch: repo.base_branch.clone(),
            remote: repo.remote.clone(),
            checkout,
        },
    )
}

/// What a plan holds. A plan is made only for a valid forest name and a
/// template with repositories. It has one entry for each repository of the
/// template, in the template's order; each entry has the repository's name
/// and source, goes to the repository's name under the forest's directory,
/// and is on a branch that is valid for the repository's remote. The
/// worktree attaches to a branch that exists locally; else tracks one that
/// exists on the remote; else gets a new branch, and then the remote has the
/// base branch.
pub proof fn law_plan_shape(
    inputs: NewInputsView,
    tmpl: ResolvedTemplateView,
    probes: PlanProbesView,
    i: int,
)
    requires
        probes.repos.len() == tmpl.repos.len(),
        planned(inputs, tmpl, probes) is Ok,
        0 <= i < tmpl.repos.len(),
    ensures
        ({
            let plan = planned(inputs, tmpl, probes)->Ok_0;
            let rp = plan.repo_plans[i];
            let repo = tmpl.repos[i];
            let probe = probes.repos[i];
            &&& valid_forest_name(inputs.name)
            &&& plan.forest_name == inputs.name
            &&& plan.forest_dir == forest_dir_of(tmpl.worktree_base, inputs.name)
            &&& plan.mode == inputs.mode
            &&& !probes.forest_dir_exists
            &&& plan.repo_plans.len() == tmpl.repos.len()
            &&& rp.name == repo.name
            &&& rp.source == repo.path
            &&& rp.dest == joined_path(plan.forest_dir, repo.name)
            &&& rp.base_branch == repo.base_branch
            &&& rp.remote == repo.remote
            &&& rp.branch == planned_branch(inputs, tmpl, i)
            &&& crate::paths::valid_branch_name(rp.branch, repo.remote)
            &&& probe.source_is_dir
            &&& rp.checkout is ExistingLocal <==> probe.local_branch is Present
            &&& rp.checkout is TrackRemote <==> probe.local_branch is Absent && probe.remote_branch
                is Present
            &&& rp.checkout is NewBranch <==> probe.local_branch is Absent && probe.remote_branch
                is Absent
            &&& rp.checkout is NewBranch ==> probe.base_branch is Present
        }),
{
    lemma_first_where(
        tmpl.repos.len(),
        |k: int| repo_planned(inputs, tmpl, probes, k) is Err,
    );
    lemma_first_where(probes.repos.len(), |k: int| !probes.repos[k].source_is_dir);
    let p = |k: int| repo_planned(inputs, tmpl, probes, k) is Err;
    assert(!p(i));
    let q = |k: int| !probes.repos[k].source_is_dir;
    assert(!q(i));
}

fn plan_error(kind: PlanErrorKind, message: String) -> (r: PlanError)
    ensures
        r@ == (PlanErrorView { kind, message: message@ }),
{
    PlanError { kind, message }
}

fn names_of(repos: &Vec<ResolvedRepo>) -> (r: Vec<String>)
    ensures
        view_each(r@) == repo_names(view_each(repos@)),
{
    let mut out: Vec<String> = Vec::new();
    let mut i: usize = 0;
    while i < repos.len()
        invariant
            i <= repos.len(),
            view_each(out@) == repo_names(view_each(repos@)).take(i as int),
        decreases repos.len() - i,
    {
        let n = repos[i].name.display();
        proof {
            lemma_view_each_push(out@, n);
            assert(repo_names(view_each(repos@)).take(i + 1) == repo_names(
                view_each(repos@),
            ).take(i as int).push(repos@[i as int]@.name));
        }
        out.push(n);
        i += 1;
    }
    assert(repo_names(view_each(repos@)).take(repos.len() as int) == repo_names(
        view_each(repos@),
    ));
    out
}

/// Plans a forest from a request, a template and the facts found out
/// beforehand. No partial plan is returned: the first check that fails ends
/// the planning.
#[verifier::loop_isolation(false)]
pub fn plan_forest(inputs: &NewInputs, tmpl: &ResolvedTemplate, probes: &PlanProbes) -> (r: Result<
    ForestPlan,
    PlanError,
>)
    requires
        probes.repos.len() == tmpl.repos.len(),
    ensures
        match r {
            Ok(p) => planned(inputs@, tmpl@, probes@) == Ok::<ForestPlanView, PlanErrorView>(p@),
            Err(e) => planned(inputs@, tmpl@, probes@) == Err::<ForestPlanView, PlanErrorView>(
                e@,
            ),
        },
{
    let forest_name = match ForestName::new(inputs.name.clone()) {
        Ok(n) => n,
        Err(e) => {
            return Err(plan_error(PlanErrorKind::InvalidName, e.message()));
        },
    };
    if tmpl.repos.len() == 0 {
        return Err(
            plan_error(
                PlanErrorKind::NoRepos,
                String::from_str(
                    "no repos configured\n  hint: run `git forest init --repo <path>` to add repos",
                ),
            ),
        );
    }
    let rb = &inputs.repo_branches;
    match find_duplicate(rb) {
        Some(j) => {
            assert(inputs@.repo_branches[j as int] == rb@[j as int]@);
            let mut s = String::from_str("duplicate repo-branch for: ");
            s.append(rb[j].0.as_str());
            s.append("\n  hint: specify each repo at most once");
            return Err(plan_error(PlanErrorKind::DuplicateRepoBranch, s));
        },
        None => {},
    }
    match find_unknown(rb, &tmpl.repos) {
        Some(j) => {
            assert(inputs@.repo_branches[j as int] == rb@[j as int]@);
            let mut s = String::from_str("unknown repo: ");
            s.append(rb[j].0.as_str());
            s.append("\n  hint: known repos: ");
            let known = names_of(&tmpl.repos);
            s.append(join(&known, ", ").as_str());
            return Err(plan_error(PlanErrorKind::UnknownRepo, s));
        },
        None => {},
    }
    let fdir = forest_dir(&tmpl.worktree_base, &forest_name);
    if probes.forest_dir_exists {
        let mut s = String::from_str("forest directory already exists: ");
        s.append(fdir.as_str());
        s.append(
            "\n  hint: choose a different name, or remove the existing forest with `git forest rm`",
        );
        return Err(plan_error(PlanErrorKind::DirectoryExists, s));
    }
    match &probes.scan {
        Scan::Failed { error } => {
            return Err(plan_error(PlanErrorKind::ScanFailed, error.clone()));
        },
        Scan::Entries { entries } => {
            match find_forest(entries, forest_name.as_str()) {
                Some(k) => {
                    proof {
                        lemma_first_where(
                            view_each(entries@).len(),
                            |i: int| view_each(entries@)[i].answers_to(inputs@.name),
                        );
                    }
                    assert(k < entries.len());
                    let entry = &entries[k];
                    assert(view_each(entries@)[k as int] == entry@);
                    let mut s = String::from_str("forest name ");
                    s.append(quote(forest_name.as_str()).as_str());
                    s.append(" collides with existing forest ");
                    match &entry.meta {
                        crate::forest::MetaRead::Read { meta } => {
                            s.append(quote(meta.name.as_str()).as_str());
                        },
                        _ => {
                            assert(false);
                        },
                    }
                    s.append(" at ");
                    s.append(entry.path.as_str());
                    s.append("\n  hint: choose a different name");
                    return Err(plan_error(PlanErrorKind::NameCollision, s));
                },
                None => {},
            }
        },
    }
    match find_missing_source(&probes.repos) {
        Some(i) => {
            assert(tmpl@.repos[i as int] == tmpl.repos@[i as int]@);
            let mut s = String::from_str("source repo not found: ");
            s.append(tmpl.repos[i].path.as_str());
            s.append(
                "\n  hint: check that the path exists, or update config with `git forest init --force`",
            );
            return Err(plan_error(PlanErrorKind::SourceMissing, s));
        },
        None => {},
    }
    match &inputs.branch_override {
        Some(b) => {
            assert(tmpl@.repos[0] == tmpl.repos@[0]@);
            match check_branch_name(b.as_str(), tmpl.repos[0].remote.as_str()) {
                Some(e) => {
                    return Err(invalid_branch(&e));
                },
                None => {},
            }
        },
        None => {},
    }
    match find_bad_override(inputs, tmpl) {
        Some(e) => {
            return Err(invalid_branch(&e));
        },
        None => {},
    }
    let ghost p = |i: int| repo_planned(inputs@, tmpl@, probes@, i) is Err;
    let mut repo_plans: Vec<RepoPlan> = Vec::new();
    let mut i: usize = 0;
    while i < tmpl.repos.len()
        invariant
            i <= tmpl.repos.len(),
            probes.repos.len() == tmpl.repos.len(),
            forest_name@ == inputs@.name,
            fdir@ == forest_dir_of(tmpl@.worktree_base, inputs@.name),
            p == |i: int| repo_planned(inputs@, tmpl@, probes@, i) is Err,
            forall|k: int| 0 <= k < i ==> !#[trigger] p(k),
            view_each(repo_plans@) == Seq::new(
                i as nat,
                |k: int| repo_planned(inputs@, tmpl@, probes@, k)->Ok_0,
            ),
        decreases tmpl.repos.len() - i,
    {
        match plan_repo(inputs, tmpl, probes, &forest_name, &fdir, i) {
            Ok(rp) => {
                proof {
                    assert(!p(i as int));
                    lemma_view_each_push(repo_plans@, rp);
                    assert(Seq::new(
                        (i + 1) as nat,
                        |k: int| repo_planned(inputs@, tmpl@, probes@, k)->Ok_0,
                    ) =~= Seq::new(
                        i as nat,
                        |k: int| repo_planned(inputs@, tmpl@, probes@, k)->Ok_0,
                    ).push(rp@));
                }
                repo_plans.push(rp);
            },
            Err(e) => {
                proof {
                    assert(p(i as int));
                    lemma_first_where_is(tmpl@.repos.len(), p, i as int);
                }
                return Err(e);
            },
        }
        i += 1;
    }
    proof {
        lemma_first_where_none(tmpl@.repos.len(), p);
    }
    Ok(ForestPlan { forest_name, forest_dir: fdir, mode: inputs.mode, repo_plans })
}

/// A kind of checkout in words.
pub open spec fn checkout_text(kind: CheckoutKind) -> Seq<char> {
    match kind {
        CheckoutKind::ExistingLocal => "existing"@,
        CheckoutKind::TrackRemote => "track remote"@,
        CheckoutKind::NewBranch => "new branch"@,
    }
}

/// The line of one repository.
pub open spec fn new_repo_line(repo: NewRepoResultView) -> Seq<char> {
    "  "@ + repo.name + " → "@ + repo.branch + " ("@ + checkout_text(repo.checkout_kind) + ")"@
}

/// The lines that tell of a creation: a notice if it is a dry run, the
/// forest with its mode, its directory, and one line for each repository.
pub open spec fn new_lines(result: NewResultView) -> Seq<Seq<char>> {
    (if result.dry_run {
        seq!["Dry run — no changes made."@, Seq::<char>::empty()]
    } else {
        Seq::<Seq<char>>::empty()
    }) + seq![
        "Forest "@ + quoted(result.forest_name) + " ("@ + result.mode.label_of() + " mode)"@,
        "  "@ + result.forest_dir,
        Seq::<char>::empty(),
    ] + Seq::new(result.repos.len(), |i: int| new_repo_line(result.repos[i]))
}

/// Writes what a creation came to, for the user.
pub fn format_new_human(result: &NewResult) -> (r: String)
    ensures
        r@ == joined(new_lines(result@), "\n"@),
{
    let mut lines: Vec<String> = Vec::new();
    assert(view_each(lines@) =~= Seq::<Seq<char>>::empty());
    if result.dry_run {
        push_line(&mut lines, String::from_str("Dry run — no changes made."));
        push_line(&mut lines, String::new());
    }
    let mut title = String::from_str("Forest ");
    title.append(quote(result.forest_name.as_str()).as_str());
    title.append(" (");
    title.append(result.mode.label().as_str());
    title.append(" mode)");
    push_line(&mut lines, title);
    let mut dir = String::from_str("  ");
    dir.append(result.forest_dir.as_str());
    push_line(&mut lines, dir);
    push_line(&mut lines, String::new());
    let ghost head = view_each(lines@);
    let ghost body = Seq::new(result@.repos.len(), |i: int| new_repo_line(result@.repos[i]));
    let mut i: usize = 0;
    while i < result.repos.len()
        invariant
            i <= result.repos.len(),
            body == Seq::new(result@.repos.len(), |i: int| new_repo_line(result@.repos[i])),
            view_each(lines@) == head + body.take(i as int),
        decreases result.repos.len() - i,
    {
        let repo = &result.repos[i];
        assert(result@.repos[i as int] == repo@);
        let mut line = String::from_str("  ");
        line.append(repo.name.as_str());
        line.append(" → ");
        line.append(repo.branch.as_str());
        line.append(" (");
        match repo.checkout_kind {
            CheckoutKind::ExistingLocal => line.append("existing"),
            CheckoutKind::TrackRemote => line.append("track remote"),
            CheckoutKind::NewBranch => line.append("new branch"),
        }
        line.append(")");
        proof {
            assert(body.take(i + 1) == body.take(i as int).push(line@));
            assert((head + body.take(i as int)).push(line@) =~= head + body.take(i + 1));
        }
        push_line(&mut lines, line);
        i += 1;
    }
    proof {
        assert(body.take(result.repos.len() as int) == body);
        assert(head + body =~= new_lines(result@));
    }
    join(&lines, "\n")
}

/// The refs to ask about before planning one repository.
#[derive(Debug)]
pub struct RefQuery {
    /// The repository to ask in.
    pub repo: AbsolutePath,
    /// The ref of the target branch, if it is local.
    pub local_ref: String,
    /// The ref of the target branch on the remote.
    pub remote_ref: String,
    /// The ref of the base branch on the remote.
    pub base_ref: String,
}

/// The mathematical content of a [`RefQuery`].
pub struct RefQueryView {
    pub repo: Seq<char>,
    pub local_ref: Seq<char>,
    pub remote_ref: Seq<char>,
    pub base_ref: Seq<char>,
}

impl View for RefQuery {
    type V = RefQueryView;

    open spec fn view(&self) -> RefQueryView {
        RefQueryView {
            repo: self.repo@,
            local_ref: self.local_ref@,
            remote_ref: self.remote_ref@,
            base_ref: self.base_ref@,
        }
    }
}

/// The refs to ask about for repository `i` of the template.
pub open spec fn query_of(inputs: NewInputsView, tmpl: ResolvedTemplateView, i: int)
    -> RefQueryView {
    let repo = tmpl.repos[i];
    let branch = planned_branch(inputs, tmpl, i);
    RefQueryView {
        repo: repo.path,
        local_ref: local_ref_of(branch),
        remote_ref: remote_ref_of(repo.remote, branch),
        base_ref: remote_ref_of(repo.remote, repo.base_branch),
    }
}

fn remote_ref(remote: &str, branch: &str) -> (r: String)
    ensures
        r@ == remote_ref_of(remote@, branch@),
{
    let mut s = String::from_str("refs/remotes/");
    s.append(remote);
    s.append("/");
    s.append(branch);
    s
}

/// The refs whose existence planning rests on, one set for each repository
/// of the template.
pub fn plan_queries(inputs: &NewInputs, tmpl: &ResolvedTemplate) -> (r: Vec<RefQuery>)
    ensures
        view_each(r@) == Seq::new(tmpl@.repos.len(), |i: int| query_of(inputs@, tmpl@, i)),
{
    let mut out: Vec<RefQuery> = Vec::new();
    let mut i: usize = 0;
    while i < tmpl.repos.len()
        invariant
            i <= tmpl.repos.len(),
            view_each(out@) == Seq::new(i as nat, |k: int| query_of(inputs@, tmpl@, k)),
        decreases tmpl.repos.len() - i,
    {
        let repo = &tmpl.repos[i];
        assert(tmpl@.repos[i as int] == repo@);
        let branch = compute_target_branch(
            repo.name.as_str(),
            inputs.name.as_str(),
            &inputs.mode,
            tmpl.feature_branch_template.as_str(),
            &inputs.branch_override,
            inputs.repo_branches.as_slice(),
        );
        let mut local = String::from_str("refs/heads/");
        local.append(branch.as_str());
        let item = RefQuery {
            repo: repo.path.clone(),
            local_ref: local,
            remote_ref: remote_ref(repo.remote.as_str(), branch.as_str()),
            base_ref: remote_ref(repo.remote.as_str(), repo.base_branch.as_str()),
        };
        proof {
            lemma_view_each_push(out@, item);
            assert(Seq::new((i + 1) as nat, |k: int| query_of(inputs@, tmpl@, k)) =~= Seq::new(
                i as nat,
                |k: int| query_of(inputs@, tmpl@, k),
            ).push(item@));
        }
        out.push(item);
        i += 1;
    }
    out
}

/// A run of git to ask for.
#[derive(Debug)]
pub struct GitCommand {
    pub repo: AbsolutePath,
    pub args: Vec<String>,
}

/// The mathematical content of a [`GitCommand`].
pub struct GitCommandView {
    pub repo: Seq<char>,
    pub args: Seq<Seq<char>>,
}

impl View for GitCommand {
    type V = GitCommandView;

    open spec fn view(&self) -> GitCommandView {
        GitCommandView { repo: self.repo@, args: view_each(self.args@) }
    }
}

/// The fetches that come before planning: none if fetching is switched
/// off (`skip`); else one from its remote for each source repository that
/// is a directory.
pub open spec fn fetches(skip: bool, repos: Seq<ResolvedRepoView>, is_dir: Seq<bool>) -> Seq<
    GitCommandView,
>
    decreases repos.len(),
{
    if skip || repos.len() == 0 {
        Seq::empty()
    } else {
        let before = fetches(skip, repos.drop_last(), is_dir);
        if is_dir[repos.len() - 1] {
            before.push(
                GitCommandView {
                    repo: repos.last().path,
                    args: seq!["fetch"@, repos.last().remote],
                },
            )
        } else {
            before
        }
    }
}

/// The fetches to run before planning. A dry run fetches nothing: a fetch
/// updates the refs of the source repository. `is_dir` says of each source
/// repository whether it is a directory.
pub fn fetch_commands(inputs: &NewInputs, tmpl: &ResolvedTemplate, is_dir: &Vec<bool>) -> (r: Vec<
    GitCommand,
>)
    requires
        is_dir.len() == tmpl.repos.len(),
    ensures
        view_each(r@) == fetches(inputs@.no_fetch || inputs@.dry_run, tmpl@.repos, is_dir@),
{
    let mut out: Vec<GitCommand> = Vec::new();
    assert(view_each(out@) =~= Seq::<GitCommandView>::empty());
    if inputs.no_fetch || inputs.dry_run {
        return out;
    }
    let mut i: usize = 0;
    while i < tmpl.repos.len()
        invariant
            i <= tmpl.repos.len(),
            is_dir.len() == tmpl.repos.len(),
            view_each(out@) == fetches(false, tmpl@.repos.take(i as int), is_dir@),
        decreases tmpl.repos.len() - i,
    {
        let repo = &tmpl.repos[i];
        let ghost upto = tmpl@.repos.take(i + 1);
        proof {
            assert(upto.drop_last() == tmpl@.repos.take(i as int));
            assert(upto.last() == repo@);
        }
        if is_dir[i] {
            let mut args = no_args();
            push_arg(&mut args, "fetch");
            push_arg(&mut args, repo.remote.as_str());
            assert(view_each(args@) =~= seq!["fetch"@, repo@.remote]);
            let item = GitCommand { repo: repo.path.clone(), args };
            proof {
                lemma_view_each_push(out@, item);
            }
            out.push(item);
        }
        i += 1;
    }
    assert(tmpl@.repos.take(tmpl.repos.len() as int) == tmpl@.repos);
    out
}

} // verus!
