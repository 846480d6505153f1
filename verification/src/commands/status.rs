//! The state of each worktree of a forest.

use crate::git::{Outcome, OutcomeView};
use crate::meta::{ForestMeta, ForestMetaView};
use crate::paths::{join_text, joined_path};
use crate::seqs::{lemma_view_each_push, view_each};
use crate::text::{join, joined, push_line};
use vstd::prelude::*;
use vstd::string::*;

verus! {

/// What is known of one worktree.
#[derive(Debug)]
pub enum RepoStatusKind {
    /// Git's short status of the worktree.
    Reported { output: String },
    /// There is no worktree at `path`.
    Missing { path: String },
    /// The status could not be had.
    Error { message: String },
}

/// The mathematical content of a [`RepoStatusKind`].
pub enum RepoStatusKindView {
    Reported { output: Seq<char> },
    Missing { path: Seq<char> },
    Error { message: Seq<char> },
}

impl View for RepoStatusKind {
    type V = RepoStatusKindView;

    open spec fn view(&self) -> RepoStatusKindView {
        match *self {
            RepoStatusKind::Reported { output } => RepoStatusKindView::Reported { output: output@ },
            RepoStatusKind::Missing { path } => RepoStatusKindView::Missing { path: path@ },
            RepoStatusKind::Error { message } => RepoStatusKindView::Error { message: message@ },
        }
    }
}

/// One repository's status.
#[derive(Debug)]
pub struct RepoStatus {
    pub name: String,
    pub status: RepoStatusKind,
}

/// The mathematical content of a [`RepoStatus`].
pub struct RepoStatusView {
    pub name: Seq<char>,
    pub status: RepoStatusKindView,
}

impl View for RepoStatus {
    type V = RepoStatusView;

    open spec fn view(&self) -> RepoStatusView {
        RepoStatusView { name: self.name@, status: self.status@ }
    }
}

/// The status of a forest.
#[derive(Debug)]
pub struct StatusResult {
    pub forest_name: String,
    pub repos: Vec<RepoStatus>,
}

/// The mathematical content of a [`StatusResult`].
pub struct StatusResultView {
    pub forest_name: Seq<char>,
    pub repos: Seq<RepoStatusView>,
}

impl View for StatusResult {
    type V = StatusResultView;

    open spec fn view(&self) -> StatusResultView {
        StatusResultView { forest_name: self.forest_name@, repos: view_each(self.repos@) }
    }
}

/// What was found out about one worktree.
#[derive(Debug)]
pub struct StatusProbe {
    /// Whether the worktree's directory exists.
    pub worktree_exists: bool,
    /// What asking git for its short status came to. It is read only where
    /// the worktree exists.
    pub status: Outcome,
}

/// The mathematical content of a [`StatusProbe`].
pub struct StatusProbeView {
    pub worktree_exists: bool,
    pub status: OutcomeView,
}

impl View for StatusProbe {
    type V = StatusProbeView;

    open spec fn view(&self) -> StatusProbeView {
        StatusProbeView { worktree_exists: self.worktree_exists, status: self.status@ }
    }
}

/// The status of one repository: missing, if its worktree is; else what
/// git said, or why it said nothing.
pub open spec fn repo_status_of(forest_dir: Seq<char>, name: Seq<char>, probe: StatusProbeView)
    -> RepoStatusView {
    RepoStatusView {
        name,
        status: if !probe.worktree_exists {
            RepoStatusKindView::Missing { path: joined_path(forest_dir, name) }
        } else {
            match probe.status {
                OutcomeView::Done { output } => RepoStatusKindView::Reported { output },
                OutcomeView::Failed { error } => RepoStatusKindView::Error { message: error },
            }
        },
    }
}

/// The status of a forest, from what was found out about its worktrees.
pub open spec fn status_of(forest_dir: Seq<char>, meta: ForestMetaView, probes: Seq<StatusProbeView>)
    -> StatusResultView {
    StatusResultView {
        forest_name: meta.name,
        repos: Seq::new(
            meta.repos.len(),
            |i: int| repo_status_of(forest_dir, meta.repos[i].name, probes[i]),
        ),
    }
}

/// Tells the status of each worktree of a forest, from the facts in
/// `probes`, one for each repository of the record.
pub fn cmd_status(forest_dir: &str, meta: &ForestMeta, probes: &Vec<StatusProbe>) -> (r:
    StatusResult)
    requires
        probes.len() == meta.repos.len(),
    ensures
        r@ == status_of(forest_dir@, meta@, view_each(probes@)),
{
    let mut repos: Vec<RepoStatus> = Vec::new();
    let mut i: usize = 0;
    while i < meta.repos.len()
        invariant
            i <= meta.repos.len(),
            probes.len() == meta.repos.len(),
            view_each(repos@) == Seq::new(
                i as nat,
                |j: int|
                    repo_status_of(forest_dir@, meta@.repos[j].name, view_each(probes@)[j]),
            ),
        decreases meta.repos.len() - i,
    {
        let repo = &meta.repos[i];
        let probe = &probes[i];
        let status = if !probe.worktree_exists {
            RepoStatusKind::Missing { path: join_text(forest_dir, repo.name.as_str()) }
        } else {
            match &probe.status {
                Outcome::Done { output } => RepoStatusKind::Reported { output: output.clone() },
                Outcome::Failed { error } => RepoStatusKind::Error { message: error.clone() },
            }
        };
        let item = RepoStatus { name: repo.name.display(), status };
        proof {
            assert(meta@.repos[i as int] == repo@);
            assert(view_each(probes@)[i as int] == probe@);
            lemma_view_each_push(repos@, item);
            assert(Seq::new(
                (i + 1) as nat,
                |j: int|
                    repo_status_of(forest_dir@, meta@.repos[j].name, view_each(probes@)[j]),
            ) =~= Seq::new(
                i as nat,
                |j: int|
                    repo_status_of(forest_dir@, meta@.repos[j].name, view_each(probes@)[j]),
            ).push(item@));
        }
        repos.push(item);
        i += 1;
    }
    StatusResult { forest_name: meta.name.display(), repos }
}

/// What is shown under a repository's title.
pub open spec fn status_body(status: RepoStatusKindView) -> Seq<char> {
    match status {
        RepoStatusKindView::Reported { output } => output,
        RepoStatusKindView::Missing { path } => "  warning: worktree missing at "@ + path,
        RepoStatusKindView::Error { message } => "  warning: "@ + message,
    }
}

/// The lines that tell the status: for each repository its title, then its
/// status or a warning.
pub open spec fn status_lines(repos: Seq<RepoStatusView>) -> Seq<Seq<char>>
    decreases repos.len(),
{
    if repos.len() == 0 {
        Seq::empty()
    } else {
        status_lines(repos.drop_last()) + seq![
            "=== "@ + repos.last().name + " ==="@,
            status_body(repos.last().status),
        ]
    }
}

/// Writes the status of a forest, for the user.
pub fn format_status_human(result: &StatusResult) -> (r: String)
    ensures
        r@ == joined(status_lines(result@.repos), "\n"@),
{
    let mut lines: Vec<String> = Vec::new();
    assert(view_each(lines@) =~= Seq::<Seq<char>>::empty());
    let mut i: usize = 0;
    while i < result.repos.len()
        invariant
            i <= result.repos.len(),
            view_each(lines@) == status_lines(result@.repos.take(i as int)),
        decreases result.repos.len() - i,
    {
        let repo = &result.repos[i];
        let ghost upto = result@.repos.take(i + 1);
        proof {
            assert(upto.drop_last() == result@.repos.take(i as int));
            assert(upto.last() == repo@);
        }
        let ghost before = view_each(lines@);
        let mut title = String::from_str("=== ");
        title.append(repo.name.as_str());
        title.append(" ===");
        push_line(&mut lines, title);
        let body = match &repo.status {
            RepoStatusKind::Reported { output } => output.clone(),
            RepoStatusKind::Missing { path } => {
                let mut s = String::from_str("  warning: worktree missing at ");
                s.append(path.as_str());
                s
            },
            RepoStatusKind::Error { message } => {
                let mut s = String::from_str("  warning: ");
                s.append(message.as_str());
                s
            },
        };
        push_line(&mut lines, body);
        assert(view_each(lines@) =~= before + seq![
            "=== "@ + repo@.name + " ==="@,
            status_body(repo@.status),
        ]);
        i += 1;
    }
    assert(result@.repos.take(result.repos.len() as int) == result@.repos);
    join(&lines, "\n")
}

} // verus!
