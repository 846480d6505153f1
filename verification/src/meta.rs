//! The record that a forest keeps of itself.

use crate::paths::{AbsolutePath, ForestName, RepoName};
use crate::seqs::{lemma_view_each_push, view_each};
use vstd::prelude::*;
use vstd::string::*;

verus! {

/// The name of the metadata file inside a forest's directory.
pub const META_FILENAME: &'static str = ".forest-meta.toml";

/// What a forest is for: work on a feature, or review of someone's work.
#[derive(Debug, Clone, Copy, PartialEq, Eq, Structural)]
pub enum ForestMode {
    Feature,
    Review,
}

impl ForestMode {
    /// The mode in words.
    pub open spec fn label_of(self) -> Seq<char> {
        match self {
            ForestMode::Feature => "feature"@,
            ForestMode::Review => "review"@,
        }
    }

    /// The mode in words: `feature` or `review`.
    pub fn label(&self) -> (r: String)
        ensures
            r@ == self.label_of(),
    {
        match self {
            ForestMode::Feature => String::from_str("feature"),
            ForestMode::Review => String::from_str("review"),
        }
    }
}

/// A point in time: whole seconds since the Unix epoch, and the nanoseconds
/// past them.
#[derive(Debug, Clone, Copy, PartialEq, Eq, Structural)]
pub struct Timestamp {
    pub secs: i64,
    pub nanos: u32,
}

impl Timestamp {
    /// The point in time as a count of nanoseconds since the epoch.
    pub open spec fn total_nanos(self) -> int {
        self.secs * 1_000_000_000 + self.nanos
    }

    /// Whether `self` is strictly later than `other`.
    pub open spec fn later_than(self, other: Timestamp) -> bool {
        self.total_nanos() > other.total_nanos()
    }

    /// Whether `self` is strictly later than `other`.
    pub fn is_after(&self, other: &Timestamp) -> (r: bool)
        ensures
            r == self.later_than(*other),
    {
        let a: i128 = self.secs as i128 * 1_000_000_000 + self.nanos as i128;
        let b: i128 = other.secs as i128 * 1_000_000_000 + other.nanos as i128;
        a > b
    }

    /// The whole seconds from `then` to `self`, rounded toward zero and kept
    /// within the range of `i64`.
    pub open spec fn seconds_since_of(self, then: Timestamp) -> int {
        let d = self.total_nanos() - then.total_nanos();
        let q = if d >= 0 {
            d / 1_000_000_000
        } else {
            -((-d) / 1_000_000_000)
        };
        if q > i64::MAX {
            i64::MAX as int
        } else if q < i64::MIN {
            i64::MIN as int
        } else {
            q
        }
    }

    /// The whole seconds that passed from `then` to `self`.
    pub fn seconds_since(&self, then: &Timestamp) -> (r: i64)
        ensures
            r == self.seconds_since_of(*then),
    {
        let a: i128 = self.secs as i128 * 1_000_000_000 + self.nanos as i128;
        let b: i128 = then.secs as i128 * 1_000_000_000 + then.nanos as i128;
        let d: i128 = a - b;
        let q: i128 = if d >= 0 {
            d / 1_000_000_000
        } else {
            -((-d) / 1_000_000_000)
        };
        if q > i64::MAX as i128 {
            i64::MAX
        } else if q < i64::MIN as i128 {
            i64::MIN
        } else {
            q as i64
        }
    }
}

/// `chrono::Utc::now()`: the time at the moment of the call, handed over as
/// its `timestamp()` and `timestamp_subsec_nanos()`. Nothing is claimed of
/// the value. The call does not return on a machine whose clock reads a
/// time before 1970 or beyond the years that chrono can hold; no argument
/// decides that. What is computed from the time takes it as an argument.
#[verifier::external_body]
pub(crate) fn now() -> (t: Timestamp) {
    let t = chrono::Utc::now();
    Timestamp { secs: t.timestamp(), nanos: t.timestamp_subsec_nanos() }
}

/// One repository's part in a forest.
#[derive(Debug)]
pub struct RepoMeta {
    pub name: RepoName,
    pub source: AbsolutePath,
    pub branch: String,
    pub base_branch: String,
    /// Whether creating the forest created the branch. Only such a branch
    /// may be deleted when the forest is removed.
    pub branch_created: bool,
}

/// The mathematical content of a [`RepoMeta`].
pub struct RepoMetaView {
    pub name: Seq<char>,
    pub source: Seq<char>,
    pub branch: Seq<char>,
    pub base_branch: Seq<char>,
    pub branch_created: bool,
}

impl View for RepoMeta {
    type V = RepoMetaView;

    open spec fn view(&self) -> RepoMetaView {
        RepoMetaView {
            name: self.name@,
            source: self.source@,
            branch: self.branch@,
            base_branch: self.base_branch@,
            branch_created: self.branch_created,
        }
    }
}

impl Clone for RepoMeta {
    fn clone(&self) -> (r: RepoMeta)
        ensures
            r@ == self@,
    {
        RepoMeta {
            name: self.name.clone(),
            source: self.source.clone(),
            branch: self.branch.clone(),
            base_branch: self.base_branch.clone(),
            branch_created: self.branch_created,
        }
    }
}

/// The persisted record of a forest.
#[derive(Debug)]
pub struct ForestMeta {
    pub name: ForestName,
    pub created_at: Timestamp,
    pub mode: ForestMode,
    pub repos: Vec<RepoMeta>,
}

/// The mathematical content of a [`ForestMeta`].
pub struct ForestMetaView {
    pub name: Seq<char>,
    pub created_at: Timestamp,
    pub mode: ForestMode,
    pub repos: Seq<RepoMetaView>,
}

impl View for ForestMeta {
    type V = ForestMetaView;

    open spec fn view(&self) -> ForestMetaView {
        ForestMetaView {
            name: self.name@,
            created_at: self.created_at,
            mode: self.mode,
            repos: view_each(self.repos@),
        }
    }
}

/// Copies a list of repository records.
pub fn clone_repo_metas(repos: &Vec<RepoMeta>) -> (r: Vec<RepoMeta>)
    ensures
        view_each(r@) == view_each(repos@),
{
    let mut out: Vec<RepoMeta> = Vec::new();
    let mut i: usize = 0;
    while i < repos.len()
        invariant
            i <= repos.len(),
            view_each(out@) == view_each(repos@).take(i as int),
        decreases repos.len() - i,
    {
        let c = repos[i].clone();
        proof {
            lemma_view_each_push(out@, c);
            assert(view_each(repos@).take(i + 1) == view_each(repos@).take(i as int).push(
                repos@[i as int]@,
            ));
        }
        out.push(c);
        i += 1;
    }
    assert(view_each(repos@).take(repos.len() as int) == view_each(repos@));
    out
}

impl Clone for ForestMeta {
    fn clone(&self) -> (r: ForestMeta)
        ensures
            r@ == self@,
    {
        ForestMeta {
            name: self.name.clone(),
            created_at: self.created_at,
            mode: self.mode,
            repos: clone_repo_metas(&self.repos),
        }
    }
}

} // verus!
