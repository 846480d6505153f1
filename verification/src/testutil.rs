//! Records made up for examples and tests.

use crate::meta::{ForestMeta, ForestMetaView, ForestMode, RepoMeta, RepoMetaView, Timestamp};
use crate::paths::{valid_forest_name, AbsolutePath, ForestName, RepoName};
use crate::seqs::view_each;
use vstd::prelude::*;
use vstd::string::*;

verus! {

/// The record of a repository called `name`, on `branch`, with its source
/// under `/tmp/src`, its base branch `dev`, and its branch created by the
/// forest.
pub fn make_repo(name: &str, branch: &str) -> (r: RepoMeta)
    requires
        name@.len() > 0,
    ensures
        r@ == (RepoMetaView {
            name: name@,
            source: "/tmp/src/"@ + name@,
            branch: branch@,
            base_branch: "dev"@,
            branch_created: true,
        }),
{
    let mut path = String::from_str("/tmp/src/");
    path.append(name);
    proof {
        reveal_strlit("/tmp/src/");
    }
    let source = match AbsolutePath::new(path) {
        Some(p) => p,
        None => {
            assert(false);
            vstd::pervasive::unreached()
        },
    };
    let repo_name = match RepoName::new(String::from_str(name)) {
        Ok(n) => n,
        Err(_) => {
            assert(false);
            vstd::pervasive::unreached()
        },
    };
    RepoMeta {
        name: repo_name,
        source,
        branch: String::from_str(branch),
        base_branch: String::from_str("dev"),
        branch_created: true,
    }
}

/// The record of a forest called `name`.
pub fn make_meta(name: &str, created_at: Timestamp, mode: ForestMode, repos: Vec<RepoMeta>) -> (r:
    ForestMeta)
    requires
        valid_forest_name(name@),
    ensures
        r@ == (ForestMetaView { name: name@, created_at, mode, repos: view_each(repos@) }),
{
    let forest_name = match ForestName::new(String::from_str(name)) {
        Ok(n) => n,
        Err(_) => {
            assert(false);
            vstd::pervasive::unreached()
        },
    };
    ForestMeta { name: forest_name, created_at, mode, repos }
}

} // verus!
