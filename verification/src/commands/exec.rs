//! Running a command in each worktree of a forest.

use crate::git::{no_args, push_arg};
use crate::meta::{ForestMeta, RepoMetaView};
use crate::seqs::view_each;
use crate::text::{join, joined};
use vstd::prelude::*;
use vstd::string::*;

verus! {

/// Where the command failed.
#[derive(Debug)]
pub struct ExecResult {
    pub forest_name: String,
    /// The repositories in which the command did not succeed.
    pub failures: Vec<String>,
}

/// The mathematical content of an [`ExecResult`].
pub struct ExecResultView {
    pub forest_name: Seq<char>,
    pub failures: Seq<Seq<char>>,
}

impl View for ExecResult {
    type V = ExecResultView;

    open spec fn view(&self) -> ExecResultView {
        ExecResultView { forest_name: self.forest_name@, failures: view_each(self.failures@) }
    }
}

/// What running the command in one worktree came to.
#[derive(Debug, Clone, Copy, PartialEq, Eq, Structural)]
pub enum ExecRun {
    /// There is no worktree.
    Missing,
    /// The command ran and succeeded.
    Succeeded,
    /// The command ran and failed, or could not be run.
    Failed,
}

/// Why no command is run.
#[derive(Debug, Clone, Copy, PartialEq, Eq, Structural)]
pub enum ExecError {
    /// No command was given.
    NoCommand,
}

impl ExecError {
    /// The text shown to the user.
    pub fn message(&self) -> (r: String)
        ensures
            r@ == "no command specified"@,
    {
        String::from_str("no command specified")
    }
}

/// The names of the repositories whose run did not succeed, in order.
pub open spec fn failed_in(repos: Seq<RepoMetaView>, runs: Seq<ExecRun>) -> Seq<Seq<char>>
    decreases repos.len(),
{
    if repos.len() == 0 {
        Seq::empty()
    } else {
        let before = failed_in(repos.drop_last(), runs);
        if runs[repos.len() - 1] is Succeeded {
            before
        } else {
            before.push(repos.last().name)
        }
    }
}

/// Tells where a command failed, from what running it in each worktree
/// came to; `runs` holds one entry for each repository of the record. An
/// empty command is refused.
pub fn cmd_exec(meta: &ForestMeta, cmd: &[String], runs: &Vec<ExecRun>) -> (r: Result<
    ExecResult,
    ExecError,
>)
    requires
        runs.len() == meta.repos.len(),
    ensures
        cmd@.len() == 0 ==> r == Err::<ExecResult, ExecError>(ExecError::NoCommand),
        cmd@.len() > 0 ==> (r matches Ok(x) && x@ == (ExecResultView {
            forest_name: meta@.name,
            failures: failed_in(meta@.repos, runs@),
        })),
{
    if cmd.len() == 0 {
        return Err(ExecError::NoCommand);
    }
    let mut failures = no_args();
    let mut i: usize = 0;
    while i < meta.repos.len()
        invariant
            i <= meta.repos.len(),
            runs.len() == meta.repos.len(),
            view_each(failures@) == failed_in(meta@.repos.take(i as int), runs@),
        decreases meta.repos.len() - i,
    {
        let ghost upto = meta@.repos.take(i + 1);
        proof {
            assert(upto.drop_last() == meta@.repos.take(i as int));
            assert(upto.last() == meta.repos@[i as int]@);
        }
        match runs[i] {
            ExecRun::Succeeded => {},
            _ => {
                push_arg(&mut failures, meta.repos[i].name.as_str());
            },
        }
        i += 1;
    }
    assert(meta@.repos.take(meta.repos.len() as int) == meta@.repos);
    Ok(ExecResult { forest_name: meta.name.display(), failures })
}

/// What is shown after the command's own output: nothing, or where it
/// failed.
pub open spec fn exec_text(result: ExecResultView) -> Seq<char> {
    if result.failures.len() == 0 {
        Seq::empty()
    } else {
        "\nFailed in: "@ + joined(result.failures, ", "@)
    }
}

/// Writes where the command failed, for the user.
pub fn format_exec_human(result: &ExecResult) -> (r: String)
    ensures
        r@ == exec_text(result@),
{
    if result.failures.len() == 0 {
        String::new()
    } else {
        let mut s = String::from_str("\nFailed in: ");
        s.append(join(&result.failures, ", ").as_str());
        s
    }
}

} // verus!
