//! What passes between the library and whoever runs git and touches the
//! filesystem for it: argument lists one way, outcomes the other.

use crate::seqs::{lemma_view_each_push, view_each};
use crate::text::{
    join, joined, quote, quoted, signed_decimal, signed_digits, trim, trim_end, trimmed,
    trimmed_end,
};
use vstd::prelude::*;
use vstd::string::*;

verus! {

/// What performing an action came to.
#[derive(Debug)]
pub enum Outcome {
    /// It succeeded; `output` is what it printed, if it prints.
    Done { output: String },
    /// It failed; `error` says how.
    Failed { error: String },
}

/// The mathematical content of an [`Outcome`].
pub enum OutcomeView {
    Done { output: Seq<char> },
    Failed { error: Seq<char> },
}

impl View for Outcome {
    type V = OutcomeView;

    open spec fn view(&self) -> OutcomeView {
        match *self {
            Outcome::Done { output } => OutcomeView::Done { output: output@ },
            Outcome::Failed { error } => OutcomeView::Failed { error: error@ },
        }
    }
}

/// Adds one argument to an argument list.
pub fn push_arg(args: &mut Vec<String>, arg: &str)
    ensures
        view_each(final(args)@) == view_each(old(args)@).push(arg@),
{
    let s = String::from_str(arg);
    proof {
        lemma_view_each_push(args@, s);
    }
    args.push(s);
}

/// An empty argument list.
pub fn no_args() -> (r: Vec<String>)
    ensures
        view_each(r@) == Seq::<Seq<char>>::empty(),
{
    let r: Vec<String> = Vec::new();
    assert(view_each(r@) =~= Seq::<Seq<char>>::empty());
    r
}

/// Copies an argument list.
pub fn clone_args(args: &Vec<String>) -> (r: Vec<String>)
    ensures
        view_each(r@) == view_each(args@),
{
    let mut out = no_args();
    let mut i: usize = 0;
    while i < args.len()
        invariant
            i <= args.len(),
            view_each(out@) == view_each(args@).take(i as int),
        decreases args.len() - i,
    {
        assert(view_each(args@).take(i + 1) == view_each(args@).take(i as int).push(
            args@[i as int]@,
        ));
        push_arg(&mut out, args[i].as_str());
        i += 1;
    }
    assert(view_each(args@).take(args.len() as int) == view_each(args@));
    out
}

/// What a query for a ref came to.
#[derive(Debug)]
pub enum RefProbe {
    Present,
    Absent,
    /// The query itself failed.
    Failed { error: String },
}

/// The mathematical content of a [`RefProbe`].
pub enum RefProbeView {
    Present,
    Absent,
    Failed { error: Seq<char> },
}

impl View for RefProbe {
    type V = RefProbeView;

    open spec fn view(&self) -> RefProbeView {
        match *self {
            RefProbe::Present => RefProbeView::Present,
            RefProbe::Absent => RefProbeView::Absent,
            RefProbe::Failed { error } => RefProbeView::Failed { error: error@ },
        }
    }
}

/// How a run of git ended.
#[derive(Debug)]
pub enum GitRun {
    /// Git could not be started.
    NotStarted { error: String },
    /// Git ran and exited: whether with success, its exit code unless a
    /// signal ended it, its output unless that is no UTF-8, and its errors.
    Exited { success: bool, code: Option<i32>, stdout: Option<String>, stderr: String },
}

/// The mathematical content of a [`GitRun`].
pub enum GitRunView {
    NotStarted { error: Seq<char> },
    Exited { success: bool, code: Option<i32>, stdout: Option<Seq<char>>, stderr: Seq<char> },
}

impl View for GitRun {
    type V = GitRunView;

    open spec fn view(&self) -> GitRunView {
        match *self {
            GitRun::NotStarted { error } => GitRunView::NotStarted { error: error@ },
            GitRun::Exited { success, code, stdout, stderr } => GitRunView::Exited {
                success,
                code,
                stdout: match stdout {
                    Some(s) => Some(s@),
                    None => None,
                },
                stderr: stderr@,
            },
        }
    }
}

/// The arguments as a list in brackets, each in quotes.
pub open spec fn args_quoted(args: Seq<Seq<char>>) -> Seq<char> {
    "["@ + joined(Seq::new(args.len(), |i: int| quoted(args[i])), ", "@) + "]"@
}

/// An exit code in words.
pub open spec fn code_text(code: Option<i32>) -> Seq<char> {
    match code {
        Some(c) => signed_digits(c as int),
        None => "signal"@,
    }
}

/// What a run of git comes to for its caller: the output without trailing
/// whitespace, if git succeeded and its output is text; else what went
/// wrong.
pub open spec fn git_outcome(repo: Seq<char>, args: Seq<Seq<char>>, run: GitRunView)
    -> OutcomeView {
    match run {
        GitRunView::NotStarted { error } => OutcomeView::Failed {
            error: "failed to run git "@ + args_quoted(args) + " in "@ + repo + ": "@ + error,
        },
        GitRunView::Exited { success, code, stdout, stderr } => if !success {
            OutcomeView::Failed {
                error: "git "@ + joined(args, " "@) + " failed in "@ + repo + " (exit code: "@
                    + code_text(code) + ")\nstderr: "@ + trimmed(stderr),
            }
        } else {
            match stdout {
                Some(out) => OutcomeView::Done { output: trimmed_end(out) },
                None => OutcomeView::Failed { error: "git output was not valid UTF-8"@ },
            }
        },
    }
}

/// Reads how a run of git in `repo` with `args` ended.
pub fn git(repo: &str, args: &Vec<String>, run: &GitRun) -> (r: Outcome)
    ensures
        r@ == git_outcome(repo@, view_each(args@), run@),
{
    match run {
        GitRun::NotStarted { error } => {
            let ghost all = Seq::new(args@.len(), |i: int| quoted(view_each(args@)[i]));
            let mut qs = no_args();
            let mut i: usize = 0;
            while i < args.len()
                invariant
                    i <= args.len(),
                    all == Seq::new(args@.len(), |i: int| quoted(view_each(args@)[i])),
                    view_each(qs@) == all.take(i as int),
                decreases args.len() - i,
            {
                let q = quote(args[i].as_str());
                assert(all.take(i + 1) == all.take(i as int).push(q@));
                push_arg(&mut qs, q.as_str());
                i += 1;
            }
            assert(all.take(args.len() as int) == all);
            let mut s = String::from_str("failed to run git ");
            s.append("[");
            s.append(join(&qs, ", ").as_str());
            s.append("]");
            s.append(" in ");
            s.append(repo);
            s.append(": ");
            s.append(error.as_str());
            assert(s@ =~= "failed to run git "@ + args_quoted(view_each(args@)) + " in "@ + repo@
                + ": "@ + error@);
            Outcome::Failed { error: s }
        },
        GitRun::Exited { success, code, stdout, stderr } => {
            if !*success {
                let mut s = String::from_str("git ");
                s.append(join(args, " ").as_str());
                s.append(" failed in ");
                s.append(repo);
                s.append(" (exit code: ");
                match code {
                    Some(c) => s.append(signed_decimal(*c as i64).as_str()),
                    None => s.append("signal"),
                }
                s.append(")\nstderr: ");
                s.append(trim(stderr.as_str()).as_str());
                Outcome::Failed { error: s }
            } else {
                match stdout {
                    Some(out) => Outcome::Done { output: trim_end(out.as_str()) },
                    None => Outcome::Failed {
                        error: String::from_str("git output was not valid UTF-8"),
                    },
                }
            }
        },
    }
}

/// The arguments that ask whether a ref exists.
pub open spec fn show_ref_args(refname: Seq<char>) -> Seq<Seq<char>> {
    seq!["show-ref"@, "--verify"@, refname]
}

/// The arguments that ask whether a ref exists.
pub fn ref_exists_args(refname: &str) -> (r: Vec<String>)
    ensures
        view_each(r@) == show_ref_args(refname@),
{
    let mut args = no_args();
    push_arg(&mut args, "show-ref");
    push_arg(&mut args, "--verify");
    push_arg(&mut args, refname);
    assert(view_each(args@) =~= show_ref_args(refname@));
    args
}

/// How asking for a ref ended.
#[derive(Debug)]
pub enum RefRun {
    /// Git could not be started.
    NotStarted { error: String },
    /// Git exited, with this code unless a signal ended it.
    Exited { code: Option<i32> },
}

/// The mathematical content of a [`RefRun`].
pub enum RefRunView {
    NotStarted { error: Seq<char> },
    Exited { code: Option<i32> },
}

impl View for RefRun {
    type V = RefRunView;

    open spec fn view(&self) -> RefRunView {
        match *self {
            RefRun::NotStarted { error } => RefRunView::NotStarted { error: error@ },
            RefRun::Exited { code } => RefRunView::Exited { code },
        }
    }
}

/// Whether a ref exists, from how asking git ended: it exists if git
/// exited with 0 and does not if git exited with anything else; nothing is
/// known if git could not be started or was ended by a signal.
pub open spec fn ref_probe_of(repo: Seq<char>, refname: Seq<char>, run: RefRunView)
    -> RefProbeView {
    match run {
        RefRunView::NotStarted { error } => RefProbeView::Failed {
            error: "failed to run git show-ref --verify "@ + refname + " in "@ + repo + ": "@
                + error,
        },
        RefRunView::Exited { code } => match code {
            Some(c) => if c == 0 {
                RefProbeView::Present
            } else {
                RefProbeView::Absent
            },
            None => RefProbeView::Failed {
                error: "git show-ref --verify "@ + refname + " killed by signal in "@ + repo,
            },
        },
    }
}

/// Reads whether a ref exists from how asking git for it ended.
pub fn ref_exists(repo: &str, refname: &str, run: &RefRun) -> (r: RefProbe)
    ensures
        r@ == ref_probe_of(repo@, refname@, run@),
{
    match run {
        RefRun::NotStarted { error } => {
            let mut s = String::from_str("failed to run git show-ref --verify ");
            s.append(refname);
            s.append(" in ");
            s.append(repo);
            s.append(": ");
            s.append(error.as_str());
            RefProbe::Failed { error: s }
        },
        RefRun::Exited { code } => match code {
            Some(c) => if *c == 0 {
                RefProbe::Present
            } else {
                RefProbe::Absent
            },
            None => {
                let mut s = String::from_str("git show-ref --verify ");
                s.append(refname);
                s.append(" killed by signal in ");
                s.append(repo);
                RefProbe::Failed { error: s }
            },
        },
    }
}

} // verus!
