//! The command line, parsed.

use crate::meta::ForestMode;
use vstd::prelude::*;

verus! {

/// What the user typed.
#[derive(Debug)]
pub struct Cli {
    pub json: bool,
    pub debug: bool,
    pub command: Command,
}

/// The commands.
#[derive(Debug)]
#[allow(inconsistent_fields)]
pub enum Command {
    /// Set a template up.
    Init {
        template: String,
        worktree_base: String,
        base_branch: String,
        feature_branch_template: Option<String>,
        repos: Vec<String>,
        repo_base_branches: Vec<String>,
        force: bool,
        show_path: bool,
    },
    /// Create a forest.
    New {
        name: String,
        mode: ForestMode,
        template: Option<String>,
        branch: Option<String>,
        repo_branches: Vec<String>,
        no_fetch: bool,
        dry_run: bool,
    },
    /// Remove a forest.
    Rm { name: Option<String>, force: bool, dry_run: bool },
    /// Remove every forest, the configuration and the state.
    Reset { confirm: bool, config_only: bool, dry_run: bool },
    /// List the forests.
    Ls,
    /// Show the state of a forest's worktrees.
    Status { name: Option<String> },
    /// Run a command in each worktree of a forest.
    Exec { name: String, cmd: Vec<String> },
    /// Print the instructions for agents.
    AgentInstructions,
    /// Show the version.
    Version { check: bool },
    /// Update the application.
    Update,
}

impl Command {
    /// Whether updates are looked for after the command: they are after the
    /// commands that work on forests.
    pub fn wants_version_check(&self) -> (r: bool)
        ensures
            r == (*self is Init || *self is New || *self is Rm || *self is Ls || *self is Status
                || *self is Exec),
    {
        match self {
            Command::Init { .. } => true,
            Command::New { .. } => true,
            Command::Rm { .. } => true,
            Command::Ls => true,
            Command::Status { .. } => true,
            Command::Exec { .. } => true,
            _ => false,
        }
    }
}

/// Splits an argument of the form `key=value` at its first `=`.
pub fn split_key_value(arg: &str) -> (r: Option<(String, String)>)
    ensures
        r is Some <==> arg@.contains('='),
        r matches Some(p) ==> {
            &&& !p.0@.contains('=')
            &&& arg@ == p.0@ + seq!['='] + p.1@
        },
{
    let v = crate::text::chars_of(arg);
    let mut i: usize = 0;
    while i < v.len()
        invariant
            i <= v.len(),
            v@ == arg@,
            forall|k: int| 0 <= k < i ==> v@[k] != '=',
        decreases v.len() - i,
    {
        if v[i] == '=' {
            let key = crate::text::string_of_range(&v, 0, i);
            let value = crate::text::string_of_range(&v, i + 1, v.len());
            assert(arg@.contains('='));
            assert(arg@ =~= key@ + seq!['='] + value@);
            assert(!key@.contains('=')) by {
                if key@.contains('=') {
                    let k = choose|k: int| 0 <= k < key@.len() && key@[k] == '=';
                    assert(v@[k] == '=');
                }
            }
            return Some((key, value));
        }
        i += 1;
    }
    assert(!arg@.contains('=')) by {
        if arg@.contains('=') {
            let k = choose|k: int| 0 <= k < arg@.len() && arg@[k] == '=';
            assert(v@[k] != '=');
        }
    }
    None
}

} // verus!
