//! Forests: named, disposable bundles of git worktrees, one for each of
//! several related repositories, created and removed together.
//!
//! This library decides; it touches nothing. What it needs to know of git and
//! of the filesystem comes in as plain facts, found out by the caller
//! beforehand. What is to be done goes out as actions, one at a time: the
//! caller performs an action and reports its outcome, and the library
//! answers with the next action or with the result. So a plan is a value,
//! a dry run is the same decision without the actions, and rollback is what
//! follows a reported failure.
//!
//! - [`paths`] and [`meta`]: validated names and paths, and the record that
//!   a forest keeps of itself.
//! - [`config`]: templates, resolved from what the configuration file holds.
//! - [`forest`]: finding forests among the entries of a worktree base.
//! - [`commands`]: creation, removal, reset, and the commands that only read.
//! - [`git`]: argument lists one way, outcomes the other.
//! - [`text`] and [`seqs`]: strings and sequences, reasoned about through
//!   their views.
//!
//! Every function states what it returns over the views of its arguments.
//! What holds of whole runs is stated by the proof functions whose names
//! begin with `law_`.

pub mod channel;
pub mod cli;
pub mod commands;
pub mod config;
pub mod forest;
pub mod git;
pub mod meta;
pub mod paths;
pub mod seqs;
pub mod testutil;
pub mod text;
pub mod version_check;
