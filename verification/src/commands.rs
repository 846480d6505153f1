//! The commands: each plans from plain facts, and either answers at once or
//! hands out one action at a time for the caller to perform.

pub mod exec;
pub mod init;
pub mod ls;
pub mod new;
pub mod new_run;
pub mod reset;
pub mod reset_run;
pub mod rm;
pub mod rm_run;
pub mod status;

pub use exec::{cmd_exec, format_exec_human, ExecError, ExecResult, ExecRun};
pub use init::{
    cmd_init, format_init_human, validate_init_inputs, GitCheck, InitError, InitErrorKind,
    InitInputs, InitProbe, InitRepoSummary, InitResult, RepoInput,
};
pub use ls::{
    branch_counts, cmd_ls, cmd_ls_at, format_age, format_branches, format_ls_human,
    summarize_forest, BranchCount, ForestSummary, LsResult,
};
pub use new::{
    branch_created, compute_target_branch, fetch_commands, format_new_human, plan_forest,
    plan_queries, plan_to_result, CheckoutKind, ForestPlan, GitCommand, NewInputs, NewRepoResult,
    NewResult, PlanError, PlanErrorKind, PlanProbes, RefQuery, RepoPlan, RepoProbe,
};
pub use new_run::{
    cmd_new, cmd_new_at, execute_plan, NewAction, NewOutcome, NewProgress, NewRun, NewStage, NewStart,
};
pub use reset::{
    format_file_status, format_reset_human, format_reset_summary, plan_reset, BaseScan,
    ConfigLoad, FileResetEntry, ForestInfo, ForestRepoInfo, ForestResetEntry, ResetError,
    ResetFacts, ResetPlan, ResetProgress, ResetResult,
};
pub use reset_run::{
    cmd_reset, execute_reset, plan_to_confirm_required, plan_to_dry_run, ResetAction, ResetRun,
    ResetStage, ResetStep,
};
pub use rm::{
    format_repo_done, format_rm_human, format_rm_summary, plan_rm, plan_to_dry_run_result,
    RepoRmPlan, RepoRmResult, RmOutcome, RmPlan, RmProbe, RmProgress, RmResult,
};
pub use rm_run::{
    can_safely_force_delete, cmd_rm, execute_rm, RmAction, RmRun, RmStage, RmStep,
};
pub use status::{
    cmd_status, format_status_human, RepoStatus, RepoStatusKind, StatusProbe, StatusResult,
};
