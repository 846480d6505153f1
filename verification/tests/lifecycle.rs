//! Creation, removal and listing against a small world kept in memory: it
//! performs the actions that the library asks for, as git and the
//! filesystem would.

use std::collections::{BTreeMap, BTreeSet};

use git_forest::commands::{
    branch_created, cmd_ls, cmd_new, cmd_reset, cmd_rm, execute_plan, execute_rm, fetch_commands,
    plan_forest, plan_to_dry_run_result,
    plan_queries,
    plan_reset, plan_rm, BaseScan, CheckoutKind, ConfigLoad, ForestPlan, NewAction, NewInputs,
    NewOutcome, NewProgress, NewResult, NewRun, NewStart, PlanError, PlanErrorKind, PlanProbes,
    RepoProbe, RepoRmPlan, ResetAction, ResetError, ResetFacts, ResetResult, ResetStep, RmAction,
    RmOutcome, RmPlan, RmProbe, RmResult, RmStep,
};
use git_forest::config::{ResolvedRepo, ResolvedTemplate};
use git_forest::forest::{discover_forests, MetaRead, Scan, ScanEntry};
use git_forest::git::{Outcome, RefProbe};
use git_forest::meta::{ForestMeta, ForestMode, Timestamp, META_FILENAME};
use git_forest::paths::{forest_dir, AbsolutePath, ForestName, RepoName};

const SRC: &str = "/env/src";
const BASE: &str = "/env/worktrees";
const CONFIG: &str = "/env/config/git-forest/config.toml";
const STATE: &str = "/env/state/git-forest/state.toml";

#[derive(Default)]
struct World {
    dirs: BTreeSet<String>,
    files: BTreeSet<String>,
    metas: BTreeMap<String, ForestMeta>,
    /// Local branches, by repository.
    local: BTreeSet<(String, String)>,
    /// Remote-tracking refs such as `origin/main`, by repository.
    remote: BTreeSet<(String, String)>,
    /// Registered worktrees: repository, path, branch.
    worktrees: Vec<(String, String, String)>,
    upstream: BTreeMap<(String, String), String>,
    /// Branches with a commit that HEAD of the repository lacks.
    ahead: BTreeSet<(String, String)>,
    /// Branches that are ancestors of their base.
    ancestor: BTreeSet<(String, String)>,
    /// Commits that the upstream lacks.
    unpushed: BTreeMap<(String, String), u32>,
    dirty: BTreeSet<String>,
    log: Vec<String>,
}

fn ok(output: &str) -> Outcome {
    Outcome::Done {
        output: output.to_string(),
    }
}

fn failed(error: &str) -> Outcome {
    Outcome::Failed {
        error: error.to_string(),
    }
}

impl World {
    fn new() -> World {
        let mut w = World::default();
        w.dirs.insert(SRC.to_string());
        w.dirs.insert(BASE.to_string());
        w
    }

    fn repo_path(&self, name: &str) -> String {
        format!("{}/{}", SRC, name)
    }

    fn create_repo_with_remote(&mut self, name: &str) -> String {
        let path = self.repo_path(name);
        self.dirs.insert(path.clone());
        self.local.insert((path.clone(), "main".to_string()));
        self.remote.insert((path.clone(), "origin/main".to_string()));
        path
    }

    fn default_template(&self, repo_names: &[&str]) -> ResolvedTemplate {
        ResolvedTemplate {
            worktree_base: AbsolutePath::new(BASE.to_string()).unwrap(),
            base_branch: "main".to_string(),
            feature_branch_template: "testuser/{name}".to_string(),
            repos: repo_names
                .iter()
                .map(|name| ResolvedRepo {
                    path: AbsolutePath::new(self.repo_path(name)).unwrap(),
                    name: RepoName::new(name.to_string()).unwrap(),
                    base_branch: "main".to_string(),
                    remote: "origin".to_string(),
                })
                .collect(),
        }
    }

    fn present(&self, path: &str) -> bool {
        self.dirs.contains(path) || self.metas.contains_key(path) || self.files.contains(path)
    }

    fn remove_dir_all(&mut self, path: &str) -> Outcome {
        if !self.dirs.contains(path) {
            return failed("No such file or directory");
        }
        let below = format!("{}/", path);
        self.dirs.retain(|d| d != path && !d.starts_with(&below));
        self.metas.retain(|f, _| !f.starts_with(&below));
        self.dirty.retain(|d| d != path && !d.starts_with(&below));
        ok("")
    }

    fn remove_dir(&mut self, path: &str) -> Outcome {
        let below = format!("{}/", path);
        if !self.dirs.contains(path) {
            return failed("No such file or directory");
        }
        if self.dirs.iter().any(|d| d.starts_with(&below))
            || self.metas.keys().any(|f| f.starts_with(&below))
        {
            return failed("Directory not empty");
        }
        self.dirs.remove(path);
        ok("")
    }

    fn ref_probe(&self, repo: &str, full: &str) -> RefProbe {
        let found = if let Some(branch) = full.strip_prefix("refs/heads/") {
            self.local.contains(&(repo.to_string(), branch.to_string()))
        } else if let Some(rest) = full.strip_prefix("refs/remotes/") {
            self.remote.contains(&(repo.to_string(), rest.to_string()))
        } else {
            false
        };
        if found {
            RefProbe::Present
        } else {
            RefProbe::Absent
        }
    }

    fn checked_out(&self, repo: &str, branch: &str) -> bool {
        self.worktrees
            .iter()
            .any(|(r, _, b)| r == repo && b == branch)
    }

    fn add_worktree(&mut self, repo: &str, dest: &str, branch: &str) -> Outcome {
        if self.dirs.contains(dest) {
            return failed("fatal: destination already exists");
        }
        if self.worktrees.iter().any(|(_, d, _)| d == dest) {
            return failed("fatal: missing but already registered worktree");
        }
        self.worktrees
            .push((repo.to_string(), dest.to_string(), branch.to_string()));
        self.dirs.insert(dest.to_string());
        ok("")
    }

    fn git(&mut self, repo: &str, args: &[String]) -> Outcome {
        let a: Vec<&str> = args.iter().map(|s| s.as_str()).collect();
        self.log.push(format!("git -C {} {}", repo, a.join(" ")));
        if !self.dirs.contains(repo) {
            return failed("fatal: cannot change to directory");
        }
        let key = |b: &str| (repo.to_string(), b.to_string());
        match a.as_slice() {
            ["fetch", _] => ok(""),
            ["status", "--porcelain"] => {
                if self.dirty.contains(repo) {
                    ok("A  dirty.txt")
                } else {
                    ok("")
                }
            }
            ["worktree", "add", dest, branch] => {
                if !self.local.contains(&key(branch)) {
                    return failed("fatal: invalid reference");
                }
                self.add_worktree(repo, dest, branch)
            }
            ["worktree", "add", dest, "-b", branch, start] => {
                if !self.remote.contains(&key(start)) || self.local.contains(&key(branch)) {
                    return failed("fatal: invalid reference");
                }
                let done = self.add_worktree(repo, dest, branch);
                if matches!(done, Outcome::Done { .. }) {
                    self.local.insert(key(branch));
                    self.upstream.insert(key(branch), start.to_string());
                    self.unpushed.insert(key(branch), 0);
                    self.ahead.insert(key(branch));
                }
                done
            }
            ["worktree", "add", "-b", branch, "--no-track", dest, start] => {
                if !self.remote.contains(&key(start)) || self.local.contains(&key(branch)) {
                    return failed("fatal: invalid reference");
                }
                let done = self.add_worktree(repo, dest, branch);
                if matches!(done, Outcome::Done { .. }) {
                    self.local.insert(key(branch));
                }
                done
            }
            ["worktree", "remove", rest @ ..] => {
                let (force, path) = match rest {
                    ["--force", p] => (true, *p),
                    [p] => (false, *p),
                    _ => return failed("usage"),
                };
                let at = self
                    .worktrees
                    .iter()
                    .position(|(r, d, _)| r == repo && d == path);
                match at {
                    None => failed("fatal: not a working tree"),
                    Some(i) => {
                        if self.dirty.contains(path) && !force {
                            return failed("fatal: contains modified or untracked files");
                        }
                        self.worktrees.remove(i);
                        if self.dirs.contains(path) {
                            self.remove_dir_all(path);
                        }
                        ok("")
                    }
                }
            }
            ["worktree", "prune"] => {
                let dirs = self.dirs.clone();
                self.worktrees.retain(|(_, d, _)| dirs.contains(d));
                ok("")
            }
            ["branch", flag @ ("-d" | "-D"), branch] => {
                if !self.local.contains(&key(branch)) {
                    return failed("error: branch not found");
                }
                if self.checked_out(repo, branch) {
                    return failed("error: cannot delete branch used by worktree");
                }
                if *flag == "-d" && self.ahead.contains(&key(branch)) {
                    return failed("error: the branch is not fully merged");
                }
                self.local.remove(&key(branch));
                ok("")
            }
            ["merge-base", "--is-ancestor", branch, _base] => {
                if self.ancestor.contains(&key(branch)) || !self.ahead.contains(&key(branch)) {
                    ok("")
                } else {
                    failed("exit code 1")
                }
            }
            ["for-each-ref", "--format=%(upstream:short)", full] => {
                let branch = full.strip_prefix("refs/heads/").unwrap_or(full);
                ok(self.upstream.get(&key(branch)).map(|s| s.as_str()).unwrap_or(""))
            }
            ["rev-list", "--count", range] => {
                let branch = range.split("..").nth(1).unwrap_or("");
                let n = self.unpushed.get(&key(branch)).copied().unwrap_or(0);
                ok(&format!("{}\n", n))
            }
            _ => failed("unknown git command"),
        }
    }

    /// A commit on `branch` that nothing else has.
    fn commit(&mut self, repo: &str, branch: &str) {
        let key = (repo.to_string(), branch.to_string());
        self.ahead.insert(key.clone());
        self.ancestor.remove(&key);
        if self.upstream.contains_key(&key) {
            *self.unpushed.entry(key).or_insert(0) += 1;
        }
    }

    fn push(&mut self, repo: &str, branch: &str, set_upstream: bool) {
        let key = (repo.to_string(), branch.to_string());
        self.remote
            .insert((repo.to_string(), format!("origin/{}", branch)));
        if set_upstream {
            self.upstream.insert(key.clone(), format!("origin/{}", branch));
        }
        if self.upstream.contains_key(&key) {
            self.unpushed.insert(key, 0);
        }
    }

    fn scan(&self, base: &str) -> Scan {
        let below = format!("{}/", base);
        let entries = self
            .dirs
            .iter()
            .filter_map(|d| d.strip_prefix(&below).map(|rest| (d, rest)))
            .filter(|(_, rest)| !rest.contains('/'))
            .map(|(d, rest)| ScanEntry {
                dir_name: rest.to_string(),
                path: d.clone(),
                is_dir: true,
                meta: match self.metas.get(&format!("{}/{}", d, META_FILENAME)) {
                    Some(m) => MetaRead::Read { meta: m.clone() },
                    None => MetaRead::Missing,
                },
            })
            .collect();
        Scan::Entries { entries }
    }

    fn plan_probes(&self, inputs: &NewInputs, tmpl: &ResolvedTemplate) -> PlanProbes {
        let forest_dir_exists = match ForestName::new(inputs.name.clone()) {
            Ok(name) => self.present(forest_dir(&tmpl.worktree_base, &name).as_str()),
            Err(_) => false,
        };
        let repos = plan_queries(inputs, tmpl)
            .iter()
            .map(|q| RepoProbe {
                source_is_dir: self.dirs.contains(q.repo.as_str()),
                local_branch: self.ref_probe(q.repo.as_str(), &q.local_ref),
                remote_branch: self.ref_probe(q.repo.as_str(), &q.remote_ref),
                base_branch: self.ref_probe(q.repo.as_str(), &q.base_ref),
            })
            .collect();
        PlanProbes {
            forest_dir_exists,
            scan: self.scan(tmpl.worktree_base.as_str()),
            repos,
        }
    }

    fn plan(&self, inputs: &NewInputs, tmpl: &ResolvedTemplate) -> Result<ForestPlan, PlanError> {
        plan_forest(inputs, tmpl, &self.plan_probes(inputs, tmpl))
    }

    fn perform_new(&mut self, action: &NewAction) -> Outcome {
        match action {
            NewAction::CreateForestDir { path } => {
                self.log.push(format!("mkdir {}", path.as_str()));
                if self.present(path.as_str()) {
                    failed("File exists")
                } else {
                    self.dirs.insert(path.as_str().to_string());
                    ok("")
                }
            }
            NewAction::WriteMeta { path, meta } => {
                self.log
                    .push(format!("write {} ({})", path.as_str(), meta.repos.len()));
                self.metas.insert(path.as_str().to_string(), meta.clone());
                ok("")
            }
            NewAction::Git { repo, args } => self.git(repo.as_str(), args),
            NewAction::RemoveForestDir { path } => {
                self.log.push(format!("rm -r {}", path.as_str()));
                self.remove_dir_all(path.as_str())
            }
        }
    }

    fn drive_new(&mut self, mut progress: NewProgress) -> Result<NewResult, String> {
        loop {
            match progress {
                NewProgress::Finished { outcome } => {
                    return match outcome {
                        NewOutcome::Created { result } => Ok(result),
                        NewOutcome::Failed { error } => Err(error),
                    }
                }
                NewProgress::Perform { run, action } => {
                    let outcome = self.perform_new(&action);
                    assert!(run.may_resume(&outcome));
                    progress = run.resume(outcome);
                }
            }
        }
    }

    fn execute_plan(&mut self, plan: &ForestPlan) -> Result<NewResult, String> {
        let start = execute_plan(plan.clone(), Timestamp { secs: 1_770_474_600, nanos: 0 });
        self.drive_new(start)
    }

    fn cmd_new(&mut self, inputs: NewInputs, tmpl: &ResolvedTemplate) -> Result<NewResult, String> {
        let probes = self.plan_probes(&inputs, tmpl);
        match cmd_new(&inputs, tmpl, &probes) {
            Err(e) => Err(e.message),
            Ok(NewStart::DryRun { result }) => Ok(result),
            Ok(NewStart::Run { progress }) => self.drive_new(progress),
        }
    }

    fn read_meta(&self, forest_dir: &str) -> ForestMeta {
        self.metas
            .get(&format!("{}/{}", forest_dir, META_FILENAME))
            .expect("the forest has a record")
            .clone()
    }

    fn rm_probes(&mut self, forest_dir: &str, meta: &ForestMeta) -> Vec<RmProbe> {
        meta.repos
            .iter()
            .map(|repo| {
                let worktree = format!("{}/{}", forest_dir, repo.name.as_str());
                let worktree_exists = self.present(&worktree);
                RmProbe {
                    worktree_exists,
                    source_exists: self.dirs.contains(repo.source.as_str()),
                    status: if worktree_exists {
                        self.git(&worktree, &["status".to_string(), "--porcelain".to_string()])
                    } else {
                        failed("not asked")
                    },
                }
            })
            .collect()
    }

    fn plan_rm(&mut self, forest_dir: &str, meta: &ForestMeta) -> RmPlan {
        let probes = self.rm_probes(forest_dir, meta);
        plan_rm(forest_dir, meta, &probes)
    }

    fn perform_rm(&mut self, action: &RmAction) -> Outcome {
        match action {
            RmAction::Report { .. } => ok(""),
            RmAction::Git { repo, args } => self.git(repo, args),
            RmAction::RemoveDirAll { path } => self.remove_dir_all(path),
            RmAction::RemoveDir { path } => self.remove_dir(path),
            RmAction::RemoveFile { path } => {
                if self.metas.remove(path).is_some() {
                    ok("")
                } else {
                    failed("No such file or directory")
                }
            }
            RmAction::Exists { path } => {
                if self.present(path) {
                    ok("")
                } else {
                    failed("")
                }
            }
        }
    }

    fn drive_rm(&mut self, mut step: RmStep) -> RmResult {
        loop {
            match step {
                RmStep::Finished { result } => return result,
                RmStep::Perform { run, action } => {
                    let outcome = self.perform_rm(&action);
                    step = run.resume(outcome);
                }
            }
        }
    }

    fn cmd_rm(&mut self, forest_dir: &str, meta: &ForestMeta, force: bool, dry_run: bool) -> RmResult {
        // The probes read and change nothing: they are left out of the log.
        let before = self.log.len();
        let probes = self.rm_probes(forest_dir, meta);
        self.log.truncate(before);
        assert!(plan_rm(forest_dir, meta, &probes).is_contained());
        let step = cmd_rm(forest_dir, meta, &probes, force, dry_run);
        self.drive_rm(step)
    }

    fn perform_reset(&mut self, action: &ResetAction) -> Outcome {
        match action {
            ResetAction::Report { .. } => ok(""),
            ResetAction::Git { repo, args } => self.git(repo, args),
            ResetAction::RemoveDirAll { path } => {
                self.log.push(format!("rm -r {}", path));
                self.remove_dir_all(path)
            }
            ResetAction::RemoveFile { path } => {
                self.log.push(format!("rm {}", path));
                if self.files.remove(path) || self.metas.remove(path).is_some() {
                    ok("")
                } else {
                    failed("No such file or directory")
                }
            }
            ResetAction::Exists { path } => {
                if self.present(path) {
                    ok("")
                } else {
                    failed("")
                }
            }
        }
    }

    /// A reset with the configuration naming `bases`, or being unreadable
    /// where there are none given.
    fn cmd_reset(
        &mut self,
        confirm: bool,
        config_only: bool,
        dry_run: bool,
        bases: Option<&[&str]>,
    ) -> Result<ResetResult, ResetError> {
        let facts = ResetFacts {
            config_path: CONFIG.to_string(),
            config_exists: self.present(CONFIG),
            state_path: STATE.to_string(),
            state_exists: self.present(STATE),
            config: match bases {
                Some(bases) => ConfigLoad::Loaded {
                    scans: bases
                        .iter()
                        .map(|b| BaseScan {
                            base: b.to_string(),
                            scan: self.scan(b),
                        })
                        .collect(),
                },
                None => ConfigLoad::Failed {
                    error: "expected a table key".to_string(),
                },
            },
        };
        let present: Vec<bool> = match plan_reset(config_only, &facts) {
            Ok(plan) => {
                assert!(plan.is_contained());
                plan.forests.iter().map(|f| self.present(&f.path)).collect()
            }
            Err(_) => Vec::new(),
        };
        let mut step = cmd_reset(confirm, config_only, dry_run, &facts, &present)?;
        loop {
            match step {
                ResetStep::Finished { result } => return Ok(result),
                ResetStep::Perform { run, action } => {
                    let outcome = self.perform_reset(&action);
                    step = run.resume(outcome);
                }
            }
        }
    }

    fn ls(&self) -> Vec<String> {
        let forests = match self.scan(BASE) {
            Scan::Entries { entries } => discover_forests(&entries),
            Scan::Failed { .. } => Vec::new(),
        };
        cmd_ls(forests)
            .forests
            .iter()
            .map(|f| f.name.as_str().to_string())
            .collect()
    }
}

fn make_new_inputs(name: &str, mode: ForestMode) -> NewInputs {
    NewInputs {
        name: name.to_string(),
        mode,
        branch_override: None,
        repo_branches: vec![],
        no_fetch: true,
        dry_run: false,
    }
}

fn base_join(name: &str) -> String {
    format!("{}/{}", BASE, name)
}

// --- Input validation ---

#[test]
fn plan_empty_name_errors() {
    let mut env = World::new();
    env.create_repo_with_remote("foo-api");
    let tmpl = env.default_template(&["foo-api"]);
    let mut inputs = make_new_inputs("", ForestMode::Feature);
    inputs.no_fetch = true;

    let result = env.plan(&inputs, &tmpl);
    assert!(result.is_err());
    let err = result.unwrap_err();
    assert_eq!(err.kind, PlanErrorKind::InvalidName);
    assert!(err.message.contains("invalid forest name"));
}

#[test]
fn plan_dot_name_errors() {
    let mut env = World::new();
    env.create_repo_with_remote("foo-api");
    let tmpl = env.default_template(&["foo-api"]);

    for name in &[".", ".."] {
        let inputs = make_new_inputs(name, ForestMode::Feature);
        let result = env.plan(&inputs, &tmpl);
        assert!(result.is_err(), "expected error for name {:?}", name);
        assert!(result.unwrap_err().message.contains("invalid forest name"));
    }
}

#[test]
fn plan_forest_dir_collision_errors() {
    let mut env = World::new();
    env.create_repo_with_remote("foo-api");
    let tmpl = env.default_template(&["foo-api"]);

    // Pre-create the forest directory
    let fname = ForestName::new("my-feature".to_string()).unwrap();
    let fdir = forest_dir(&tmpl.worktree_base, &fname);
    env.dirs.insert(fdir.as_str().to_string());

    let inputs = make_new_inputs("my-feature", ForestMode::Feature);
    let result = env.plan(&inputs, &tmpl);
    assert!(result.is_err());
    let err = result.unwrap_err();
    assert_eq!(err.kind, PlanErrorKind::DirectoryExists);
    assert!(err.message.contains("already exists"));
}

#[test]
fn plan_empty_config_repos_errors() {
    let env = World::new();
    let tmpl = ResolvedTemplate {
        worktree_base: AbsolutePath::new(BASE.to_string()).unwrap(),
        base_branch: "main".to_string(),
        feature_branch_template: "testuser/{name}".to_string(),
        repos: vec![],
    };

    let inputs = make_new_inputs("test", ForestMode::Feature);
    let result = env.plan(&inputs, &tmpl);
    assert!(result.is_err());
    let err = result.unwrap_err();
    assert_eq!(err.kind, PlanErrorKind::NoRepos);
    assert!(err.message.contains("no repos configured"));
}

#[test]
fn plan_source_repo_missing_errors() {
    let env = World::new();
    let tmpl = ResolvedTemplate {
        worktree_base: AbsolutePath::new(BASE.to_string()).unwrap(),
        base_branch: "main".to_string(),
        feature_branch_template: "testuser/{name}".to_string(),
        repos: vec![ResolvedRepo {
            path: AbsolutePath::new("/nonexistent/repo".to_string()).unwrap(),
            name: RepoName::new("missing".to_string()).unwrap(),
            base_branch: "main".to_string(),
            remote: "origin".to_string(),
        }],
    };

    let inputs = make_new_inputs("test", ForestMode::Feature);
    let result = env.plan(&inputs, &tmpl);
    assert!(result.is_err());
    let err = result.unwrap_err();
    assert_eq!(err.kind, PlanErrorKind::SourceMissing);
    assert!(err.message.contains("source repo not found"));
    assert!(err.message.contains("/nonexistent/repo"));
}

#[test]
fn repo_branch_override_unknown_repo_errors() {
    let mut env = World::new();
    env.create_repo_with_remote("foo-api");
    let tmpl = env.default_template(&["foo-api"]);

    let mut inputs = make_new_inputs("test", ForestMode::Feature);
    inputs.repo_branches = vec![("nonexistent".to_string(), "branch".to_string())];

    let result = env.plan(&inputs, &tmpl);
    assert!(result.is_err());
    let err = result.unwrap_err();
    assert_eq!(err.kind, PlanErrorKind::UnknownRepo);
    assert!(err.message.contains("unknown repo"), "error: {}", err.message);
    assert!(
        err.message.contains("foo-api"),
        "should list known repos: {}",
        err.message
    );
}

#[test]
fn duplicate_repo_branch_errors() {
    let mut env = World::new();
    env.create_repo_with_remote("foo-api");
    let tmpl = env.default_template(&["foo-api"]);

    let mut inputs = make_new_inputs("test", ForestMode::Feature);
    inputs.repo_branches = vec![
        ("foo-api".to_string(), "branch-a".to_string()),
        ("foo-api".to_string(), "branch-b".to_string()),
    ];

    let result = env.plan(&inputs, &tmpl);
    assert!(result.is_err());
    let err = result.unwrap_err();
    assert_eq!(err.kind, PlanErrorKind::DuplicateRepoBranch);
    assert!(err.message.contains("duplicate repo-branch"));
}

#[test]
fn plan_ambiguous_branch_refs_prefix_errors() {
    let mut env = World::new();
    env.create_repo_with_remote("foo-api");
    let tmpl = env.default_template(&["foo-api"]);

    let mut inputs = make_new_inputs("test", ForestMode::Feature);
    inputs.branch_override = Some("refs/heads/my-branch".to_string());

    let result = env.plan(&inputs, &tmpl);
    assert!(result.is_err());
    let err = result.unwrap_err();
    assert_eq!(err.kind, PlanErrorKind::InvalidBranch);
    assert!(err.message.contains("looks like a ref path"));
}

#[test]
fn plan_ambiguous_branch_remote_prefix_errors() {
    let mut env = World::new();
    env.create_repo_with_remote("foo-api");
    let tmpl = env.default_template(&["foo-api"]);

    let mut inputs = make_new_inputs("test", ForestMode::Feature);
    inputs.branch_override = Some("origin/my-branch".to_string());

    let result = env.plan(&inputs, &tmpl);
    assert!(result.is_err());
    assert!(result
        .unwrap_err()
        .message
        .contains("looks like a remote ref"));
}

#[test]
fn plan_base_branch_ref_missing_errors() {
    let mut env = World::new();
    // The remote has main. Set base_branch to "dev" (doesn't exist).
    env.create_repo_with_remote("foo-api");
    let mut tmpl = env.default_template(&["foo-api"]);
    tmpl.repos[0].base_branch = "dev".to_string();

    let inputs = make_new_inputs("test", ForestMode::Feature);
    let result = env.plan(&inputs, &tmpl);
    assert!(result.is_err());
    let err = result.unwrap_err();
    assert_eq!(err.kind, PlanErrorKind::BaseBranchMissing);
    assert!(
        err.message.contains("origin/dev not found"),
        "error: {}",
        err.message
    );
    assert_eq!(
        err.message,
        "origin/dev not found in foo-api\n  hint: check that base_branch \"dev\" exists on remote \"origin\", or run `git fetch origin` in /env/src/foo-api"
    );
}

#[test]
fn plan_errors_come_in_order() {
    let mut env = World::new();
    env.create_repo_with_remote("foo-api");
    let tmpl = env.default_template(&["foo-api"]);
    // A duplicate override and an unknown one: the duplicate is found first.
    let mut inputs = make_new_inputs("test", ForestMode::Feature);
    inputs.repo_branches = vec![
        ("nonexistent".to_string(), "a".to_string()),
        ("nonexistent".to_string(), "b".to_string()),
    ];
    assert_eq!(
        env.plan(&inputs, &tmpl).unwrap_err().kind,
        PlanErrorKind::DuplicateRepoBranch
    );
    // An invalid override of a repository comes after a missing source.
    let mut inputs = make_new_inputs("test", ForestMode::Feature);
    inputs.repo_branches = vec![("foo-api".to_string(), "refs/x".to_string())];
    let mut probes = env.plan_probes(&inputs, &tmpl);
    assert_eq!(
        plan_forest(&inputs, &tmpl, &probes).unwrap_err().kind,
        PlanErrorKind::InvalidBranch
    );
    probes.repos[0].source_is_dir = false;
    assert_eq!(
        plan_forest(&inputs, &tmpl, &probes).unwrap_err().kind,
        PlanErrorKind::SourceMissing
    );
    probes.scan = Scan::Failed {
        error: "permission denied".to_string(),
    };
    let err = plan_forest(&inputs, &tmpl, &probes).unwrap_err();
    assert_eq!(err.kind, PlanErrorKind::ScanFailed);
    assert_eq!(err.message, "permission denied");
}

#[test]
fn plan_failed_ref_query_errors() {
    let mut env = World::new();
    env.create_repo_with_remote("foo-api");
    let tmpl = env.default_template(&["foo-api"]);
    let inputs = make_new_inputs("test", ForestMode::Feature);
    let mut probes = env.plan_probes(&inputs, &tmpl);
    probes.repos[0].remote_branch = RefProbe::Failed {
        error: "killed by signal".to_string(),
    };
    let err = plan_forest(&inputs, &tmpl, &probes).unwrap_err();
    assert_eq!(err.kind, PlanErrorKind::ProbeFailed);
    assert_eq!(err.message, "killed by signal");
}

#[test]
fn plan_name_collision_with_existing_forest_errors() {
    let mut env = World::new();
    env.create_repo_with_remote("foo-api");
    let tmpl = env.default_template(&["foo-api"]);
    env.cmd_new(make_new_inputs("a/b", ForestMode::Feature), &tmpl)
        .unwrap();
    // "a-b" is free as a name, but its directory is that of "a/b".
    let err = env
        .plan(&make_new_inputs("a-b", ForestMode::Feature), &tmpl)
        .unwrap_err();
    assert_eq!(err.kind, PlanErrorKind::DirectoryExists);
    // With the directory's existence unknown, the scan still finds it.
    let inputs = make_new_inputs("a-b", ForestMode::Feature);
    let mut probes = env.plan_probes(&inputs, &tmpl);
    probes.forest_dir_exists = false;
    let err = plan_forest(&inputs, &tmpl, &probes).unwrap_err();
    assert_eq!(err.kind, PlanErrorKind::NameCollision);
    assert_eq!(
        err.message,
        "forest name \"a-b\" collides with existing forest \"a/b\" at /env/worktrees/a-b\n  hint: choose a different name"
    );
}

// --- Branch resolution ---

#[test]
fn plan_resolves_existing_local_branch() {
    let mut env = World::new();
    let repo = env.create_repo_with_remote("foo-api");
    // Create a local branch
    env.local.insert((repo, "testuser/my-feature".to_string()));

    let tmpl = env.default_template(&["foo-api"]);
    let inputs = make_new_inputs("my-feature", ForestMode::Feature);

    let plan = env.plan(&inputs, &tmpl).unwrap();
    assert_eq!(plan.repo_plans.len(), 1);
    assert!(matches!(
        plan.repo_plans[0].checkout,
        CheckoutKind::ExistingLocal
    ));
    assert!(!branch_created(&plan.repo_plans[0].checkout));
}

#[test]
fn plan_resolves_remote_branch() {
    let mut env = World::new();
    let repo = env.create_repo_with_remote("foo-api");
    // The branch is on origin but not kept locally
    env.push(&repo, "testuser/my-feature", false);

    let tmpl = env.default_template(&["foo-api"]);
    let inputs = make_new_inputs("my-feature", ForestMode::Feature);

    let plan = env.plan(&inputs, &tmpl).unwrap();
    assert_eq!(plan.repo_plans.len(), 1);
    assert!(matches!(
        plan.repo_plans[0].checkout,
        CheckoutKind::TrackRemote
    ));
    assert!(!branch_created(&plan.repo_plans[0].checkout));
}

#[test]
fn plan_resolves_new_branch() {
    let mut env = World::new();
    env.create_repo_with_remote("foo-api");
    let tmpl = env.default_template(&["foo-api"]);

    let inputs = make_new_inputs("brand-new-feature", ForestMode::Feature);

    let plan = env.plan(&inputs, &tmpl).unwrap();
    assert_eq!(plan.repo_plans.len(), 1);
    assert!(matches!(
        plan.repo_plans[0].checkout,
        CheckoutKind::NewBranch
    ));
    assert!(branch_created(&plan.repo_plans[0].checkout));
}

// --- Full plan shape ---

#[test]
fn plan_feature_mode_all_repos() {
    let mut env = World::new();
    env.create_repo_with_remote("foo-api");
    env.create_repo_with_remote("foo-web");
    let tmpl = env.default_template(&["foo-api", "foo-web"]);

    let inputs = make_new_inputs("java-84/refactor-auth", ForestMode::Feature);
    let plan = env.plan(&inputs, &tmpl).unwrap();

    assert_eq!(plan.forest_name.as_str(), "java-84/refactor-auth");
    assert_eq!(plan.mode, ForestMode::Feature);
    assert_eq!(plan.repo_plans.len(), 2);
    assert_eq!(
        plan.repo_plans[0].branch.as_str(),
        "testuser/java-84/refactor-auth"
    );
    assert_eq!(
        plan.repo_plans[1].branch.as_str(),
        "testuser/java-84/refactor-auth"
    );
    assert!(matches!(
        plan.repo_plans[0].checkout,
        CheckoutKind::NewBranch
    ));
    assert_eq!(
        plan.forest_dir.as_str(),
        "/env/worktrees/java-84-refactor-auth"
    );
    assert_eq!(
        plan.repo_plans[1].dest.as_str(),
        "/env/worktrees/java-84-refactor-auth/foo-web"
    );
    assert_eq!(plan.repo_plans[1].source.as_str(), "/env/src/foo-web");
    assert!(plan.is_contained());
}

#[test]
fn plan_review_mode_with_exception() {
    let mut env = World::new();
    env.create_repo_with_remote("foo-api");
    env.create_repo_with_remote("foo-web");
    let tmpl = env.default_template(&["foo-api", "foo-web"]);

    let mut inputs = make_new_inputs("review-sues-dialog", ForestMode::Review);
    inputs.repo_branches = vec![("foo-web".to_string(), "sue/fix-dialog".to_string())];

    let plan = env.plan(&inputs, &tmpl).unwrap();

    assert_eq!(plan.repo_plans.len(), 2);
    // foo-api gets the default review branch
    assert_eq!(
        plan.repo_plans[0].branch.as_str(),
        "forest/review-sues-dialog"
    );
    // foo-web gets the exception branch
    assert_eq!(plan.repo_plans[1].branch.as_str(), "sue/fix-dialog");
}

#[test]
fn plan_forest_name_all_slashes_works() {
    let mut env = World::new();
    env.create_repo_with_remote("foo-api");
    let tmpl = env.default_template(&["foo-api"]);

    // "////" sanitizes to "----" which is valid
    let inputs = make_new_inputs("////", ForestMode::Feature);
    let plan = env.plan(&inputs, &tmpl).unwrap();
    assert_eq!(plan.forest_name.as_str(), "////");
    assert!(plan.forest_dir.as_str().contains("----"));
}

#[test]
fn plan_forest_name_with_spaces_works() {
    let mut env = World::new();
    env.create_repo_with_remote("foo-api");
    let tmpl = env.default_template(&["foo-api"]);

    let inputs = make_new_inputs("my feature", ForestMode::Feature);
    let plan = env.plan(&inputs, &tmpl).unwrap();
    assert_eq!(plan.forest_name.as_str(), "my feature");
}

#[test]
fn plan_with_absolute_repo_name_is_not_contained() {
    let mut env = World::new();
    env.create_repo_with_remote("foo-api");
    let mut tmpl = env.default_template(&["foo-api"]);
    tmpl.repos[0].name = RepoName::new("/etc".to_string()).unwrap();
    assert!(!tmpl.names_are_relative());
    let plan = env
        .plan(&make_new_inputs("x", ForestMode::Feature), &tmpl)
        .unwrap();
    assert_eq!(plan.repo_plans[0].dest.as_str(), "/etc");
    assert!(!plan.is_contained());
}

// --- execute_plan ---

#[test]
fn execute_creates_forest_dir_and_worktrees() {
    let mut env = World::new();
    env.create_repo_with_remote("foo-api");
    env.create_repo_with_remote("foo-web");
    let tmpl = env.default_template(&["foo-api", "foo-web"]);

    let inputs = make_new_inputs("exec-test", ForestMode::Feature);
    let plan = env.plan(&inputs, &tmpl).unwrap();
    let result = env.execute_plan(&plan).unwrap();

    assert_eq!(result.repos.len(), 2);
    assert!(!result.dry_run);

    // Verify directories exist
    assert!(env.present(plan.forest_dir.as_str()));
    assert!(env.present(plan.forest_dir.join("foo-api").as_str()));
    assert!(env.present(plan.forest_dir.join("foo-web").as_str()));

    // Verify meta file exists
    assert!(env.present(plan.forest_dir.join(META_FILENAME).as_str()));
}

#[test]
fn execute_asks_for_the_actions_in_order() {
    let mut env = World::new();
    env.create_repo_with_remote("foo-api");
    env.create_repo_with_remote("foo-web");
    let repo = env.repo_path("foo-web");
    env.push(&repo, "testuser/t", false);
    let tmpl = env.default_template(&["foo-api", "foo-web"]);
    let plan = env
        .plan(&make_new_inputs("t", ForestMode::Feature), &tmpl)
        .unwrap();
    env.execute_plan(&plan).unwrap();
    assert_eq!(
        env.log,
        vec![
            "mkdir /env/worktrees/t",
            "write /env/worktrees/t/.forest-meta.toml (0)",
            "git -C /env/src/foo-api worktree add -b testuser/t --no-track /env/worktrees/t/foo-api origin/main",
            "write /env/worktrees/t/.forest-meta.toml (1)",
            "git -C /env/src/foo-web worktree add /env/worktrees/t/foo-web -b testuser/t origin/testuser/t",
            "write /env/worktrees/t/.forest-meta.toml (2)",
        ]
    );
}

#[test]
fn execute_meta_matches_plan() {
    let mut env = World::new();
    env.create_repo_with_remote("foo-api");
    let tmpl = env.default_template(&["foo-api"]);

    let inputs = make_new_inputs("meta-test", ForestMode::Feature);
    let plan = env.plan(&inputs, &tmpl).unwrap();
    env.execute_plan(&plan).unwrap();

    let meta = env.read_meta(plan.forest_dir.as_str());

    assert_eq!(meta.name.as_str(), "meta-test");
    assert_eq!(meta.mode, ForestMode::Feature);
    assert_eq!(meta.repos.len(), 1);
    assert_eq!(meta.repos[0].name.as_str(), "foo-api");
    assert_eq!(meta.repos[0].branch, "testuser/meta-test");
    assert_eq!(meta.repos[0].base_branch, "main");
    assert!(meta.repos[0].branch_created);
    assert_eq!(meta.created_at, Timestamp { secs: 1_770_474_600, nanos: 0 });
}

#[test]
fn meta_reflects_worktrees_after_creation() {
    let mut env = World::new();
    let api = env.create_repo_with_remote("foo-api");
    env.create_repo_with_remote("foo-web");
    let docs = env.create_repo_with_remote("docs");
    env.local.insert((api, "testuser/m".to_string()));
    env.push(&docs, "testuser/m", false);
    let tmpl = env.default_template(&["foo-api", "foo-web", "docs"]);
    let plan = env
        .plan(&make_new_inputs("m", ForestMode::Feature), &tmpl)
        .unwrap();
    let result = env.execute_plan(&plan).unwrap();
    let meta = env.read_meta(plan.forest_dir.as_str());
    let below = format!("{}/", plan.forest_dir.as_str());
    let worktrees = env.dirs.iter().filter(|d| d.starts_with(&below)).count();
    assert_eq!(meta.repos.len(), worktrees);
    assert_eq!(meta.repos.len(), 3);
    for (i, repo) in meta.repos.iter().enumerate() {
        let new_branch = matches!(plan.repo_plans[i].checkout, CheckoutKind::NewBranch);
        assert_eq!(repo.branch_created, new_branch);
        assert_eq!(result.repos[i].branch_created, new_branch);
    }
    assert!(!meta.repos[0].branch_created);
    assert!(meta.repos[1].branch_created);
    assert!(!meta.repos[2].branch_created);
}

// --- cmd_new ---

#[test]
fn cmd_new_feature_mode_creates_forest() {
    let mut env = World::new();
    env.create_repo_with_remote("foo-api");
    env.create_repo_with_remote("foo-web");
    let tmpl = env.default_template(&["foo-api", "foo-web"]);

    let inputs = make_new_inputs("e2e-feature", ForestMode::Feature);
    let result = env.cmd_new(inputs, &tmpl).unwrap();

    assert_eq!(result.forest_name.as_str(), "e2e-feature");
    assert_eq!(result.mode, ForestMode::Feature);
    assert!(!result.dry_run);
    assert_eq!(result.repos.len(), 2);
    assert_eq!(result.repos[0].branch, "testuser/e2e-feature");
    assert!(result.repos[0].branch_created);
    assert!(env.present(result.forest_dir.as_str()));
}

#[test]
fn feature_branch_has_no_upstream_tracking() {
    let mut env = World::new();
    let repo = env.create_repo_with_remote("foo-api");
    let tmpl = env.default_template(&["foo-api"]);

    let inputs = make_new_inputs("no-track-test", ForestMode::Feature);
    env.cmd_new(inputs, &tmpl).unwrap();

    assert!(env.log.iter().any(|l| l.contains("--no-track")));
    assert!(
        !env.upstream
            .contains_key(&(repo, "testuser/no-track-test".to_string())),
        "feature branch should have no upstream"
    );
}

#[test]
fn review_branch_tracks_remote() {
    let mut env = World::new();
    let repo = env.create_repo_with_remote("foo-api");
    let tmpl = env.default_template(&["foo-api"]);

    // Push a branch to the remote so TrackRemote can find it
    env.push(&repo, "sue/fix-dialog", false);

    let mut inputs = make_new_inputs("track-test", ForestMode::Review);
    inputs.repo_branches = vec![("foo-api".to_string(), "sue/fix-dialog".to_string())];
    env.cmd_new(inputs, &tmpl).unwrap();

    let upstream = env.upstream.get(&(repo, "sue/fix-dialog".to_string()));
    assert!(upstream.is_some(), "review branch should track remote upstream");
    assert!(
        upstream.unwrap() == "origin/sue/fix-dialog",
        "expected origin/sue/fix-dialog, got: {}",
        upstream.unwrap()
    );
}

#[test]
fn cmd_new_dry_run_does_not_create() {
    let mut env = World::new();
    env.create_repo_with_remote("foo-api");
    let tmpl = env.default_template(&["foo-api"]);

    let mut inputs = make_new_inputs("dry-run-test", ForestMode::Feature);
    inputs.dry_run = true;

    let result = env.cmd_new(inputs, &tmpl).unwrap();

    assert!(result.dry_run);
    assert_eq!(result.repos.len(), 1);
    // Forest directory should NOT exist
    assert!(!env.present(result.forest_dir.as_str()));
    assert!(env.log.is_empty());
}

#[test]
fn cmd_new_review_mode_with_repo_branch() {
    let mut env = World::new();
    env.create_repo_with_remote("foo-api");
    env.create_repo_with_remote("foo-web");
    let tmpl = env.default_template(&["foo-api", "foo-web"]);

    let mut inputs = make_new_inputs("review-test", ForestMode::Review);
    inputs.repo_branches = vec![("foo-web".to_string(), "sue/fix-dialog".to_string())];

    let result = env.cmd_new(inputs, &tmpl).unwrap();

    assert_eq!(result.repos.len(), 2);
    assert_eq!(result.repos[0].branch, "forest/review-test");
    assert_eq!(result.repos[1].branch, "sue/fix-dialog");
}

#[test]
fn cmd_new_duplicate_forest_name_errors() {
    let mut env = World::new();
    env.create_repo_with_remote("foo-api");
    let tmpl = env.default_template(&["foo-api"]);

    // First create succeeds
    let inputs = make_new_inputs("dup-test", ForestMode::Feature);
    env.cmd_new(inputs, &tmpl).unwrap();

    // Second create should fail
    let inputs2 = make_new_inputs("dup-test", ForestMode::Feature);
    let result = env.cmd_new(inputs2, &tmpl);
    assert!(result.is_err());
    assert!(result.unwrap_err().contains("already exists"));
}

#[test]
fn new_with_explicit_template() {
    let mut env = World::new();
    env.create_repo_with_remote("alpha-api");
    env.create_repo_with_remote("beta-api");

    // Template "alpha" has alpha-api, template "beta" has beta-api
    let tmpl_alpha = env.default_template(&["alpha-api"]);

    let tmpl_beta = ResolvedTemplate {
        worktree_base: AbsolutePath::new(BASE.to_string()).unwrap(),
        base_branch: "main".to_string(),
        feature_branch_template: "testuser/{name}".to_string(),
        repos: vec![ResolvedRepo {
            path: AbsolutePath::new(env.repo_path("beta-api")).unwrap(),
            name: RepoName::new("beta-api".to_string()).unwrap(),
            base_branch: "main".to_string(),
            remote: "origin".to_string(),
        }],
    };

    // Using tmpl_alpha creates worktrees only for alpha-api
    let inputs = make_new_inputs("alpha-feature", ForestMode::Feature);
    let result = env.cmd_new(inputs, &tmpl_alpha).unwrap();
    assert_eq!(result.repos.len(), 1);
    assert_eq!(result.repos[0].name.as_str(), "alpha-api");

    // Using tmpl_beta creates worktrees only for beta-api
    let inputs = make_new_inputs("beta-feature", ForestMode::Feature);
    let result = env.cmd_new(inputs, &tmpl_beta).unwrap();
    assert_eq!(result.repos.len(), 1);
    assert_eq!(result.repos[0].name.as_str(), "beta-api");
}

#[test]
fn ls_shows_new_forest() {
    let mut env = World::new();
    env.create_repo_with_remote("foo-api");
    let tmpl = env.default_template(&["foo-api"]);

    let inputs = make_new_inputs("ls-test", ForestMode::Feature);
    env.cmd_new(inputs, &tmpl).unwrap();

    let forests = match env.scan(tmpl.worktree_base.as_str()) {
        Scan::Entries { entries } => discover_forests(&entries),
        Scan::Failed { .. } => vec![],
    };
    let ls_result = cmd_ls(forests);
    assert_eq!(ls_result.forests.len(), 1);
    assert_eq!(ls_result.forests[0].name.as_str(), "ls-test");
    assert_eq!(ls_result.forests[0].mode, ForestMode::Feature);
}

// --- Rollback ---

/// When execution fails partway through (the second repo's worktree add
/// fails), the forest directory is cleaned up so a retry with the same name
/// doesn't hit "forest directory already exists".
#[test]
fn execute_plan_cleans_up_forest_dir_on_failure() {
    let mut env = World::new();
    env.create_repo_with_remote("good-repo");
    env.create_repo_with_remote("bad-repo");
    let tmpl = env.default_template(&["good-repo", "bad-repo"]);

    let inputs = make_new_inputs("cleanup-test", ForestMode::Feature);
    let plan = env.plan(&inputs, &tmpl).unwrap();

    // Sabotage: remove the second repo's source so git worktree add fails.
    let bad_source = plan.repo_plans[1].source.as_str().to_string();
    env.remove_dir_all(&bad_source);

    // execution should fail on the second repo
    let result = env.execute_plan(&plan);
    assert!(result.is_err(), "execute_plan should fail");
    assert_eq!(result.unwrap_err(), "fatal: cannot change to directory");

    // The forest directory should have been cleaned up
    assert!(
        !env.present(plan.forest_dir.as_str()),
        "forest directory should be cleaned up after failed execute_plan, but exists at: {}",
        plan.forest_dir.as_str()
    );

    // The first repo's worktree was successfully created before the failure.
    // Its git worktree registration should also be cleaned up.
    assert!(
        !env.worktrees.iter().any(|(_, d, _)| d.contains("cleanup-test")),
        "first repo's worktree registration should be cleaned up after failed execute_plan"
    );
    assert_eq!(
        &env.log[env.log.len() - 2..],
        &[
            "git -C /env/src/good-repo worktree remove --force /env/worktrees/cleanup-test/good-repo"
                .to_string(),
            "rm -r /env/worktrees/cleanup-test".to_string(),
        ]
    );
}

#[test]
fn rollback_removes_every_worktree_created_so_far() {
    for k in 0..3usize {
        let mut env = World::new();
        let names = ["r0", "r1", "r2"];
        for n in names {
            env.create_repo_with_remote(n);
        }
        let tmpl = env.default_template(&names);
        let plan = env
            .plan(&make_new_inputs("x", ForestMode::Feature), &tmpl)
            .unwrap();
        let failing = env.repo_path(names[k]);
        env.remove_dir_all(&failing);
        assert!(env.execute_plan(&plan).is_err());
        assert!(!env.present("/env/worktrees/x"));
        assert!(env.worktrees.is_empty());
        let removals: Vec<&String> = env
            .log
            .iter()
            .filter(|l| l.contains("worktree remove --force"))
            .collect();
        assert_eq!(removals.len(), k);
        assert_eq!(env.log.last().unwrap(), "rm -r /env/worktrees/x");
    }
}

#[test]
fn retry_after_partial_failure_succeeds() {
    let mut env = World::new();
    env.create_repo_with_remote("good-repo");
    let bad = env.create_repo_with_remote("bad-repo");
    let tmpl = env.default_template(&["good-repo", "bad-repo"]);
    let plan = env
        .plan(&make_new_inputs("X", ForestMode::Feature), &tmpl)
        .unwrap();
    env.remove_dir_all(&bad);
    assert!(env.execute_plan(&plan).is_err());

    // The source is back; the same request goes through. The branch that the
    // first attempt created in the good repository is now attached to.
    env.create_repo_with_remote("bad-repo");
    let result = env
        .cmd_new(make_new_inputs("X", ForestMode::Feature), &tmpl)
        .unwrap();
    assert_eq!(result.repos.len(), 2);
    assert!(env.present("/env/worktrees/X/good-repo"));
    assert!(env.present("/env/worktrees/X/bad-repo"));
}

#[test]
fn creating_the_directory_fails_without_rollback() {
    let mut env = World::new();
    env.create_repo_with_remote("foo-api");
    let tmpl = env.default_template(&["foo-api"]);
    let plan = env
        .plan(&make_new_inputs("race", ForestMode::Feature), &tmpl)
        .unwrap();
    // The directory appears between planning and execution.
    env.dirs.insert("/env/worktrees/race".to_string());
    let err = env.execute_plan(&plan).unwrap_err();
    assert_eq!(err, "File exists");
    assert_eq!(env.log, vec!["mkdir /env/worktrees/race"]);
    assert!(env.present("/env/worktrees/race"));
}

#[test]
fn failing_to_write_the_record_rolls_back() {
    let mut env = World::new();
    env.create_repo_with_remote("foo-api");
    let tmpl = env.default_template(&["foo-api"]);
    let plan = env
        .plan(&make_new_inputs("w", ForestMode::Feature), &tmpl)
        .unwrap();
    let mut progress = NewRun::start(plan, Timestamp { secs: 0, nanos: 0 });
    let mut asked = Vec::new();
    let outcome = loop {
        match progress {
            NewProgress::Finished { outcome } => break outcome,
            NewProgress::Perform { run, action } => {
                let writes_second = matches!(&action, NewAction::WriteMeta { meta, .. } if meta.repos.len() == 1);
                asked.push(match &action {
                    NewAction::CreateForestDir { .. } => "mkdir".to_string(),
                    NewAction::WriteMeta { .. } => "write".to_string(),
                    NewAction::Git { args, .. } => args[..2].join(" "),
                    NewAction::RemoveForestDir { .. } => "rmdir".to_string(),
                });
                progress = run.resume(if writes_second {
                    failed("disk full")
                } else {
                    ok("")
                });
            }
        }
    };
    assert!(matches!(outcome, NewOutcome::Failed { error } if error == "disk full"));
    assert_eq!(
        asked,
        vec!["mkdir", "write", "worktree add", "write", "worktree remove", "rmdir"]
    );
}

// --- Removal: plans ---

#[test]
fn plan_rm_basic() {
    let mut env = World::new();
    env.create_repo_with_remote("foo-api");
    env.create_repo_with_remote("foo-web");
    let tmpl = env.default_template(&["foo-api", "foo-web"]);

    let inputs = make_new_inputs("plan-basic", ForestMode::Feature);
    let result = env.cmd_new(inputs, &tmpl).unwrap();

    let forest_dir = result.forest_dir;
    let meta = env.read_meta(forest_dir.as_str());
    let plan = env.plan_rm(forest_dir.as_str(), &meta);

    assert_eq!(plan.forest_name.as_str(), "plan-basic");
    assert_eq!(plan.forest_dir, forest_dir.as_str());
    assert_eq!(plan.repo_plans.len(), 2);
    assert_eq!(plan.repo_plans[0].name.as_str(), "foo-api");
    assert_eq!(plan.repo_plans[1].name.as_str(), "foo-web");
    assert_eq!(
        plan.repo_plans[1].worktree_path,
        "/env/worktrees/plan-basic/foo-web"
    );
    assert!(plan.is_contained());
}

#[test]
fn plan_rm_detects_worktree_exists() {
    let mut env = World::new();
    env.create_repo_with_remote("foo-api");
    let tmpl = env.default_template(&["foo-api"]);

    let inputs = make_new_inputs("wt-exists", ForestMode::Feature);
    let result = env.cmd_new(inputs, &tmpl).unwrap();

    let forest_dir = result.forest_dir;
    let meta = env.read_meta(forest_dir.as_str());
    let plan = env.plan_rm(forest_dir.as_str(), &meta);

    assert!(plan.repo_plans[0].worktree_exists);
}

#[test]
fn plan_rm_detects_worktree_missing() {
    let mut env = World::new();
    env.create_repo_with_remote("foo-api");
    let tmpl = env.default_template(&["foo-api"]);

    let inputs = make_new_inputs("wt-missing", ForestMode::Feature);
    let result = env.cmd_new(inputs, &tmpl).unwrap();

    let forest_dir = result.forest_dir;
    let meta = env.read_meta(forest_dir.as_str());

    // Manually delete the worktree directory
    env.remove_dir_all(forest_dir.join("foo-api").as_str());

    let plan = env.plan_rm(forest_dir.as_str(), &meta);
    assert!(!plan.repo_plans[0].worktree_exists);
}

#[test]
fn plan_rm_records_branch_created() {
    let mut env = World::new();
    env.create_repo_with_remote("foo-api");
    env.create_repo_with_remote("foo-web");
    let tmpl = env.default_template(&["foo-api", "foo-web"]);

    // Review mode with exception: foo-web gets an existing branch (branch_created=false)
    let repo = env.repo_path("foo-web");
    env.local.insert((repo, "sue/fix-dialog".to_string()));

    let mut inputs = make_new_inputs("branch-created", ForestMode::Review);
    inputs.repo_branches = vec![("foo-web".to_string(), "sue/fix-dialog".to_string())];
    let result = env.cmd_new(inputs, &tmpl).unwrap();

    let forest_dir = result.forest_dir;
    let meta = env.read_meta(forest_dir.as_str());
    let plan = env.plan_rm(forest_dir.as_str(), &meta);

    assert!(plan.repo_plans[0].branch_created); // foo-api: new branch
    assert!(!plan.repo_plans[1].branch_created); // foo-web: existing branch
}

#[test]
fn plan_rm_detects_dirty_files() {
    let mut env = World::new();
    env.create_repo_with_remote("foo-api");
    env.create_repo_with_remote("foo-web");
    let tmpl = env.default_template(&["foo-api", "foo-web"]);

    let inputs = make_new_inputs("plan-dirty", ForestMode::Feature);
    env.cmd_new(inputs, &tmpl).unwrap();

    let forest_dir = base_join("plan-dirty");
    let meta = env.read_meta(&forest_dir);

    // Make foo-api dirty
    env.dirty.insert(format!("{}/foo-api", forest_dir));

    let plan = env.plan_rm(&forest_dir, &meta);
    assert!(plan.repo_plans[0].has_dirty_files);
    assert!(!plan.repo_plans[1].has_dirty_files);
}

#[test]
fn plan_rm_unreadable_status_is_not_dirty() {
    let meta = git_forest::testutil::make_meta(
        "f",
        Timestamp { secs: 0, nanos: 0 },
        ForestMode::Feature,
        vec![git_forest::testutil::make_repo("api", "b")],
    );
    let probe = |worktree_exists, status| {
        vec![RmProbe {
            worktree_exists,
            source_exists: true,
            status,
        }]
    };
    assert!(!plan_rm("/w/f", &meta, &probe(true, failed("x"))).repo_plans[0].has_dirty_files);
    assert!(!plan_rm("/w/f", &meta, &probe(true, ok(""))).repo_plans[0].has_dirty_files);
    assert!(plan_rm("/w/f", &meta, &probe(true, ok("M a"))).repo_plans[0].has_dirty_files);
    assert!(!plan_rm("/w/f", &meta, &probe(false, ok("M a"))).repo_plans[0].has_dirty_files);
}

// --- Removal: execution ---

#[test]
fn rm_removes_worktrees() {
    let mut env = World::new();
    env.create_repo_with_remote("foo-api");
    env.create_repo_with_remote("foo-web");
    let tmpl = env.default_template(&["foo-api", "foo-web"]);

    let inputs = make_new_inputs("rm-wt", ForestMode::Feature);
    let new_result = env.cmd_new(inputs, &tmpl).unwrap();
    let forest_dir = new_result.forest_dir.clone();

    assert!(env.present(forest_dir.join("foo-api").as_str()));
    assert!(env.present(forest_dir.join("foo-web").as_str()));

    let meta = env.read_meta(forest_dir.as_str());
    let rm_result = env.cmd_rm(forest_dir.as_str(), &meta, false, false);

    assert!(!env.present(forest_dir.join("foo-api").as_str()));
    assert!(!env.present(forest_dir.join("foo-web").as_str()));
    assert!(rm_result.errors.is_empty());
}

#[test]
fn rm_deletes_created_branches() {
    let mut env = World::new();
    env.create_repo_with_remote("foo-api");
    let tmpl = env.default_template(&["foo-api"]);

    let inputs = make_new_inputs("rm-branch", ForestMode::Feature);
    env.cmd_new(inputs, &tmpl).unwrap();

    let forest_dir = base_join("rm-branch");
    let meta = env.read_meta(&forest_dir);

    // Verify branch exists before rm
    let source = meta.repos[0].source.as_str().to_string();
    let branch = meta.repos[0].branch.clone();
    assert!(env.local.contains(&(source.clone(), branch.clone())));

    let rm_result = env.cmd_rm(&forest_dir, &meta, false, false);

    // Branch should be gone
    assert!(!env.local.contains(&(source, branch)));
    assert!(matches!(
        rm_result.repos[0].branch_deleted,
        RmOutcome::Success
    ));
}

#[test]
fn rm_skips_uncreated_branches() {
    let mut env = World::new();
    env.create_repo_with_remote("foo-api");
    env.create_repo_with_remote("foo-web");
    let tmpl = env.default_template(&["foo-api", "foo-web"]);

    // Create a local branch in foo-web so it's ExistingLocal (branch_created=false)
    let web_repo = env.repo_path("foo-web");
    env.local
        .insert((web_repo.clone(), "sue/fix-dialog".to_string()));

    let mut inputs = make_new_inputs("rm-skip-branch", ForestMode::Review);
    inputs.repo_branches = vec![("foo-web".to_string(), "sue/fix-dialog".to_string())];
    env.cmd_new(inputs, &tmpl).unwrap();

    let forest_dir = base_join("rm-skip-branch");
    let meta = env.read_meta(&forest_dir);

    let rm_result = env.cmd_rm(&forest_dir, &meta, false, false);

    // foo-api branch_created=true → Success
    assert!(matches!(
        rm_result.repos[0].branch_deleted,
        RmOutcome::Success
    ));
    // foo-web branch_created=false → Skipped
    assert!(matches!(
        rm_result.repos[1].branch_deleted,
        RmOutcome::Skipped { .. }
    ));
    // The branch should still exist
    assert!(env.local.contains(&(web_repo, "sue/fix-dialog".to_string())));
}

#[test]
fn rm_removes_forest_dir() {
    let mut env = World::new();
    env.create_repo_with_remote("foo-api");
    let tmpl = env.default_template(&["foo-api"]);

    let inputs = make_new_inputs("rm-dir", ForestMode::Feature);
    env.cmd_new(inputs, &tmpl).unwrap();

    let forest_dir = base_join("rm-dir");
    let meta = env.read_meta(&forest_dir);

    assert!(env.present(&forest_dir));
    let rm_result = env.cmd_rm(&forest_dir, &meta, false, false);

    assert!(!env.present(&forest_dir));
    assert!(rm_result.forest_dir_removed);
}

#[test]
fn rm_removes_meta_file() {
    let mut env = World::new();
    env.create_repo_with_remote("foo-api");
    let tmpl = env.default_template(&["foo-api"]);

    let inputs = make_new_inputs("rm-meta", ForestMode::Feature);
    env.cmd_new(inputs, &tmpl).unwrap();

    let forest_dir = base_join("rm-meta");
    let meta_path = format!("{}/{}", forest_dir, META_FILENAME);
    assert!(env.present(&meta_path));

    let meta = env.read_meta(&forest_dir);
    env.cmd_rm(&forest_dir, &meta, false, false);

    assert!(!env.present(&meta_path));
}

#[test]
fn rm_dirty_repo_blocks_all_removal() {
    let mut env = World::new();
    env.create_repo_with_remote("foo-api");
    env.create_repo_with_remote("foo-web");
    let tmpl = env.default_template(&["foo-api", "foo-web"]);

    let inputs = make_new_inputs("rm-dirty-block", ForestMode::Feature);
    env.cmd_new(inputs, &tmpl).unwrap();

    let forest_dir = base_join("rm-dirty-block");
    let meta = env.read_meta(&forest_dir);

    // Make foo-api dirty so preflight blocks removal
    env.dirty.insert(format!("{}/foo-api", forest_dir));
    env.log.clear();

    let rm_result = env.cmd_rm(&forest_dir, &meta, false, false);

    // foo-api should fail (dirty)
    assert!(matches!(
        rm_result.repos[0].worktree_removed,
        RmOutcome::Failed { .. }
    ));
    // foo-web should be skipped (blocked by dirty repos), not attempted
    assert!(matches!(
        rm_result.repos[1].worktree_removed,
        RmOutcome::Skipped { .. }
    ));
    assert!(!rm_result.errors.is_empty());
    assert_eq!(
        rm_result.errors,
        vec![
            "foo-api: worktree has uncommitted changes",
            "hint: commit or stash changes, then retry — or use `git forest rm --force`",
        ]
    );
    // Meta file should still exist — forest remains discoverable
    assert!(env.present(&format!("{}/{}", forest_dir, META_FILENAME)));
    // Forest directory should still exist
    assert!(env.present(&forest_dir));
    // Both worktrees should still exist (nothing was touched)
    assert!(env.present(&format!("{}/foo-api", forest_dir)));
    assert!(env.present(&format!("{}/foo-web", forest_dir)));
    assert!(!rm_result.forest_dir_removed);
    assert!(env.log.is_empty(), "nothing was asked for: {:?}", env.log);
}

#[test]
fn rm_force_removes_dirty_worktree() {
    let mut env = World::new();
    env.create_repo_with_remote("foo-api");
    let tmpl = env.default_template(&["foo-api"]);

    let inputs = make_new_inputs("rm-force-dirty", ForestMode::Feature);
    env.cmd_new(inputs, &tmpl).unwrap();

    let forest_dir = base_join("rm-force-dirty");
    let meta = env.read_meta(&forest_dir);

    // Make it dirty
    env.dirty.insert(format!("{}/foo-api", forest_dir));

    let rm_result = env.cmd_rm(&forest_dir, &meta, true, false);

    assert!(matches!(
        rm_result.repos[0].worktree_removed,
        RmOutcome::Success
    ));
    assert!(!env.present(&format!("{}/foo-api", forest_dir)));
}

#[test]
fn rm_force_deletes_unmerged_branch() {
    let mut env = World::new();
    env.create_repo_with_remote("foo-api");
    let tmpl = env.default_template(&["foo-api"]);

    let inputs = make_new_inputs("rm-force-unmerged", ForestMode::Feature);
    env.cmd_new(inputs, &tmpl).unwrap();

    let forest_dir = base_join("rm-force-unmerged");
    let meta = env.read_meta(&forest_dir);

    // Add a commit to the worktree branch to make it unmerged
    let source = meta.repos[0].source.as_str().to_string();
    let branch = meta.repos[0].branch.clone();
    env.commit(&source, &branch);

    let rm_result = env.cmd_rm(&forest_dir, &meta, true, false);

    // With --force, branch should be deleted even if unmerged
    assert!(matches!(
        rm_result.repos[0].branch_deleted,
        RmOutcome::Success
    ));
    assert!(!env.local.contains(&(source, branch)));
}

#[test]
fn rm_missing_worktree_skips_gracefully() {
    let mut env = World::new();
    env.create_repo_with_remote("foo-api");
    let tmpl = env.default_template(&["foo-api"]);

    let inputs = make_new_inputs("rm-missing-wt", ForestMode::Feature);
    env.cmd_new(inputs, &tmpl).unwrap();

    let forest_dir = base_join("rm-missing-wt");
    let meta = env.read_meta(&forest_dir);

    // Prune the worktree from git's perspective and delete the directory
    let source = meta.repos[0].source.as_str().to_string();
    env.remove_dir_all(&format!("{}/foo-api", forest_dir));
    env.git(&source, &["worktree".to_string(), "prune".to_string()]);

    let rm_result = env.cmd_rm(&forest_dir, &meta, false, false);

    assert!(matches!(
        rm_result.repos[0].worktree_removed,
        RmOutcome::Skipped { .. }
    ));
    // Branch should still be deleted since worktree was "successfully" handled
    assert!(matches!(
        rm_result.repos[0].branch_deleted,
        RmOutcome::Success
    ));
    assert!(rm_result.errors.is_empty());
}

#[test]
fn rm_source_repo_missing_handles_gracefully() {
    let mut env = World::new();
    env.create_repo_with_remote("foo-api");
    let tmpl = env.default_template(&["foo-api"]);

    let inputs = make_new_inputs("rm-src-missing", ForestMode::Feature);
    env.cmd_new(inputs, &tmpl).unwrap();

    let forest_dir = base_join("rm-src-missing");
    let mut meta = env.read_meta(&forest_dir);

    // Point source to a nonexistent path
    meta.repos[0].source = AbsolutePath::new("/nonexistent/repo".to_string()).unwrap();

    let rm_result = env.cmd_rm(&forest_dir, &meta, false, false);

    // Worktree should still be removed (via direct removal since source is missing)
    assert!(matches!(
        rm_result.repos[0].worktree_removed,
        RmOutcome::Success
    ));
    // Branch should be skipped since source is missing
    assert!(matches!(
        rm_result.repos[0].branch_deleted,
        RmOutcome::Skipped { .. }
    ));
}

#[test]
fn cmd_rm_dry_run_no_changes() {
    let mut env = World::new();
    env.create_repo_with_remote("foo-api");
    let tmpl = env.default_template(&["foo-api"]);

    let inputs = make_new_inputs("rm-dry", ForestMode::Feature);
    env.cmd_new(inputs, &tmpl).unwrap();

    let forest_dir = base_join("rm-dry");
    let meta = env.read_meta(&forest_dir);
    env.log.clear();

    let rm_result = env.cmd_rm(&forest_dir, &meta, false, true);

    assert!(rm_result.dry_run);
    assert!(rm_result.forest_dir_removed);
    assert!(matches!(rm_result.repos[0].worktree_removed, RmOutcome::Success));
    assert!(matches!(rm_result.repos[0].branch_deleted, RmOutcome::Success));
    // Everything should still exist
    assert!(env.present(&forest_dir));
    assert!(env.present(&format!("{}/foo-api", forest_dir)));
    assert!(env.present(&format!("{}/{}", forest_dir, META_FILENAME)));
    assert!(env.log.is_empty());
}

#[test]
fn cmd_rm_returns_result() {
    let mut env = World::new();
    env.create_repo_with_remote("foo-api");
    let tmpl = env.default_template(&["foo-api"]);

    let inputs = make_new_inputs("rm-result", ForestMode::Feature);
    env.cmd_new(inputs, &tmpl).unwrap();

    let forest_dir = base_join("rm-result");
    let meta = env.read_meta(&forest_dir);

    let rm_result = env.cmd_rm(&forest_dir, &meta, false, false);

    assert_eq!(rm_result.forest_name.as_str(), "rm-result");
    assert!(!rm_result.dry_run);
    assert!(!rm_result.force);
    assert!(rm_result.forest_dir_removed);
    assert!(rm_result.errors.is_empty());
    assert_eq!(rm_result.repos.len(), 1);
}

// --- Round trip ---

#[test]
fn new_then_rm_then_ls_empty() {
    let mut env = World::new();
    env.create_repo_with_remote("foo-api");
    let tmpl = env.default_template(&["foo-api"]);

    // Create
    let inputs = make_new_inputs("roundtrip", ForestMode::Feature);
    env.cmd_new(inputs, &tmpl).unwrap();

    let ls1 = env.ls();
    assert_eq!(ls1.len(), 1);
    assert_eq!(ls1, vec!["roundtrip"]);

    // Remove
    let forest_dir = base_join("roundtrip");
    let meta = env.read_meta(&forest_dir);
    let rm_result = env.cmd_rm(&forest_dir, &meta, false, false);
    assert!(rm_result.errors.is_empty());

    // ls should show empty
    let ls2 = env.ls();
    assert_eq!(ls2.len(), 0);
    assert!(!env.present(&forest_dir));
}

// --- Branch deletion fallbacks ---

#[test]
fn rm_fully_pushed_branch_succeeds_via_upstream_check() {
    let mut env = World::new();
    env.create_repo_with_remote("foo-api");
    let tmpl = env.default_template(&["foo-api"]);

    let inputs = make_new_inputs("rm-pushed", ForestMode::Feature);
    env.cmd_new(inputs, &tmpl).unwrap();

    let forest_dir = base_join("rm-pushed");
    let meta = env.read_meta(&forest_dir);
    let source = meta.repos[0].source.as_str().to_string();
    let branch = meta.repos[0].branch.clone();

    // Add a commit to the feature branch and push it
    env.commit(&source, &branch);
    env.push(&source, &branch, true);

    // `git branch -d` will fail because the commit isn't merged into HEAD.
    // But the upstream check should detect no unpushed commits, making deletion safe.
    let rm_result = env.cmd_rm(&forest_dir, &meta, false, false);

    assert!(
        matches!(rm_result.repos[0].branch_deleted, RmOutcome::Success),
        "expected Success, got: {:?}",
        rm_result.repos[0].branch_deleted
    );
    assert!(!env.local.contains(&(source, branch)));
    assert!(rm_result.errors.is_empty());
    let asked: Vec<&str> = env
        .log
        .iter()
        .map(|l| l.split(' ').nth(3).unwrap_or(""))
        .collect();
    assert_eq!(
        &asked[asked.len() - 6..],
        &["worktree", "branch", "merge-base", "for-each-ref", "rev-list", "branch"]
    );
}

#[test]
fn rm_merged_into_base_succeeds_via_ancestor_check() {
    let mut env = World::new();
    env.create_repo_with_remote("foo-api");
    let tmpl = env.default_template(&["foo-api"]);

    let inputs = make_new_inputs("rm-ancestor", ForestMode::Feature);
    env.cmd_new(inputs, &tmpl).unwrap();

    let forest_dir = base_join("rm-ancestor");
    let meta = env.read_meta(&forest_dir);
    let source = meta.repos[0].source.as_str().to_string();
    let branch = meta.repos[0].branch.clone();

    // Add a commit on the feature branch
    env.commit(&source, &branch);

    // Merge the feature branch into main in the source repo: the branch is
    // now an ancestor of main.
    env.ancestor.insert((source.clone(), branch.clone()));

    let rm_result = env.cmd_rm(&forest_dir, &meta, false, false);

    assert!(
        matches!(rm_result.repos[0].branch_deleted, RmOutcome::Success),
        "expected Success via ancestor check, got: {:?}",
        rm_result.repos[0].branch_deleted
    );
    assert!(!env.local.contains(&(source, branch)));
    assert!(rm_result.errors.is_empty());
}

#[test]
fn rm_unpushed_commits_fails_without_force() {
    let mut env = World::new();
    env.create_repo_with_remote("foo-api");
    let tmpl = env.default_template(&["foo-api"]);

    let inputs = make_new_inputs("rm-unpushed", ForestMode::Feature);
    env.cmd_new(inputs, &tmpl).unwrap();

    let forest_dir = base_join("rm-unpushed");
    let meta = env.read_meta(&forest_dir);
    let source = meta.repos[0].source.as_str().to_string();
    let branch = meta.repos[0].branch.clone();

    // Add a commit but don't push — no upstream, no merge into base
    env.commit(&source, &branch);

    let rm_result = env.cmd_rm(&forest_dir, &meta, false, false);

    assert!(
        matches!(rm_result.repos[0].branch_deleted, RmOutcome::Failed { .. }),
        "expected Failed, got: {:?}",
        rm_result.repos[0].branch_deleted
    );
    // Branch should still exist
    assert!(env.local.contains(&(source, branch)));
    // Error message should hint about squash-merge and include the error that git gave
    assert!(rm_result.errors[0].contains("squash-merge"));
    assert!(rm_result.errors[0].contains("not fully merged"));
    assert_eq!(
        rm_result.errors[0],
        "foo-api: branch \"testuser/rm-unpushed\" is not fully merged (error: the branch is not fully merged)\n  hint: if the branch was merged (e.g. squash-merge) and the remote branch was deleted, use `git forest rm --force`"
    );
    // The worktree is gone, the forest stays discoverable.
    assert!(!rm_result.forest_dir_removed);
    assert!(env.present(&format!("{}/{}", forest_dir, META_FILENAME)));
}

#[test]
fn rm_no_remote_tracking_fails_without_force() {
    let mut env = World::new();
    env.create_repo_with_remote("foo-api");
    let tmpl = env.default_template(&["foo-api"]);

    let inputs = make_new_inputs("rm-no-remote", ForestMode::Feature);
    env.cmd_new(inputs, &tmpl).unwrap();

    let forest_dir = base_join("rm-no-remote");
    let meta = env.read_meta(&forest_dir);
    let source = meta.repos[0].source.as_str().to_string();
    let branch = meta.repos[0].branch.clone();

    // Add a commit but only push without -u (no upstream tracking)
    env.commit(&source, &branch);
    env.push(&source, &branch, false);
    // Add another local commit that isn't pushed
    env.commit(&source, &branch);

    let rm_result = env.cmd_rm(&forest_dir, &meta, false, false);

    assert!(
        matches!(rm_result.repos[0].branch_deleted, RmOutcome::Failed { .. }),
        "expected Failed, got: {:?}",
        rm_result.repos[0].branch_deleted
    );
    assert!(env.local.contains(&(source, branch)));
}

#[test]
fn rm_upstream_with_unpushed_commits_fails_without_force() {
    let mut env = World::new();
    env.create_repo_with_remote("foo-api");
    let tmpl = env.default_template(&["foo-api"]);
    env.cmd_new(make_new_inputs("rm-ahead", ForestMode::Feature), &tmpl)
        .unwrap();
    let forest_dir = base_join("rm-ahead");
    let meta = env.read_meta(&forest_dir);
    let source = meta.repos[0].source.as_str().to_string();
    let branch = meta.repos[0].branch.clone();
    env.commit(&source, &branch);
    env.push(&source, &branch, true);
    env.commit(&source, &branch);

    let rm_result = env.cmd_rm(&forest_dir, &meta, false, false);
    assert!(matches!(
        rm_result.repos[0].branch_deleted,
        RmOutcome::Failed { .. }
    ));
    assert!(env.local.contains(&(source, branch)));
    assert!(!env.log.iter().any(|l| l.contains("branch -D")));
}

#[test]
fn rm_force_still_deletes_unmerged_branch_directly() {
    let mut env = World::new();
    env.create_repo_with_remote("foo-api");
    let tmpl = env.default_template(&["foo-api"]);

    let inputs = make_new_inputs("rm-force-direct", ForestMode::Feature);
    env.cmd_new(inputs, &tmpl).unwrap();

    let forest_dir = base_join("rm-force-direct");
    let meta = env.read_meta(&forest_dir);
    let source = meta.repos[0].source.as_str().to_string();
    let branch = meta.repos[0].branch.clone();

    // Add an unpushed commit — would fail without --force
    env.commit(&source, &branch);

    let rm_result = env.cmd_rm(&forest_dir, &meta, true, false);

    assert!(
        matches!(rm_result.repos[0].branch_deleted, RmOutcome::Success),
        "expected Success with --force, got: {:?}",
        rm_result.repos[0].branch_deleted
    );
    assert!(!env.local.contains(&(source, branch)));
    assert!(!env.log.iter().any(|l| l.contains("branch -d ")));
}

#[test]
fn rm_force_bypasses_dirty_check() {
    let mut env = World::new();
    env.create_repo_with_remote("foo-api");
    env.create_repo_with_remote("foo-web");
    let tmpl = env.default_template(&["foo-api", "foo-web"]);

    let inputs = make_new_inputs("rm-force-dirty2", ForestMode::Feature);
    env.cmd_new(inputs, &tmpl).unwrap();

    let forest_dir = base_join("rm-force-dirty2");
    let meta = env.read_meta(&forest_dir);

    // Make foo-api dirty
    env.dirty.insert(format!("{}/foo-api", forest_dir));

    let rm_result = env.cmd_rm(&forest_dir, &meta, true, false);

    // --force bypasses dirty check, everything removed
    assert!(matches!(
        rm_result.repos[0].worktree_removed,
        RmOutcome::Success
    ));
    assert!(matches!(
        rm_result.repos[1].worktree_removed,
        RmOutcome::Success
    ));
    assert!(rm_result.forest_dir_removed);
    assert!(!env.present(&forest_dir));
}

#[test]
fn rm_retry_after_cleaning_dirty_repo() {
    let mut env = World::new();
    env.create_repo_with_remote("foo-api");
    let tmpl = env.default_template(&["foo-api"]);

    let inputs = make_new_inputs("rm-retry", ForestMode::Feature);
    env.cmd_new(inputs, &tmpl).unwrap();

    let forest_dir = base_join("rm-retry");
    let meta = env.read_meta(&forest_dir);

    // Make dirty
    env.dirty.insert(format!("{}/foo-api", forest_dir));

    // First attempt fails
    let rm1 = env.cmd_rm(&forest_dir, &meta, false, false);
    assert!(!rm1.errors.is_empty());
    assert!(env.present(&forest_dir));
    assert!(env.present(&format!("{}/{}", forest_dir, META_FILENAME)));

    // Clean the dirty state
    env.dirty.clear();

    // Re-read meta (still there) and retry — re-plan to pick up clean state
    let meta2 = env.read_meta(&forest_dir);
    let rm2 = env.cmd_rm(&forest_dir, &meta2, false, false);
    assert!(rm2.errors.is_empty());
    assert!(rm2.forest_dir_removed);
    assert!(!env.present(&forest_dir));
}

#[test]
fn dry_run_shows_dirty_rejection() {
    let mut env = World::new();
    env.create_repo_with_remote("foo-api");
    env.create_repo_with_remote("foo-web");
    let tmpl = env.default_template(&["foo-api", "foo-web"]);

    let inputs = make_new_inputs("dry-dirty", ForestMode::Feature);
    env.cmd_new(inputs, &tmpl).unwrap();

    let forest_dir = base_join("dry-dirty");
    let meta = env.read_meta(&forest_dir);

    // Make foo-api dirty
    env.dirty.insert(format!("{}/foo-api", forest_dir));

    let rm_result = env.cmd_rm(&forest_dir, &meta, false, true);

    assert!(rm_result.dry_run);
    // Dirty repo should show as failed
    assert!(matches!(
        rm_result.repos[0].worktree_removed,
        RmOutcome::Failed { .. }
    ));
    // Clean repo should show as skipped (blocked)
    assert!(matches!(
        rm_result.repos[1].worktree_removed,
        RmOutcome::Skipped { .. }
    ));
    assert!(!rm_result.forest_dir_removed);
    assert!(!rm_result.errors.is_empty());
    // Nothing should have been touched
    assert!(env.present(&forest_dir));
    assert!(env.present(&format!("{}/foo-api", forest_dir)));
    assert!(env.present(&format!("{}/foo-web", forest_dir)));
}

#[test]
fn rm_plan_outside_the_forest_is_not_contained() {
    let plan = RmPlan {
        forest_name: ForestName::new("test".to_string()).unwrap(),
        forest_dir: "/tmp/forests/test".to_string(),
        repo_plans: vec![RepoRmPlan {
            name: RepoName::new("evil".to_string()).unwrap(),
            worktree_path: "/home/user/real-work".to_string(),
            source: AbsolutePath::new("/tmp/src".to_string()).unwrap(),
            branch: "main".to_string(),
            base_branch: "main".to_string(),
            branch_created: false,
            worktree_exists: false,
            source_exists: false,
            has_dirty_files: false,
        }],
    };
    assert!(!plan.is_contained());
}

#[test]
fn rm_failure_in_one_repository_does_not_stop_the_others() {
    let mut env = World::new();
    env.create_repo_with_remote("foo-api");
    env.create_repo_with_remote("foo-web");
    let tmpl = env.default_template(&["foo-api", "foo-web"]);
    env.cmd_new(make_new_inputs("partial", ForestMode::Feature), &tmpl)
        .unwrap();
    let forest_dir = base_join("partial");
    let meta = env.read_meta(&forest_dir);
    // The first worktree is no longer registered: git refuses to remove it.
    env.worktrees.retain(|(_, d, _)| !d.ends_with("foo-api"));

    let result = env.cmd_rm(&forest_dir, &meta, false, false);
    assert!(matches!(
        result.repos[0].worktree_removed,
        RmOutcome::Failed { .. }
    ));
    assert!(matches!(
        &result.repos[0].branch_deleted,
        RmOutcome::Skipped { reason } if reason == "worktree still exists, cannot delete branch"
    ));
    assert!(matches!(
        result.repos[1].worktree_removed,
        RmOutcome::Success
    ));
    assert!(matches!(result.repos[1].branch_deleted, RmOutcome::Success));
    assert_eq!(
        result.errors,
        vec!["foo-api: git worktree remove failed: fatal: not a working tree"]
    );
    assert!(!result.forest_dir_removed);
    assert!(env.present(&format!("{}/{}", forest_dir, META_FILENAME)));
    assert!(!env.present(&format!("{}/foo-web", forest_dir)));
}

#[test]
fn rm_of_empty_plan_removes_the_directory() {
    let mut env = World::new();
    env.dirs.insert("/env/worktrees/empty".to_string());
    let plan = RmPlan {
        forest_name: ForestName::new("empty".to_string()).unwrap(),
        forest_dir: "/env/worktrees/empty".to_string(),
        repo_plans: vec![],
    };
    let result = env.drive_rm(execute_rm(plan, false));
    assert!(result.forest_dir_removed);
    assert!(result.repos.is_empty());
    assert!(!env.present("/env/worktrees/empty"));
}

#[test]
fn rm_leaves_a_directory_that_is_not_empty() {
    let mut env = World::new();
    env.create_repo_with_remote("foo-api");
    let tmpl = env.default_template(&["foo-api"]);
    env.cmd_new(make_new_inputs("stuff", ForestMode::Feature), &tmpl)
        .unwrap();
    let forest_dir = base_join("stuff");
    let meta = env.read_meta(&forest_dir);
    env.dirs.insert(format!("{}/notes", forest_dir));

    let result = env.cmd_rm(&forest_dir, &meta, false, false);
    assert!(!result.forest_dir_removed);
    assert_eq!(
        result.errors,
        vec![
            "forest directory not removed (not empty): Directory not empty\n  hint: resolve errors above, then rm the directory manually or re-run with --force"
        ]
    );
    assert!(env.present(&forest_dir));

    // With force the directory goes with all below it.
    env.cmd_new(make_new_inputs("stuff2", ForestMode::Feature), &tmpl)
        .unwrap();
    let forest_dir = base_join("stuff2");
    let meta = env.read_meta(&forest_dir);
    env.dirs.insert(format!("{}/notes", forest_dir));
    let result = env.cmd_rm(&forest_dir, &meta, true, false);
    assert!(result.forest_dir_removed);
    assert!(!env.present(&forest_dir));
}

// --- Reset ---

#[test]
fn reset_nothing_to_do() {
    let mut env = World::new();
    let result = env.cmd_reset(true, false, false, Some(&[BASE]));
    assert!(result.is_err());
    let err = result.unwrap_err();
    assert_eq!(err, ResetError::NothingToReset);
    assert!(err.message().contains("nothing to reset"));
}

#[test]
fn reset_deletes_config_and_state() {
    let mut env = World::new();
    env.files.insert(CONFIG.to_string());
    env.files.insert(STATE.to_string());

    let result = env
        .cmd_reset(true, true, false, Some(&["/tmp/nonexistent-worktrees"]))
        .unwrap();
    assert!(!result.dry_run);
    assert!(result.config_file.deleted);
    assert!(result.state_file.deleted);
    assert!(!env.present(CONFIG));
    assert!(!env.present(STATE));
    assert_eq!(env.log, vec![format!("rm {}", CONFIG), format!("rm {}", STATE)]);
}

#[test]
fn reset_confirm_required_without_flags() {
    let mut env = World::new();
    env.files.insert(CONFIG.to_string());

    let result = env
        .cmd_reset(false, false, false, Some(&["/tmp/nonexistent-worktrees"]))
        .unwrap();
    assert!(result.confirm_required);
    assert!(!result.dry_run);
    assert!(result.config_file.deleted);
    assert!(!result.state_file.deleted);
    assert!(env.present(CONFIG));
    assert!(env.log.is_empty());
}

#[test]
fn reset_dry_run_no_changes() {
    let mut env = World::new();
    env.files.insert(CONFIG.to_string());

    let result = env
        .cmd_reset(false, false, true, Some(&["/tmp/nonexistent-worktrees"]))
        .unwrap();
    assert!(result.dry_run);
    assert!(!result.confirm_required);
    assert!(env.present(CONFIG));
    // A dry run wins over a confirmation.
    let result = env
        .cmd_reset(true, false, true, Some(&["/tmp/nonexistent-worktrees"]))
        .unwrap();
    assert!(result.dry_run);
    assert!(env.present(CONFIG));
    assert!(env.log.is_empty());
}

fn empty_forest(env: &mut World, name: &str) -> String {
    let forest_dir = base_join(name);
    env.dirs.insert(forest_dir.clone());
    env.metas.insert(
        format!("{}/{}", forest_dir, META_FILENAME),
        git_forest::testutil::make_meta(
            name,
            Timestamp { secs: 0, nanos: 0 },
            ForestMode::Feature,
            vec![],
        ),
    );
    forest_dir
}

#[test]
fn reset_removes_forests() {
    let mut env = World::new();
    env.files.insert(CONFIG.to_string());
    let forest_dir = empty_forest(&mut env, "my-feature");

    let result = env.cmd_reset(true, false, false, Some(&[BASE])).unwrap();
    assert!(!result.dry_run);
    assert_eq!(result.forests.len(), 1);
    assert!(result.forests[0].removed);
    assert_eq!(result.forests[0].name, "my-feature");
    assert_eq!(result.forests[0].path, forest_dir);
    assert!(!env.present(&forest_dir));
    assert!(result.errors.is_empty());
    // The forest goes before the configuration that describes it.
    assert_eq!(
        env.log,
        vec![format!("rm -r {}", forest_dir), format!("rm {}", CONFIG)]
    );
}

#[test]
fn reset_config_only_leaves_forests() {
    let mut env = World::new();
    env.files.insert(CONFIG.to_string());
    let forest_dir = empty_forest(&mut env, "my-feature");

    let result = env.cmd_reset(true, true, false, Some(&[BASE])).unwrap();
    assert!(result.config_only);
    assert!(result.forests.is_empty());
    assert!(result.config_file.deleted);
    assert!(env.present(&forest_dir));
}

#[test]
fn reset_unparseable_config_warns() {
    let mut env = World::new();
    env.files.insert(CONFIG.to_string());

    let result = env.cmd_reset(true, false, false, None).unwrap();
    assert!(!result.warnings.is_empty());
    assert!(result.warnings[0].contains("could not be parsed"));
    assert_eq!(
        result.warnings,
        vec![
            "config exists but could not be parsed: expected a table key\n  worktree directories may need manual cleanup"
        ]
    );
    assert!(result.config_file.deleted);
    assert!(!env.present(CONFIG));
}

#[test]
fn reset_reports_what_it_could_not_delete() {
    let mut env = World::new();
    env.files.insert(CONFIG.to_string());
    env.files.insert(STATE.to_string());
    let facts = ResetFacts {
        config_path: CONFIG.to_string(),
        config_exists: true,
        state_path: STATE.to_string(),
        state_exists: true,
        config: ConfigLoad::Failed {
            error: "e".to_string(),
        },
    };
    let mut step = cmd_reset(true, true, false, &facts, &vec![]).unwrap();
    let result = loop {
        match step {
            ResetStep::Finished { result } => break result,
            ResetStep::Perform { run, .. } => step = run.resume(failed("Permission denied")),
        }
    };
    assert!(!result.config_file.deleted);
    assert!(!result.state_file.deleted);
    assert!(result.config_file.existed);
    assert_eq!(
        result.errors,
        vec![
            format!("failed to delete {}: Permission denied", CONFIG),
            format!("failed to delete {}: Permission denied", STATE),
        ]
    );
    // With `config_only` the configuration is not read: there is no warning.
    assert!(result.warnings.is_empty());
}

#[test]
fn reset_scan_failure_warns() {
    let facts = ResetFacts {
        config_path: CONFIG.to_string(),
        config_exists: true,
        state_path: STATE.to_string(),
        state_exists: false,
        config: ConfigLoad::Loaded {
            scans: vec![BaseScan {
                base: "/w".to_string(),
                scan: Scan::Failed {
                    error: "Permission denied".to_string(),
                },
            }],
        },
    };
    let plan = plan_reset(false, &facts).unwrap();
    assert!(plan.forests.is_empty());
    assert_eq!(
        plan.warnings,
        vec!["could not scan worktree base /w: Permission denied"]
    );
}

/// After reset, git worktree registrations are cleaned up so that creating
/// a new forest with the same repo reuses the branch name cleanly.
#[test]
fn reset_cleans_up_git_worktree_registrations() {
    let mut env = World::new();
    env.create_repo_with_remote("repo-a");
    let tmpl = env.default_template(&["repo-a"]);

    // 1. Create a forest (registers worktrees in repo-a)
    let result = env
        .cmd_new(make_new_inputs("wt-cleanup-test", ForestMode::Feature), &tmpl)
        .unwrap();
    assert!(!result.dry_run);
    assert!(
        env.worktrees.iter().any(|(_, d, _)| d.contains("wt-cleanup-test")),
        "worktree should be registered after new"
    );

    // 2. There is a config so reset can find the forest
    env.files.insert(CONFIG.to_string());

    // 3. Reset — should delete forest directory AND clean up worktree registrations
    let reset_result = env.cmd_reset(true, false, false, Some(&[BASE])).unwrap();
    assert_eq!(reset_result.forests.len(), 1);
    assert!(reset_result.forests[0].removed);

    // 4. Git no longer has a stale worktree registration
    assert!(
        !env.worktrees.iter().any(|(_, d, _)| d.contains("wt-cleanup-test")),
        "stale worktree registration should be cleaned up after reset"
    );
}

/// After reset, re-creating a forest with the same name succeeds.
#[test]
fn reset_then_recreate_forest_succeeds() {
    let mut env = World::new();
    env.create_repo_with_remote("repo-b");
    let tmpl = env.default_template(&["repo-b"]);

    // 1. Create a forest
    env.cmd_new(make_new_inputs("recreate-test", ForestMode::Feature), &tmpl)
        .unwrap();

    // 2. Reset
    env.files.insert(CONFIG.to_string());
    let reset_result = env.cmd_reset(true, false, false, Some(&[BASE])).unwrap();
    assert!(reset_result.forests[0].removed);
    assert!(reset_result.errors.is_empty());

    // 3. The same forest again
    let result2 = env.cmd_new(make_new_inputs("recreate-test", ForestMode::Feature), &tmpl);
    assert!(
        result2.is_ok(),
        "re-creating forest after reset should succeed, but got: {:?}",
        result2.err()
    );
}

#[test]
fn reset_unregisters_best_effort() {
    let mut env = World::new();
    env.create_repo_with_remote("repo-a");
    let tmpl = env.default_template(&["repo-a"]);
    env.cmd_new(make_new_inputs("gone", ForestMode::Feature), &tmpl)
        .unwrap();
    env.files.insert(CONFIG.to_string());
    // The registration is already gone: unregistering fails, the forest's
    // directory is removed all the same.
    env.worktrees.clear();
    let result = env.cmd_reset(true, false, false, Some(&[BASE])).unwrap();
    assert!(result.forests[0].removed);
    assert_eq!(
        result.errors,
        vec![
            "warning: git worktree remove failed for /env/worktrees/gone/repo-a: fatal: not a working tree"
        ]
    );
    assert!(!env.present("/env/worktrees/gone"));
    assert!(result.config_file.deleted);
}

// --- Dry runs decide as runs do ---

fn one_repo_plan(source_exists: bool, branch_created: bool, worktree_exists: bool) -> RmPlan {
    RmPlan {
        forest_name: ForestName::new("test".to_string()).unwrap(),
        forest_dir: "/tmp/forests/test".to_string(),
        repo_plans: vec![RepoRmPlan {
            name: RepoName::new("a".to_string()).unwrap(),
            worktree_path: "/tmp/forests/test/a".to_string(),
            source: AbsolutePath::new("/tmp/src/a".to_string()).unwrap(),
            branch: "x".to_string(),
            base_branch: "main".to_string(),
            branch_created,
            worktree_exists,
            source_exists,
            has_dirty_files: false,
        }],
    }
}

#[test]
fn dry_run_skips_branch_when_source_is_gone() {
    let r = plan_to_dry_run_result(&one_repo_plan(false, true, true), false);
    assert!(r.dry_run);
    assert!(matches!(r.repos[0].worktree_removed, RmOutcome::Success));
    assert!(matches!(
        &r.repos[0].branch_deleted,
        RmOutcome::Skipped { reason } if reason == "source repo missing"
    ));
    assert!(r.errors.is_empty());
    assert!(r.forest_dir_removed);
}

#[test]
fn dry_run_reports_what_a_run_without_failures_reports() {
    for source_exists in [false, true] {
        for branch_created in [false, true] {
            for worktree_exists in [false, true] {
                for force in [false, true] {
                    let dry = plan_to_dry_run_result(
                        &one_repo_plan(source_exists, branch_created, worktree_exists),
                        force,
                    );
                    // A run in which every action succeeds.
                    let mut step =
                        execute_rm(one_repo_plan(source_exists, branch_created, worktree_exists), force);
                    let real = loop {
                        match step {
                            RmStep::Finished { result } => break result,
                            RmStep::Perform { run, .. } => step = run.resume(ok("")),
                        }
                    };
                    assert_eq!(
                        format!("{:?}", dry.repos[0].worktree_removed),
                        format!("{:?}", real.repos[0].worktree_removed)
                    );
                    assert_eq!(
                        format!("{:?}", dry.repos[0].branch_deleted),
                        format!("{:?}", real.repos[0].branch_deleted)
                    );
                    assert_eq!(dry.forest_dir_removed, real.forest_dir_removed);
                    assert_eq!(dry.errors, real.errors);
                    assert!(dry.dry_run && !real.dry_run);
                }
            }
        }
    }
}

#[test]
fn refused_removal_does_not_look_at_paths() {
    let mut plan = one_repo_plan(true, true, true);
    plan.repo_plans[0].worktree_path = "/home/user/real-work".to_string();
    plan.repo_plans[0].has_dirty_files = true;
    assert!(!plan.is_contained());
    assert!(plan.any_dirty());
    match execute_rm(plan, false) {
        RmStep::Finished { result } => {
            assert!(!result.forest_dir_removed);
            assert!(matches!(
                result.repos[0].worktree_removed,
                RmOutcome::Failed { .. }
            ));
        }
        RmStep::Perform { .. } => panic!("a refused removal asks for nothing"),
    }
}

// --- Fetching ---

#[test]
fn fetch_commands_fetch_each_source_that_is_there() {
    let mut env = World::new();
    env.create_repo_with_remote("foo-api");
    env.create_repo_with_remote("foo-web");
    let mut tmpl = env.default_template(&["foo-api", "foo-web"]);
    tmpl.repos[1].remote = "upstream".to_string();
    let mut inputs = make_new_inputs("f", ForestMode::Feature);
    inputs.no_fetch = false;

    let fetches = fetch_commands(&inputs, &tmpl, &vec![true, true]);
    assert_eq!(fetches.len(), 2);
    assert_eq!(fetches[0].repo.as_str(), "/env/src/foo-api");
    assert_eq!(fetches[0].args, vec!["fetch", "origin"]);
    assert_eq!(fetches[1].args, vec!["fetch", "upstream"]);

    let fetches = fetch_commands(&inputs, &tmpl, &vec![false, true]);
    assert_eq!(fetches.len(), 1);
    assert_eq!(fetches[0].repo.as_str(), "/env/src/foo-web");

    inputs.no_fetch = true;
    assert!(fetch_commands(&inputs, &tmpl, &vec![true, true]).is_empty());
}

#[test]
fn dry_run_fetches_nothing() {
    let mut env = World::new();
    env.create_repo_with_remote("foo-api");
    let tmpl = env.default_template(&["foo-api"]);
    let mut inputs = make_new_inputs("f", ForestMode::Feature);
    inputs.no_fetch = false;
    inputs.dry_run = true;
    assert!(fetch_commands(&inputs, &tmpl, &vec![true]).is_empty());
}

// --- A rollback stays inside the forest's directory ---

fn plan_reaching_outside(env: &mut World) -> ForestPlan {
    env.create_repo_with_remote("foo-api");
    env.create_repo_with_remote("foo-web");
    let mut tmpl = env.default_template(&["foo-api", "foo-web"]);
    tmpl.repos[1].name = RepoName::new("/elsewhere/web".to_string()).unwrap();
    let plan = env
        .plan(&make_new_inputs("out", ForestMode::Feature), &tmpl)
        .unwrap();
    assert!(!plan.is_contained());
    plan
}

#[test]
fn creation_that_meets_no_failure_asks_nothing_of_the_paths() {
    let mut env = World::new();
    let plan = plan_reaching_outside(&mut env);
    let mut progress = execute_plan(plan, Timestamp { secs: 1, nanos: 0 });
    let result = loop {
        match progress {
            NewProgress::Finished { outcome } => break outcome,
            NewProgress::Perform { run, .. } => {
                assert!(run.may_resume(&ok("")));
                progress = run.resume(ok(""));
            }
        }
    };
    match result {
        NewOutcome::Created { result } => {
            assert_eq!(result.repos.len(), 2);
            assert_eq!(result.repos[1].worktree_path.as_str(), "/elsewhere/web");
        }
        NewOutcome::Failed { error } => panic!("failed: {}", error),
    }
}

#[test]
fn rollback_stops_before_a_worktree_outside() {
    let mut env = World::new();
    let plan = plan_reaching_outside(&mut env);
    let mut progress = execute_plan(plan, Timestamp { secs: 1, nanos: 0 });
    let mut removals = Vec::new();
    loop {
        match progress {
            NewProgress::Finished { .. } => panic!("the rollback went on"),
            NewProgress::Perform { run, action } => {
                // The last record cannot be written; nothing else fails.
                let outcome = match &action {
                    NewAction::WriteMeta { meta, .. } if meta.repos.len() == 2 => failed("disk full"),
                    _ => ok(""),
                };
                if let NewAction::Git { args, .. } = &action {
                    if args[1] == "remove" {
                        removals.push(args[3].clone());
                    }
                }
                if !run.may_resume(&outcome) {
                    break;
                }
                progress = run.resume(outcome);
            }
        }
    }
    // The worktree inside was removed; the one outside is not asked for.
    assert_eq!(removals, vec!["/env/worktrees/out/foo-api"]);
}

#[test]
fn failure_before_any_worktree_can_always_be_taken() {
    let mut env = World::new();
    let plan = plan_reaching_outside(&mut env);
    let progress = execute_plan(plan, Timestamp { secs: 1, nanos: 0 });
    let NewProgress::Perform { run, .. } = progress else {
        panic!("a run begins with an action");
    };
    assert!(run.may_resume(&failed("exists")));
    assert!(matches!(
        run.resume(failed("exists")),
        NewProgress::Finished { outcome: NewOutcome::Failed { error } } if error == "exists"
    ));
}

// --- Round trip through the listing ---

#[test]
fn created_forest_is_listed_once_and_gone_after_removal() {
    let mut env = World::new();
    env.create_repo_with_remote("foo-api");
    let tmpl = env.default_template(&["foo-api"]);
    env.cmd_new(make_new_inputs("keep-a", ForestMode::Feature), &tmpl)
        .unwrap();
    env.cmd_new(make_new_inputs("keep-b", ForestMode::Review), &tmpl)
        .unwrap();
    let mut before = env.ls();
    before.sort();
    assert_eq!(before, vec!["keep-a", "keep-b"]);

    env.cmd_new(make_new_inputs("f", ForestMode::Feature), &tmpl)
        .unwrap();
    let forests = match env.scan(BASE) {
        Scan::Entries { entries } => discover_forests(&entries),
        Scan::Failed { .. } => Vec::new(),
    };
    let listed = cmd_ls(forests).forests;
    let named: Vec<_> = listed.iter().filter(|s| s.name.as_str() == "f").collect();
    assert_eq!(named.len(), 1);
    assert_eq!(named[0].mode, ForestMode::Feature);
    assert_eq!(listed.len(), 3);

    let forest_dir = base_join("f");
    let meta = env.read_meta(&forest_dir);
    let removed = env.cmd_rm(&forest_dir, &meta, false, false);
    assert!(removed.errors.is_empty());
    let mut after = env.ls();
    after.sort();
    assert_eq!(after, before);
}
