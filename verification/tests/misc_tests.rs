use git_forest::cli::{split_key_value, Command};
use git_forest::commands::{
    can_safely_force_delete, cmd_exec, cmd_status, ExecError, ExecRun, RepoStatusKind,
    StatusProbe,
};
use git_forest::config::{MultiTemplateConfig, VersionCheckConfig};
use git_forest::forest::{
    detect_current_forest, discover_forests, find_forest, resolve_forest_multi, ForestErrorKind,
    ForestRef, MetaRead, Scan, ScanEntry,
};
use git_forest::git::{git, ref_exists, ref_exists_args, GitRun, Outcome, RefProbe, RefRun};
use git_forest::meta::{ForestMeta, ForestMode, Timestamp};
use git_forest::testutil::{make_meta, make_repo};
use git_forest::text::{
    contains, decimal, insert_sorted, join, pad_right, precedes, replace_all, replace_char,
    signed_decimal, starts_with, str_eq, trim, trim_end,
};
use git_forest::version_check::{
    check_cache_and_notify, force_check, is_enabled, is_stale, newer_from,
    run_background_version_check, version_check_url, version_newer, ForceCheckResult,
    VersionCheckState,
};

fn at(secs: i64) -> Timestamp {
    Timestamp { secs, nanos: 0 }
}

// --- forest ---

fn test_meta(name: &str, mode: ForestMode) -> ForestMeta {
    let mut repo = make_repo("foo", "b");
    repo.branch = format!("forest/{}", name);
    make_meta(name, at(0), mode, vec![repo])
}

fn entry(base: &str, dir_name: &str, meta: MetaRead) -> ScanEntry {
    ScanEntry {
        dir_name: dir_name.to_string(),
        path: format!("{}/{}", base, dir_name),
        is_dir: true,
        meta,
    }
}

fn forest_entry(base: &str, dir_name: &str, name: &str, mode: ForestMode) -> ScanEntry {
    entry(
        base,
        dir_name,
        MetaRead::Read {
            meta: test_meta(name, mode),
        },
    )
}

#[test]
fn discover_forests_finds_meta_files() {
    let entries = vec![
        forest_entry("/b", "forest-a", "forest-a", ForestMode::Feature),
        forest_entry("/b", "forest-b", "forest-b", ForestMode::Review),
        entry("/b", "no-meta", MetaRead::Missing),
    ];

    let forests = discover_forests(&entries);
    assert_eq!(forests.len(), 2);
    let names: Vec<&str> = forests.iter().map(|f| f.name.as_str()).collect();
    assert!(names.contains(&"forest-a"));
    assert!(names.contains(&"forest-b"));
}

#[test]
fn discover_forests_passes_over_files_and_broken_records() {
    let mut file = forest_entry("/b", "a-file", "a-file", ForestMode::Feature);
    file.is_dir = false;
    let entries = vec![
        file,
        entry(
            "/b",
            "broken",
            MetaRead::Unreadable {
                error: "bad toml".to_string(),
            },
        ),
        forest_entry("/b", "good", "good", ForestMode::Feature),
    ];
    let forests = discover_forests(&entries);
    assert_eq!(forests.len(), 1);
    assert_eq!(forests[0].name.as_str(), "good");
    assert_eq!(find_forest(&entries, "a-file"), None);
    assert_eq!(find_forest(&entries, "broken"), None);
    assert_eq!(find_forest(&entries, "good"), Some(2));
}

#[test]
fn discover_forests_empty_when_no_forests() {
    let forests = discover_forests(&vec![]);
    assert!(forests.is_empty());
}

#[test]
fn discover_forests_empty_when_base_missing() {
    // A base that does not exist has no entries.
    let missing_base = "/nonexistent/path";
    let forests = discover_forests(&Vec::new());
    assert!(forests.is_empty(), "{}", missing_base);
}

#[test]
fn find_forest_by_meta_name() {
    let entries = vec![forest_entry(
        "/b",
        "java-84-refactor-auth",
        "java-84/refactor-auth",
        ForestMode::Feature,
    )];

    let result = find_forest(&entries, "java-84/refactor-auth");
    assert!(result.is_some());
    let i = result.unwrap();
    assert!(matches!(&entries[i].meta, MetaRead::Read { meta } if meta.name.as_str() == "java-84/refactor-auth"));
}

#[test]
fn find_forest_by_directory_name() {
    let entries = vec![forest_entry(
        "/b",
        "java-84-refactor-auth",
        "java-84/refactor-auth",
        ForestMode::Feature,
    )];

    let result = find_forest(&entries, "java-84-refactor-auth");
    assert!(result.is_some());
}

#[test]
fn find_forest_returns_none_when_missing() {
    let result = find_forest(&vec![], "nonexistent");
    assert!(result.is_none());
    let entries = vec![forest_entry("/b", "a", "a", ForestMode::Feature)];
    assert!(find_forest(&entries, "nonexistent").is_none());
}

#[test]
fn find_forest_takes_the_first_that_answers() {
    let entries = vec![
        forest_entry("/b", "other", "x", ForestMode::Feature),
        forest_entry("/b", "a-b", "unrelated", ForestMode::Feature),
        forest_entry("/b", "third", "a/b", ForestMode::Feature),
    ];
    assert_eq!(find_forest(&entries, "a/b"), Some(1));
    assert_eq!(find_forest(&entries, "x"), Some(0));
}

#[test]
fn detect_current_forest_from_inside() {
    // The current directory is a worktree; the forest is one step up.
    let chain = vec![
        MetaRead::Missing,
        MetaRead::Read {
            meta: test_meta("my-forest", ForestMode::Feature),
        },
        MetaRead::Missing,
    ];
    let result = detect_current_forest(&chain).unwrap();
    assert!(result.is_some());
    let up = result.unwrap();
    assert_eq!(up, 1);
    assert!(matches!(&chain[up], MetaRead::Read { meta } if meta.name.as_str() == "my-forest"));
}

#[test]
fn detect_current_forest_from_root() {
    let chain = vec![MetaRead::Read {
        meta: test_meta("my-forest", ForestMode::Feature),
    }];
    let result = detect_current_forest(&chain).unwrap();
    assert!(result.is_some());
    assert_eq!(result, Some(0));
}

#[test]
fn detect_current_forest_returns_none_outside() {
    let result = detect_current_forest(&vec![MetaRead::Missing, MetaRead::Missing]).unwrap();
    assert!(result.is_none());
    assert!(detect_current_forest(&vec![]).unwrap().is_none());
}

#[test]
fn detect_current_forest_unreadable_record_errors() {
    let chain = vec![
        MetaRead::Missing,
        MetaRead::Unreadable {
            error: "failed to parse forest meta TOML".to_string(),
        },
        MetaRead::Read {
            meta: test_meta("outer", ForestMode::Feature),
        },
    ];
    let err = detect_current_forest(&chain).unwrap_err();
    assert_eq!(err.kind, ForestErrorKind::Unreadable);
    assert_eq!(err.message, "failed to parse forest meta TOML");
}

#[test]
fn resolve_forest_multi_finds_across_bases() {
    // The forest is only in base_b; base_a exists but is empty
    let scans = vec![
        Scan::Entries { entries: vec![] },
        Scan::Entries {
            entries: vec![forest_entry(
                "/base-b",
                "my-feature",
                "my-feature",
                ForestMode::Feature,
            )],
        },
    ];
    let found = resolve_forest_multi(&scans, Some("my-feature"), &vec![]).unwrap();
    assert_eq!(found, ForestRef::InBase { base: 1, entry: 0 });
    if let Scan::Entries { entries } = &scans[1] {
        assert_eq!(entries[0].path, "/base-b/my-feature");
    }
}

#[test]
fn resolve_forest_multi_not_found_errors() {
    let scans = vec![Scan::Entries { entries: vec![] }, Scan::Entries { entries: vec![] }];
    let result = resolve_forest_multi(&scans, Some("nonexistent"), &vec![]);
    assert!(result.is_err());
    let err = result.unwrap_err();
    assert_eq!(err.kind, ForestErrorKind::NotFound);
    assert!(err.message.contains("not found"));
    assert_eq!(
        err.message,
        "forest \"nonexistent\" not found\n  hint: run `git forest ls` to see available forests"
    );
}

#[test]
fn resolve_forest_multi_without_name_looks_upwards() {
    let chain = vec![
        MetaRead::Missing,
        MetaRead::Read {
            meta: test_meta("f", ForestMode::Feature),
        },
    ];
    assert_eq!(
        resolve_forest_multi(&vec![], None, &chain).unwrap(),
        ForestRef::Enclosing { up: 1 }
    );
    let err = resolve_forest_multi(&vec![], None, &vec![MetaRead::Missing]).unwrap_err();
    assert_eq!(err.kind, ForestErrorKind::NotInside);
    assert_eq!(
        err.message,
        "not inside a forest directory\n  hint: specify a forest name, or cd into a forest directory"
    );
}

#[test]
fn resolve_forest_multi_failed_scan_ends_the_search() {
    let scans = vec![
        Scan::Failed {
            error: "Permission denied".to_string(),
        },
        Scan::Entries {
            entries: vec![forest_entry("/b", "f", "f", ForestMode::Feature)],
        },
    ];
    let err = resolve_forest_multi(&scans, Some("f"), &vec![]).unwrap_err();
    assert_eq!(err.kind, ForestErrorKind::ScanFailed);
    assert_eq!(err.message, "Permission denied");
}

// --- git ---

fn args(a: &[&str]) -> Vec<String> {
    a.iter().map(|s| s.to_string()).collect()
}

#[test]
fn git_captures_output() {
    let run = GitRun::Exited {
        success: true,
        code: Some(0),
        stdout: Some("4b825dc642cb6eb9a060e54bf8d69288fbee4904\n".to_string()),
        stderr: String::new(),
    };
    let output = git("/repo", &args(&["rev-parse", "HEAD"]), &run);
    match output {
        Outcome::Done { output } => {
            assert!(!output.is_empty());
            assert_eq!(output.len(), 40); // SHA-1 hex
        }
        Outcome::Failed { error } => panic!("{}", error),
    }
}

#[test]
fn git_returns_error_on_bad_command() {
    let run = GitRun::Exited {
        success: false,
        code: Some(128),
        stdout: Some(String::new()),
        stderr: "  fatal: unrecognized argument: --not-a-real-flag\n".to_string(),
    };
    let result = git(
        "/repo",
        &args(&["log", "--oneline", "--not-a-real-flag"]),
        &run,
    );
    match result {
        Outcome::Failed { error } => {
            assert!(error.contains("failed"), "error should mention failure: {}", error);
            assert_eq!(
                error,
                "git log --oneline --not-a-real-flag failed in /repo (exit code: 128)\nstderr: fatal: unrecognized argument: --not-a-real-flag"
            );
        }
        Outcome::Done { .. } => panic!("expected a failure"),
    }
}

#[test]
fn git_other_failures() {
    let killed = GitRun::Exited {
        success: false,
        code: None,
        stdout: None,
        stderr: String::new(),
    };
    assert!(matches!(
        git("/r", &args(&["fetch", "origin"]), &killed),
        Outcome::Failed { error } if error == "git fetch origin failed in /r (exit code: signal)\nstderr: "
    ));
    let negative = GitRun::Exited {
        success: false,
        code: Some(-1),
        stdout: None,
        stderr: "x".to_string(),
    };
    assert!(matches!(
        git("/r", &args(&["a"]), &negative),
        Outcome::Failed { error } if error == "git a failed in /r (exit code: -1)\nstderr: x"
    ));
    let not_text = GitRun::Exited {
        success: true,
        code: Some(0),
        stdout: None,
        stderr: String::new(),
    };
    assert!(matches!(
        git("/r", &args(&["a"]), &not_text),
        Outcome::Failed { error } if error == "git output was not valid UTF-8"
    ));
    let not_started = GitRun::NotStarted {
        error: "No such file or directory".to_string(),
    };
    assert!(matches!(
        git("/r", &args(&["worktree", "add", "a b"]), &not_started),
        Outcome::Failed { error } if error == "failed to run git [\"worktree\", \"add\", \"a b\"] in /r: No such file or directory"
    ));
}

#[test]
fn git_output_keeps_leading_whitespace() {
    let run = GitRun::Exited {
        success: true,
        code: Some(0),
        stdout: Some(" M file \n\n".to_string()),
        stderr: String::new(),
    };
    assert!(matches!(
        git("/r", &args(&["status"]), &run),
        Outcome::Done { output } if output == " M file"
    ));
}

fn exited(code: i32) -> RefRun {
    RefRun::Exited { code: Some(code) }
}

#[test]
fn ref_exists_local_branch() {
    assert!(matches!(
        ref_exists("/repo", "refs/heads/main", &exited(0)),
        RefProbe::Present
    ));
    assert_eq!(
        ref_exists_args("refs/heads/main"),
        vec!["show-ref", "--verify", "refs/heads/main"]
    );
}

#[test]
fn ref_exists_local_branch_missing() {
    assert!(matches!(
        ref_exists("/repo", "refs/heads/nonexistent", &exited(1)),
        RefProbe::Absent
    ));
}

#[test]
fn ref_exists_remote_ref() {
    assert!(matches!(
        ref_exists("/repo", "refs/remotes/origin/main", &exited(0)),
        RefProbe::Present
    ));
}

#[test]
fn ref_exists_remote_ref_missing() {
    // exit 1 or 128 both mean "ref not found"
    assert!(matches!(
        ref_exists("/repo", "refs/remotes/origin/nonexistent", &exited(128)),
        RefProbe::Absent
    ));
}

#[test]
fn ref_exists_unknown() {
    assert!(matches!(
        ref_exists("/repo", "refs/heads/x", &RefRun::Exited { code: None }),
        RefProbe::Failed { error } if error == "git show-ref --verify refs/heads/x killed by signal in /repo"
    ));
    let not_started = RefRun::NotStarted {
        error: "nope".to_string(),
    };
    assert!(matches!(
        ref_exists("/repo", "refs/heads/x", &not_started),
        RefProbe::Failed { error } if error == "failed to run git show-ref --verify refs/heads/x in /repo: nope"
    ));
}

// --- status and exec ---

#[test]
fn cmd_status_runs_in_each_repo() {
    let meta = make_meta(
        "test-forest",
        at(0),
        ForestMode::Feature,
        vec![make_repo("api", "main"), make_repo("web", "main")],
    );
    let probes = vec![
        StatusProbe {
            worktree_exists: true,
            status: Outcome::Done {
                output: "## main".to_string(),
            },
        },
        StatusProbe {
            worktree_exists: true,
            status: Outcome::Failed {
                error: "not a git repository".to_string(),
            },
        },
    ];
    let result = cmd_status("/w/test-forest", &meta, &probes);
    assert_eq!(result.forest_name, "test-forest");
    assert_eq!(result.repos.len(), 2);
    assert_eq!(result.repos[0].name, "api");
    assert!(
        matches!(&result.repos[0].status, RepoStatusKind::Reported { output } if output == "## main")
    );
    assert!(
        matches!(&result.repos[1].status, RepoStatusKind::Error { message } if message == "not a git repository")
    );
}

#[test]
fn cmd_status_missing_worktree_continues() {
    let meta = make_meta(
        "test-forest",
        at(0),
        ForestMode::Feature,
        vec![make_repo("missing-repo", "main")],
    );
    let probes = vec![StatusProbe {
        worktree_exists: false,
        status: Outcome::Done {
            output: "not read".to_string(),
        },
    }];

    let result = cmd_status("/w/test-forest", &meta, &probes);
    assert_eq!(result.repos.len(), 1);
    assert!(matches!(
        &result.repos[0].status,
        RepoStatusKind::Missing { path } if path == "/w/test-forest/missing-repo"
    ));
}

fn two_repos() -> ForestMeta {
    make_meta(
        "test-forest",
        at(0),
        ForestMode::Feature,
        vec![make_repo("api", "main"), make_repo("web", "main")],
    )
}

#[test]
fn cmd_exec_runs_command_in_each_repo() {
    let cmd = vec!["echo".to_string(), "hello".to_string()];
    let result = cmd_exec(&two_repos(), &cmd, &vec![ExecRun::Succeeded, ExecRun::Succeeded]).unwrap();
    assert!(result.failures.is_empty());
    assert_eq!(result.forest_name, "test-forest");
}

#[test]
fn cmd_exec_empty_cmd_errors() {
    let result = cmd_exec(&two_repos(), &[], &vec![ExecRun::Succeeded, ExecRun::Succeeded]);
    assert!(result.is_err());
    let err = result.unwrap_err();
    assert_eq!(err, ExecError::NoCommand);
    assert_eq!(err.message(), "no command specified");
}

#[test]
fn cmd_exec_collects_failures() {
    let cmd = vec!["false".to_string()];
    let result = cmd_exec(&two_repos(), &cmd, &vec![ExecRun::Missing, ExecRun::Failed]).unwrap();
    assert_eq!(result.failures, vec!["api", "web"]);
    let result = cmd_exec(&two_repos(), &cmd, &vec![ExecRun::Succeeded, ExecRun::Failed]).unwrap();
    assert_eq!(result.failures, vec!["web"]);
}

// --- version check ---

#[test]
fn version_newer_upgrade_available() {
    assert!(version_newer("0.2.0", "0.1.0"));
}

#[test]
fn version_newer_same() {
    assert!(!version_newer("0.1.0", "0.1.0"));
}

#[test]
fn version_newer_downgrade() {
    assert!(!version_newer("0.1.0", "0.2.0"));
}

#[test]
fn version_newer_invalid_latest() {
    assert!(!version_newer("invalid", "0.1.0"));
}

#[test]
fn version_newer_invalid_current() {
    assert!(!version_newer("0.2.0", "invalid"));
}

#[test]
fn version_newer_compares_as_versions_not_as_text() {
    assert!(version_newer("0.10.0", "0.9.0"));
    assert!(version_newer("1.0.0", "1.0.0-rc.1"));
    assert!(!version_newer("1.0.0-rc.1", "1.0.0"));
    assert!(newer_from(Some(true)));
    assert!(!newer_from(Some(false)));
    assert!(!newer_from(None));
}

#[test]
fn staleness_check_old() {
    let now = at(1_000_000);
    let old = at(1_000_000 - 25 * 3600);
    assert!(is_stale(&old, &now));
}

#[test]
fn staleness_check_recent() {
    let now = at(1_000_000);
    let recent = at(1_000_000 - 3600);
    assert!(!is_stale(&recent, &now));
}

#[test]
fn staleness_begins_at_a_day() {
    let now = at(1_000_000);
    assert!(is_stale(&at(1_000_000 - 24 * 3600), &now));
    assert!(!is_stale(&at(1_000_000 - 24 * 3600 + 1), &now));
    assert!(!is_stale(&at(2_000_000), &now));
}

#[test]
fn state_file_without_latest_version() {
    // A state that remembers no version asks for a refresh, whatever its age.
    let state = VersionCheckState {
        last_checked: at(1_000_000),
        latest_version: None,
    };
    let decision = check_cache_and_notify(true, Some(&state), "0.1.0", &at(1_000_001));
    assert!(decision.refresh);
    assert!(decision.notice.is_none());
    assert!(!decision.first_run);
}

#[test]
fn check_cache_decisions() {
    let now = at(1_000_000);
    let disabled = check_cache_and_notify(false, None, "0.1.0", &now);
    assert!(!disabled.first_run && !disabled.refresh && disabled.notice.is_none());

    let first = check_cache_and_notify(true, None, "0.1.0", &now);
    assert!(first.first_run && first.refresh && first.notice.is_none());

    let fresh = VersionCheckState {
        last_checked: at(1_000_000 - 60),
        latest_version: Some("0.2.0".to_string()),
    };
    let decision = check_cache_and_notify(true, Some(&fresh), "0.1.0", &now);
    assert!(!decision.first_run && !decision.refresh);
    let notice = decision.notice.unwrap();
    assert_eq!(notice.current, "0.1.0");
    assert_eq!(notice.latest, "0.2.0");

    let stale = VersionCheckState {
        last_checked: at(0),
        latest_version: Some("0.1.0".to_string()),
    };
    let decision = check_cache_and_notify(true, Some(&stale), "0.1.0", &now);
    assert!(decision.refresh && decision.notice.is_none());
}

#[test]
fn force_check_outcomes() {
    assert!(matches!(
        force_check(None, "0.1.0"),
        ForceCheckResult::FetchFailed
    ));
    assert!(matches!(
        force_check(Some("0.1.0".to_string()), "0.1.0"),
        ForceCheckResult::UpToDate
    ));
    assert!(matches!(
        force_check(Some("garbage".to_string()), "0.1.0"),
        ForceCheckResult::UpToDate
    ));
    assert!(matches!(
        force_check(Some("0.3.0".to_string()), "0.1.0"),
        ForceCheckResult::UpdateAvailable(n) if n.latest == "0.3.0" && n.current == "0.1.0"
    ));
}

#[test]
fn background_check_remembers_the_answer() {
    let now = at(500);
    assert!(run_background_version_check(None, None, &now).is_none());
    let fresh = run_background_version_check(Some("0.2.0".to_string()), None, &now).unwrap();
    assert_eq!(fresh.last_checked, now);
    assert_eq!(fresh.latest_version.as_deref(), Some("0.2.0"));
    let old = VersionCheckState {
        last_checked: at(7),
        latest_version: Some("0.1.0".to_string()),
    };
    let kept = run_background_version_check(Some("0.2.0".to_string()), Some(old), &now).unwrap();
    assert_eq!(kept.last_checked, at(7));
    assert_eq!(kept.latest_version.as_deref(), Some("0.2.0"));
}

#[test]
fn version_check_is_enabled_by_default() {
    assert!(is_enabled(None));
    let mut config = MultiTemplateConfig {
        default_template: "d".to_string(),
        template: vec![],
        version_check: None,
    };
    assert!(is_enabled(Some(&config)));
    config.version_check = Some(VersionCheckConfig { enabled: false });
    assert!(!is_enabled(Some(&config)));
    config.version_check = Some(VersionCheckConfig { enabled: true });
    assert!(is_enabled(Some(&config)));
}

#[test]
fn version_check_url_names_version_and_channel() {
    assert_eq!(
        version_check_url("0.1.0"),
        "https://forest.dliv.gg/api/latest?v=0.1.0&channel=stable"
    );
}

// --- command line ---

#[test]
fn split_key_value_splits_at_the_first_equals_sign() {
    assert_eq!(
        split_key_value("repo=branch"),
        Some(("repo".to_string(), "branch".to_string()))
    );
    assert_eq!(
        split_key_value("repo=a=b"),
        Some(("repo".to_string(), "a=b".to_string()))
    );
    assert_eq!(split_key_value("="), Some((String::new(), String::new())));
    assert_eq!(split_key_value("no-separator"), None);
    assert_eq!(split_key_value(""), None);
}

#[test]
fn version_check_follows_forest_commands_only() {
    assert!(Command::Ls.wants_version_check());
    assert!(Command::Status { name: None }.wants_version_check());
    assert!(Command::Rm {
        name: None,
        force: false,
        dry_run: false
    }
    .wants_version_check());
    assert!(!Command::Reset {
        confirm: true,
        config_only: false,
        dry_run: false
    }
    .wants_version_check());
    assert!(!Command::Version { check: true }.wants_version_check());
    assert!(!Command::Update.wants_version_check());
    assert!(!Command::AgentInstructions.wants_version_check());
}

// --- text ---

#[test]
fn text_comparisons() {
    assert!(str_eq("", ""));
    assert!(str_eq("é", "é"));
    assert!(!str_eq("a", "ab"));
    assert!(!str_eq("ab", "ac"));
    assert!(starts_with("refs/heads", "refs/"));
    assert!(starts_with("x", ""));
    assert!(!starts_with("ref", "refs/"));
    assert!(contains("dliv/{name}", "{name}"));
    assert!(contains("abc", ""));
    assert!(contains("", ""));
    assert!(!contains("dliv/{nam}e", "{name}"));
    assert!(contains("aab", "ab"));
    assert!(precedes("a", "b"));
    assert!(precedes("", "a"));
    assert!(precedes("a", "ab"));
    assert!(precedes("B", "a"));
    assert!(precedes("a-b", "a/b"));
    assert!(!precedes("a", "a"));
    assert!(!precedes("b", "a"));
    assert!(precedes("z", "é"));
}

#[test]
fn text_replacements() {
    assert_eq!(replace_all("a{name}b{name}", "{name}", "x"), "axbx");
    assert_eq!(replace_all("aaa", "aa", "b"), "ba");
    assert_eq!(replace_all("abc", "abcd", "x"), "abc");
    assert_eq!(replace_all("", "a", "x"), "");
    assert_eq!(replace_all("aXa", "X", ""), "aa");
    assert_eq!(replace_all("abc", "", "x"), "abc");
    assert_eq!(replace_char("a/b//c", '/', '-'), "a-b--c");
    assert_eq!(join(&vec![], ", "), "");
    assert_eq!(join(&vec!["a".to_string()], ", "), "a");
    assert_eq!(
        join(&vec!["a".to_string(), String::new(), "c".to_string()], ", "),
        "a, , c"
    );
}

#[test]
fn text_numbers_and_padding() {
    assert_eq!(decimal(0), "0");
    assert_eq!(decimal(7), "7");
    assert_eq!(decimal(10), "10");
    assert_eq!(decimal(1234567890), "1234567890");
    assert_eq!(decimal(u64::MAX), "18446744073709551615");
    assert_eq!(signed_decimal(0), "0");
    assert_eq!(signed_decimal(-1), "-1");
    assert_eq!(signed_decimal(i64::MIN), "-9223372036854775808");
    assert_eq!(signed_decimal(i64::MAX), "9223372036854775807");
    assert_eq!(pad_right("ab", 4), "ab  ");
    assert_eq!(pad_right("abcd", 4), "abcd");
    assert_eq!(pad_right("abcde", 4), "abcde");
    assert_eq!(pad_right("é", 3), "é  ");
    assert_eq!(pad_right("", 0), "");
}

#[test]
fn text_trimming() {
    assert_eq!(trim("  0\n"), "0");
    assert_eq!(trim("\t a b \r\n"), "a b");
    assert_eq!(trim(" \u{a0}\u{2003}x\u{3000}"), "x");
    assert_eq!(trim("   "), "");
    assert_eq!(trim(""), "");
    assert_eq!(trim("\u{200b}x"), "\u{200b}x");
    assert_eq!(trim_end("  a \n"), "  a");
    assert_eq!(trim_end("\n"), "");
}

#[test]
fn text_sorted_insertion() {
    let mut v: Vec<String> = Vec::new();
    for s in ["m", "a", "z", "m", "b", "a"] {
        insert_sorted(&mut v, s);
    }
    assert_eq!(v, vec!["a", "b", "m", "z"]);
}

// --- branch deletion fallbacks ---

#[test]
fn branch_is_safe_to_delete_when_merged_or_pushed() {
    let ok = |s: &str| Outcome::Done {
        output: s.to_string(),
    };
    let no = || Outcome::Failed {
        error: "exit 1".to_string(),
    };
    // An ancestor of its base: safe, whatever the rest says.
    assert!(can_safely_force_delete(&ok(""), &no(), &no()));
    // All commits on its upstream: safe.
    assert!(can_safely_force_delete(&no(), &ok("origin/b"), &ok("0")));
    assert!(can_safely_force_delete(&no(), &ok("origin/b"), &ok(" 0\n")));
    // Commits that the upstream lacks: not safe.
    assert!(!can_safely_force_delete(&no(), &ok("origin/b"), &ok("1")));
    assert!(!can_safely_force_delete(&no(), &ok("origin/b"), &ok("00")));
    assert!(!can_safely_force_delete(&no(), &ok("origin/b"), &ok("")));
    assert!(!can_safely_force_delete(&no(), &ok("origin/b"), &no()));
    // No upstream: not safe.
    assert!(!can_safely_force_delete(&no(), &ok(""), &ok("0")));
    assert!(!can_safely_force_delete(&no(), &no(), &ok("0")));
}

// --- what is decided after a command, from what the state file holds ---

const CURRENT: &str = "0.1.0";

fn remembered(last_checked: i64, latest: Option<&str>) -> VersionCheckState {
    VersionCheckState {
        last_checked: at(last_checked),
        latest_version: latest.map(|s| s.to_string()),
    }
}

#[test]
fn version_check_fresh_cache_no_notice() {
    // Cache is fresh with same version as current — no notice expected
    let now = at(1_000_000);
    let state = remembered(2_000_000, Some(CURRENT));
    let decision = check_cache_and_notify(true, Some(&state), CURRENT, &now);
    assert!(decision.notice.is_none(), "unexpected update notice");
    assert!(!decision.first_run, "unexpected first-run notice");
    assert!(!decision.refresh);
}

#[test]
fn version_check_cached_newer_version_shows_notice() {
    // Cache has a newer version — the notice comes from the cache
    let now = at(1_000_000);
    let state = remembered(2_000_000, Some("99.0.0"));
    let decision = check_cache_and_notify(true, Some(&state), CURRENT, &now);
    let notice = decision.notice.expect("expected update notice");
    assert_eq!(notice.latest, "99.0.0");
    assert_eq!(notice.current, CURRENT);
    assert!(!decision.refresh);
}

#[test]
fn version_check_stale_cache_updates_timestamp() {
    // Cache is stale with the current version: no notice, but a refresh
    let now = at(1_000_000_000);
    let state = remembered(0, Some(CURRENT));
    let decision = check_cache_and_notify(true, Some(&state), CURRENT, &now);
    assert!(decision.notice.is_none());
    assert!(decision.refresh);
    // The refresh keeps the version that is remembered.
    let kept = run_background_version_check(Some(CURRENT.to_string()), Some(state), &now).unwrap();
    assert_eq!(kept.latest_version.as_deref(), Some(CURRENT));
}

#[test]
fn version_check_stale_cache_with_newer_version_shows_notice_and_updates() {
    let now = at(1_000_000_000);
    let state = remembered(0, Some("99.0.0"));
    let decision = check_cache_and_notify(true, Some(&state), CURRENT, &now);
    assert!(decision.notice.is_some());
    assert!(decision.refresh);
}

#[test]
fn version_check_first_run_shows_privacy_notice() {
    let decision = check_cache_and_notify(true, None, CURRENT, &at(1_000_000));
    assert!(decision.first_run);
    assert!(decision.refresh);
    assert!(decision.notice.is_none());
}

#[test]
fn version_check_missing_latest_version_does_sync_check() {
    // State exists but latest_version is missing — triggers a check
    let state = remembered(4_070_908_800, None);
    let decision = check_cache_and_notify(true, Some(&state), CURRENT, &at(1_000_000));
    // Should NOT show privacy notice (state file existed)
    assert!(!decision.first_run);
    assert!(decision.refresh);
}

#[test]
fn reset_confirm_does_not_trigger_version_check() {
    assert!(!Command::Reset {
        confirm: true,
        config_only: false,
        dry_run: false
    }
    .wants_version_check());
}
