//! Resetting: every forest of every worktree base is torn down, then the
//! configuration and the state are deleted. Nothing of it can be undone, so
//! nothing is done before it is confirmed.


use crate::forest::{discover_forests, discovered, Scan, ScanView};
use crate::git::{no_args, push_arg};
use crate::meta::{ForestMeta, ForestMetaView};
use crate::paths::{join_text, joined_path, sanitize_forest_name, sanitized_name, AbsolutePath};
use crate::seqs::{lemma_view_each_push, view_each};
use crate::text::{join, joined, push_line, push_section, section};
use vstd::prelude::*;
use vstd::string::*;

verus! {

/// What became of a file.
#[derive(Debug)]
pub struct FileResetEntry {
    pub path: String,
    pub existed: bool,
    pub deleted: bool,
}

/// The mathematical content of a [`FileResetEntry`].
pub struct FileResetEntryView {
    pub path: Seq<char>,
    pub existed: bool,
    pub deleted: bool,
}

impl View for FileResetEntry {
    type V = FileResetEntryView;

    open spec fn view(&self) -> FileResetEntryView {
        FileResetEntryView { path: self.path@, existed: self.existed, deleted: self.deleted }
    }
}

/// What became of a forest.
#[derive(Debug)]
pub struct ForestResetEntry {
    pub name: String,
    pub path: String,
    pub removed: bool,
}

/// The mathematical content of a [`ForestResetEntry`].
pub struct ForestResetEntryView {
    pub name: Seq<char>,
    pub path: Seq<char>,
    pub removed: bool,
}

impl View for ForestResetEntry {
    type V = ForestResetEntryView;

    open spec fn view(&self) -> ForestResetEntryView {
        ForestResetEntryView { name: self.name@, path: self.path@, removed: self.removed }
    }
}

impl Clone for ForestResetEntry {
    fn clone(&self) -> (r: ForestResetEntry)
        ensures
            r@ == self@,
    {
        ForestResetEntry {
            name: self.name.clone(),
            path: self.path.clone(),
            removed: self.removed,
        }
    }
}

/// What a reset came to, or would come to.
#[derive(Debug)]
pub struct ResetResult {
    pub dry_run: bool,
    pub confirm_required: bool,
    pub config_only: bool,
    pub config_file: FileResetEntry,
    pub state_file: FileResetEntry,
    pub forests: Vec<ForestResetEntry>,
    pub warnings: Vec<String>,
    pub errors: Vec<String>,
}

/// The mathematical content of a [`ResetResult`].
pub struct ResetResultView {
    pub dry_run: bool,
    pub confirm_required: bool,
    pub config_only: bool,
    pub config_file: FileResetEntryView,
    pub state_file: FileResetEntryView,
    pub forests: Seq<ForestResetEntryView>,
    pub warnings: Seq<Seq<char>>,
    pub errors: Seq<Seq<char>>,
}

impl View for ResetResult {
    type V = ResetResultView;

    open spec fn view(&self) -> ResetResultView {
        ResetResultView {
            dry_run: self.dry_run,
            confirm_required: self.confirm_required,
            config_only: self.config_only,
            config_file: self.config_file@,
            state_file: self.state_file@,
            forests: view_each(self.forests@),
            warnings: view_each(self.warnings@),
            errors: view_each(self.errors@),
        }
    }
}

/// What a reset lets its caller know while it runs.
#[derive(Debug)]
pub enum ResetProgress {
    ForestStarting { name: String, path: String },
    ForestDone { entry: ForestResetEntry },
}

/// The mathematical content of a [`ResetProgress`].
pub enum ResetProgressView {
    ForestStarting { name: Seq<char>, path: Seq<char> },
    ForestDone { entry: ForestResetEntryView },
}

impl View for ResetProgress {
    type V = ResetProgressView;

    open spec fn view(&self) -> ResetProgressView {
        match *self {
            ResetProgress::ForestStarting { name, path } => ResetProgressView::ForestStarting {
                name: name@,
                path: path@,
            },
            ResetProgress::ForestDone { entry } => ResetProgressView::ForestDone { entry: entry@ },
        }
    }
}

/// One worktree of a forest to tear down.
#[derive(Debug)]
pub struct ForestRepoInfo {
    pub source: AbsolutePath,
    pub worktree_dir: String,
}

/// The mathematical content of a [`ForestRepoInfo`].
pub struct ForestRepoInfoView {
    pub source: Seq<char>,
    pub worktree_dir: Seq<char>,
}

impl View for ForestRepoInfo {
    type V = ForestRepoInfoView;

    open spec fn view(&self) -> ForestRepoInfoView {
        ForestRepoInfoView { source: self.source@, worktree_dir: self.worktree_dir@ }
    }
}

/// One forest to tear down.
#[derive(Debug)]
pub struct ForestInfo {
    pub name: String,
    pub path: String,
    pub repos: Vec<ForestRepoInfo>,
}

/// The mathematical content of a [`ForestInfo`].
pub struct ForestInfoView {
    pub name: Seq<char>,
    pub path: Seq<char>,
    pub repos: Seq<ForestRepoInfoView>,
}

impl View for ForestInfo {
    type V = ForestInfoView;

    open spec fn view(&self) -> ForestInfoView {
        ForestInfoView { name: self.name@, path: self.path@, repos: view_each(self.repos@) }
    }
}

/// What a reset will do.
#[derive(Debug)]
pub struct ResetPlan {
    pub config_path: String,
    pub config_exists: bool,
    pub state_path: String,
    pub state_exists: bool,
    pub config_only: bool,
    pub forests: Vec<ForestInfo>,
    pub warnings: Vec<String>,
}

/// The mathematical content of a [`ResetPlan`].
pub struct ResetPlanView {
    pub config_path: Seq<char>,
    pub config_exists: bool,
    pub state_path: Seq<char>,
    pub state_exists: bool,
    pub config_only: bool,
    pub forests: Seq<ForestInfoView>,
    pub warnings: Seq<Seq<char>>,
}

impl View for ResetPlan {
    type V = ResetPlanView;

    open spec fn view(&self) -> ResetPlanView {
        ResetPlanView {
            config_path: self.config_path@,
            config_exists: self.config_exists,
            state_path: self.state_path@,
            state_exists: self.state_exists,
            config_only: self.config_only,
            forests: view_each(self.forests@),
            warnings: view_each(self.warnings@),
        }
    }
}

/// What scanning one worktree base came to.
#[derive(Debug)]
pub struct BaseScan {
    pub base: String,
    pub scan: Scan,
}

/// The mathematical content of a [`BaseScan`].
pub struct BaseScanView {
    pub base: Seq<char>,
    pub scan: ScanView,
}

impl View for BaseScan {
    type V = BaseScanView;

    open spec fn view(&self) -> BaseScanView {
        BaseScanView { base: self.base@, scan: self.scan@ }
    }
}

/// What reading the configuration came to.
#[derive(Debug)]
pub enum ConfigLoad {
    /// It was read and resolved; `scans` holds one scan for each of its
    /// worktree bases.
    Loaded { scans: Vec<BaseScan> },
    /// It could not be read or understood.
    Failed { error: String },
}

/// The mathematical content of a [`ConfigLoad`].
pub enum ConfigLoadView {
    Loaded { scans: Seq<BaseScanView> },
    Failed { error: Seq<char> },
}

impl View for ConfigLoad {
    type V = ConfigLoadView;

    open spec fn view(&self) -> ConfigLoadView {
        match *self {
            ConfigLoad::Loaded { scans } => ConfigLoadView::Loaded { scans: view_each(scans@) },
            ConfigLoad::Failed { error } => ConfigLoadView::Failed { error: error@ },
        }
    }
}

/// The facts that a reset is planned from.
#[derive(Debug)]
pub struct ResetFacts {
    pub config_path: String,
    pub config_exists: bool,
    pub state_path: String,
    pub state_exists: bool,
    /// What reading the configuration came to. It is looked at only where
    /// the configuration exists and forests are to be torn down.
    pub config: ConfigLoad,
}

/// The mathematical content of a [`ResetFacts`].
pub struct ResetFactsView {
    pub config_path: Seq<char>,
    pub config_exists: bool,
    pub state_path: Seq<char>,
    pub state_exists: bool,
    pub config: ConfigLoadView,
}

impl View for ResetFacts {
    type V = ResetFactsView;

    open spec fn view(&self) -> ResetFactsView {
        ResetFactsView {
            config_path: self.config_path@,
            config_exists: self.config_exists,
            state_path: self.state_path@,
            state_exists: self.state_exists,
            config: self.config@,
        }
    }
}

/// Why nothing is reset.
#[derive(Debug, Clone, Copy, PartialEq, Eq, Structural)]
pub enum ResetError {
    /// There is no configuration, no state and no forest.
    NothingToReset,
}

impl ResetError {
    /// The text shown to the user.
    pub fn message(&self) -> (r: String)
        ensures
            r@ == "nothing to reset\n  hint: no config, state, or forests found"@,
    {
        String::from_str("nothing to reset\n  hint: no config, state, or forests found")
    }
}

/// A forest to tear down, from its record: it is looked for under `base`
/// at its sanitized name, each worktree under it at the repository's name.
pub open spec fn forest_info_of(base: Seq<char>, meta: ForestMetaView) -> ForestInfoView {
    let path = joined_path(base, sanitized_name(meta.name));
    ForestInfoView {
        name: meta.name,
        path,
        repos: Seq::new(
            meta.repos.len(),
            |i: int|
                ForestRepoInfoView {
                    source: meta.repos[i].source,
                    worktree_dir: joined_path(path, meta.repos[i].name),
                },
        ),
    }
}

/// The forests of one worktree base.
pub open spec fn base_forests(base: Seq<char>, metas: Seq<ForestMetaView>) -> Seq<ForestInfoView> {
    Seq::new(metas.len(), |i: int| forest_info_of(base, metas[i]))
}

pub open spec fn scan_warning(base: Seq<char>, error: Seq<char>) -> Seq<char> {
    "could not scan worktree base "@ + base + ": "@ + error
}

pub open spec fn parse_warning(error: Seq<char>) -> Seq<char> {
    "config exists but could not be parsed: "@ + error
        + "\n  worktree directories may need manual cleanup"@
}

/// The forests of all the bases scanned, in order, and a warning for each
/// base that could not be scanned.
pub open spec fn gathered(scans: Seq<BaseScanView>) -> (Seq<ForestInfoView>, Seq<Seq<char>>)
    decreases scans.len(),
{
    if scans.len() == 0 {
        (Seq::empty(), Seq::empty())
    } else {
        let before = gathered(scans.drop_last());
        let last = scans.last();
        match last.scan {
            ScanView::Entries { entries } => (
                before.0 + base_forests(last.base, discovered(entries)),
                before.1,
            ),
            ScanView::Failed { error } => (before.0, before.1.push(scan_warning(last.base, error))),
        }
    }
}

/// The forests to tear down and the warnings to give. With `config_only`,
/// or without a configuration, no forest is looked for. A configuration
/// that cannot be read is no obstacle: it yields a warning, and no forest.
pub open spec fn found(config_only: bool, facts: ResetFactsView) -> (
    Seq<ForestInfoView>,
    Seq<Seq<char>>,
) {
    if config_only || !facts.config_exists {
        (Seq::empty(), Seq::empty())
    } else {
        match facts.config {
            ConfigLoadView::Loaded { scans } => gathered(scans),
            ConfigLoadView::Failed { error } => (Seq::empty(), seq![parse_warning(error)]),
        }
    }
}

/// The plan of a reset, unless there is nothing to reset.
pub open spec fn reset_planned(config_only: bool, facts: ResetFactsView) -> Result<
    ResetPlanView,
    ResetError,
> {
    let f = found(config_only, facts);
    if !facts.config_exists && !facts.state_exists && f.0.len() == 0 {
        Err(ResetError::NothingToReset)
    } else {
        Ok(
            ResetPlanView {
                config_path: facts.config_path,
                config_exists: facts.config_exists,
                state_path: facts.state_path,
                state_exists: facts.state_exists,
                config_only,
                forests: f.0,
                warnings: f.1,
            },
        )
    }
}

fn forest_info(base: &str, meta: &ForestMeta) -> (r: ForestInfo)
    ensures
        r@ == forest_info_of(base@, meta@),
{
    let dir_name = sanitize_forest_name(meta.name.as_str());
    let path = join_text(base, dir_name.as_str());
    let mut repos: Vec<ForestRepoInfo> = Vec::new();
    let mut i: usize = 0;
    while i < meta.repos.len()
        invariant
            i <= meta.repos.len(),
            path@ == joined_path(base@, sanitized_name(meta@.name)),
            view_each(repos@) == Seq::new(
                i as nat,
                |j: int|
                    ForestRepoInfoView {
                        source: meta@.repos[j].source,
                        worktree_dir: joined_path(path@, meta@.repos[j].name),
                    },
            ),
        decreases meta.repos.len() - i,
    {
        let repo = &meta.repos[i];
        let item = ForestRepoInfo {
            source: repo.source.clone(),
            worktree_dir: join_text(path.as_str(), repo.name.as_str()),
        };
        proof {
            assert(meta@.repos[i as int] == repo@);
            lemma_view_each_push(repos@, item);
            assert(Seq::new(
                (i + 1) as nat,
                |j: int|
                    ForestRepoInfoView {
                        source: meta@.repos[j].source,
                        worktree_dir: joined_path(path@, meta@.repos[j].name),
                    },
            ) =~= Seq::new(
                i as nat,
                |j: int|
                    ForestRepoInfoView {
                        source: meta@.repos[j].source,
                        worktree_dir: joined_path(path@, meta@.repos[j].name),
                    },
            ).push(item@));
        }
        repos.push(item);
        i += 1;
    }
    ForestInfo { name: meta.name.display(), path, repos }
}

fn gather(scans: &Vec<BaseScan>) -> (r: (Vec<ForestInfo>, Vec<String>))
    ensures
        (view_each(r.0@), view_each(r.1@)) == gathered(view_each(scans@)),
{
    let mut forests: Vec<ForestInfo> = Vec::new();
    let mut warnings = no_args();
    assert(view_each(forests@) =~= Seq::<ForestInfoView>::empty());
    let mut k: usize = 0;
    while k < scans.len()
        invariant
            k <= scans.len(),
            (view_each(forests@), view_each(warnings@)) == gathered(
                view_each(scans@).take(k as int),
            ),
        decreases scans.len() - k,
    {
        let s = &scans[k];
        let ghost upto = view_each(scans@).take(k + 1);
        proof {
            assert(upto.drop_last() == view_each(scans@).take(k as int));
            assert(upto.last() == s@);
        }
        match &s.scan {
            Scan::Entries { entries } => {
                let metas = discover_forests(entries);
                let ghost before = view_each(forests@);
                let mut i: usize = 0;
                while i < metas.len()
                    invariant
                        i <= metas.len(),
                        view_each(forests@) == before + base_forests(
                            s.base@,
                            view_each(metas@),
                        ).take(i as int),
                    decreases metas.len() - i,
                {
                    let info = forest_info(s.base.as_str(), &metas[i]);
                    proof {
                        lemma_view_each_push(forests@, info);
                        let all = base_forests(s.base@, view_each(metas@));
                        assert(all.take(i + 1) == all.take(i as int).push(info@));
                        assert((before + all.take(i as int)).push(info@) =~= before + all.take(
                            i + 1,
                        ));
                    }
                    forests.push(info);
                    i += 1;
                }
                proof {
                    let all = base_forests(s.base@, view_each(metas@));
                    assert(all.take(metas.len() as int) == all);
                }
            },
            Scan::Failed { error } => {
                let mut w = String::from_str("could not scan worktree base ");
                w.append(s.base.as_str());
                w.append(": ");
                w.append(error.as_str());
                push_arg(&mut warnings, w.as_str());
            },
        }
        k += 1;
    }
    assert(view_each(scans@).take(scans.len() as int) == view_each(scans@));
    (forests, warnings)
}

/// Plans a reset from the facts found out.
pub fn plan_reset(config_only: bool, facts: &ResetFacts) -> (r: Result<ResetPlan, ResetError>)
    ensures
        match r {
            Ok(p) => reset_planned(config_only, facts@) == Ok::<ResetPlanView, ResetError>(p@),
            Err(e) => reset_planned(config_only, facts@) == Err::<ResetPlanView, ResetError>(e),
        },
{
    let (forests, warnings) = if config_only || !facts.config_exists {
        let f: Vec<ForestInfo> = Vec::new();
        assert(view_each(f@) =~= Seq::<ForestInfoView>::empty());
        (f, no_args())
    } else {
        match &facts.config {
            ConfigLoad::Loaded { scans } => gather(scans),
            ConfigLoad::Failed { error } => {
                let f: Vec<ForestInfo> = Vec::new();
                assert(view_each(f@) =~= Seq::<ForestInfoView>::empty());
                let mut w = String::from_str("config exists but could not be parsed: ");
                w.append(error.as_str());
                w.append("\n  worktree directories may need manual cleanup");
                let mut warnings = no_args();
                push_arg(&mut warnings, w.as_str());
                assert(view_each(warnings@) =~= seq![parse_warning(error@)]);
                (f, warnings)
            },
        }
    };
    if !facts.config_exists && !facts.state_exists && forests.len() == 0 {
        return Err(ResetError::NothingToReset);
    }
    Ok(
        ResetPlan {
            config_path: facts.config_path.clone(),
            config_exists: facts.config_exists,
            state_path: facts.state_path.clone(),
            state_exists: facts.state_exists,
            config_only,
            forests,
            warnings,
        },
    )
}

/// What became of a file, in words.
pub open spec fn file_status_text(entry: FileResetEntryView, is_preview: bool) -> Seq<char> {
    if is_preview {
        if entry.existed {
            "would delete"@
        } else {
            "not found"@
        }
    } else if entry.deleted {
        "deleted"@
    } else if entry.existed {
        "failed"@
    } else {
        "not found"@
    }
}

/// Says in words what became of a file, or would.
pub fn format_file_status(entry: &FileResetEntry, is_preview: bool) -> (r: &'static str)
    ensures
        r@ == file_status_text(entry@, is_preview),
{
    if is_preview {
        if entry.existed {
            "would delete"
        } else {
            "not found"
        }
    } else if entry.deleted {
        "deleted"
    } else if entry.existed {
        "failed"
    } else {
        "not found"
    }
}

/// What became of a forest, in words.
pub open spec fn forest_status_text(removed: bool, is_preview: bool) -> Seq<char> {
    if is_preview {
        if removed {
            "would remove"@
        } else {
            "already missing"@
        }
    } else if removed {
        "removed"@
    } else {
        "failed"@
    }
}

/// The first line about a reset.
pub open spec fn reset_title(result: ResetResultView) -> Seq<char> {
    if result.confirm_required {
        "The following would be deleted:"@
    } else if result.dry_run {
        "Dry run — no changes will be made."@
    } else if result.errors.len() == 0 {
        "Reset complete."@
    } else {
        "Reset completed with errors."@
    }
}

/// The lines about the forests of a reset.
pub open spec fn reset_forest_lines(result: ResetResultView) -> Seq<Seq<char>> {
    let is_preview = result.dry_run || result.confirm_required;
    if result.config_only {
        Seq::empty()
    } else if result.forests.len() == 0 {
        seq![Seq::<char>::empty(), "Forests: none found"@]
    } else {
        seq![Seq::<char>::empty(), "Forests:"@] + Seq::new(
            result.forests.len(),
            |i: int|
                "  "@ + result.forests[i].name + ": "@ + forest_status_text(
                    result.forests[i].removed,
                    is_preview,
                ) + " ("@ + result.forests[i].path + ")"@,
        )
    }
}

/// The lines about the files of a reset.
pub open spec fn reset_file_lines(result: ResetResultView, is_preview: bool) -> Seq<Seq<char>> {
    seq![
        Seq::<char>::empty(),
        "Config: "@ + file_status_text(result.config_file, is_preview) + " ("@
            + result.config_file.path + ")"@,
        "State:  "@ + file_status_text(result.state_file, is_preview) + " ("@
            + result.state_file.path + ")"@,
    ]
}

/// The lines that tell of a reset.
pub open spec fn reset_lines(result: ResetResultView) -> Seq<Seq<char>> {
    seq![reset_title(result)] + reset_forest_lines(result) + reset_file_lines(
        result,
        result.dry_run || result.confirm_required,
    ) + section("Warnings:"@, result.warnings) + section("Errors:"@, result.errors) + (
    if result.confirm_required {
        seq![Seq::<char>::empty(), "Pass --confirm to proceed."@]
    } else {
        Seq::<Seq<char>>::empty()
    })
}

/// The lines that sum a reset up, its forests having been shown as it went.
pub open spec fn reset_summary_lines(result: ResetResultView) -> Seq<Seq<char>> {
    seq![
        if result.errors.len() == 0 {
            "Reset complete."@
        } else {
            "Reset completed with errors."@
        },
    ] + reset_file_lines(result, false) + section("Warnings:"@, result.warnings) + section(
        "Errors:"@,
        result.errors,
    )
}

fn push_file_lines(lines: &mut Vec<String>, result: &ResetResult, is_preview: bool)
    ensures
        view_each(final(lines)@) == view_each(old(lines)@) + reset_file_lines(result@, is_preview),
{
    let ghost before = view_each(lines@);
    push_line(lines, String::new());
    let mut c = String::from_str("Config: ");
    c.append(format_file_status(&result.config_file, is_preview));
    c.append(" (");
    c.append(result.config_file.path.as_str());
    c.append(")");
    push_line(lines, c);
    let mut s = String::from_str("State:  ");
    s.append(format_file_status(&result.state_file, is_preview));
    s.append(" (");
    s.append(result.state_file.path.as_str());
    s.append(")");
    push_line(lines, s);
    assert(view_each(lines@) =~= before + reset_file_lines(result@, is_preview));
}

/// Writes the end of a reset whose progress was shown as it went.
pub fn format_reset_summary(result: &ResetResult) -> (r: String)
    ensures
        r@ == joined(reset_summary_lines(result@), "\n"@),
{
    let mut lines: Vec<String> = Vec::new();
    assert(view_each(lines@) =~= Seq::<Seq<char>>::empty());
    if result.errors.len() == 0 {
        push_line(&mut lines, String::from_str("Reset complete."));
    } else {
        push_line(&mut lines, String::from_str("Reset completed with errors."));
    }
    push_file_lines(&mut lines, result, false);
    push_section(&mut lines, "Warnings:", &result.warnings);
    push_section(&mut lines, "Errors:", &result.errors);
    assert(view_each(lines@) =~= reset_summary_lines(result@));
    join(&lines, "\n")
}

/// Writes what a reset came to, or would come to, for the user.
pub fn format_reset_human(result: &ResetResult) -> (r: String)
    ensures
        r@ == joined(reset_lines(result@), "\n"@),
{
    let mut lines: Vec<String> = Vec::new();
    assert(view_each(lines@) =~= Seq::<Seq<char>>::empty());
    if result.confirm_required {
        push_line(&mut lines, String::from_str("The following would be deleted:"));
    } else if result.dry_run {
        push_line(&mut lines, String::from_str("Dry run — no changes will be made."));
    } else if result.errors.len() == 0 {
        push_line(&mut lines, String::from_str("Reset complete."));
    } else {
        push_line(&mut lines, String::from_str("Reset completed with errors."));
    }
    let is_preview = result.dry_run || result.confirm_required;
    let ghost title = view_each(lines@);
    if !result.config_only {
        push_line(&mut lines, String::new());
        if result.forests.len() == 0 {
            push_line(&mut lines, String::from_str("Forests: none found"));
        } else {
            push_line(&mut lines, String::from_str("Forests:"));
            let ghost head = view_each(lines@);
            let ghost body = Seq::new(
                result@.forests.len(),
                |i: int|
                    "  "@ + result@.forests[i].name + ": "@ + forest_status_text(
                        result@.forests[i].removed,
                        is_preview,
                    ) + " ("@ + result@.forests[i].path + ")"@,
            );
            let mut i: usize = 0;
            while i < result.forests.len()
                invariant
                    i <= result.forests.len(),
                    body == Seq::new(
                        result@.forests.len(),
                        |i: int|
                            "  "@ + result@.forests[i].name + ": "@ + forest_status_text(
                                result@.forests[i].removed,
                                is_preview,
                            ) + " ("@ + result@.forests[i].path + ")"@,
                    ),
                    view_each(lines@) == head + body.take(i as int),
                decreases result.forests.len() - i,
            {
                let forest = &result.forests[i];
                assert(result@.forests[i as int] == forest@);
                let mut line = String::from_str("  ");
                line.append(forest.name.as_str());
                line.append(": ");
                if is_preview {
                    if forest.removed {
                        line.append("would remove");
                    } else {
                        line.append("already missing");
                    }
                } else if forest.removed {
                    line.append("removed");
                } else {
                    line.append("failed");
                }
                line.append(" (");
                line.append(forest.path.as_str());
                line.append(")");
                proof {
                    assert(body.take(i + 1) == body.take(i as int).push(line@));
                    assert((head + body.take(i as int)).push(line@) =~= head + body.take(i + 1));
                }
                push_line(&mut lines, line);
                i += 1;
            }
            assert(body.take(result.forests.len() as int) == body);
        }
    }
    assert(view_each(lines@) =~= title + reset_forest_lines(result@));
    push_file_lines(&mut lines, result, is_preview);
    push_section(&mut lines, "Warnings:", &result.warnings);
    push_section(&mut lines, "Errors:", &result.errors);
    if result.confirm_required {
        push_line(&mut lines, String::new());
        push_line(&mut lines, String::from_str("Pass --confirm to proceed."));
    }
    assert(view_each(lines@) =~= reset_lines(result@));
    join(&lines, "\n")
}

} // verus!
