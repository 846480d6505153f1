//! Setting a template up: the inputs are checked, and the template takes
//! its place in the configuration.

use crate::config::{
    name_placeholder, with_template, ResolvedConfig, ResolvedConfigView, ResolvedRepo,
    ResolvedRepoView, ResolvedTemplate, ResolvedTemplateView,
};
use crate::paths::{expand_tilde, expanded, file_name_of, opt_view, RepoName};
use crate::seqs::{
    first_where, lemma_first_where_is, lemma_first_where_none, lemma_view_each_push, view_each,
};
use crate::text::{
    contains, decimal, digits, join, joined, occurs_in, push_line, quote, quoted, str_eq, trim,
    trimmed,
};
use vstd::prelude::*;
use vstd::string::*;

verus! {

/// A repository as the user gives it.
#[derive(Debug)]
pub struct RepoInput {
    pub path: String,
    pub name: Option<String>,
    pub base_branch: Option<String>,
}

/// The mathematical content of a [`RepoInput`].
pub struct RepoInputView {
    pub path: Seq<char>,
    pub name: Option<Seq<char>>,
    pub base_branch: Option<Seq<char>>,
}

impl View for RepoInput {
    type V = RepoInputView;

    open spec fn view(&self) -> RepoInputView {
        RepoInputView {
            path: self.path@,
            name: crate::config::opt_text(self.name),
            base_branch: crate::config::opt_text(self.base_branch),
        }
    }
}

/// What the user asked for.
#[derive(Debug)]
pub struct InitInputs {
    pub template_name: String,
    pub worktree_base: String,
    pub base_branch: String,
    pub feature_branch_template: String,
    pub repos: Vec<RepoInput>,
}

/// The mathematical content of an [`InitInputs`].
pub struct InitInputsView {
    pub template_name: Seq<char>,
    pub worktree_base: Seq<char>,
    pub base_branch: Seq<char>,
    pub feature_branch_template: Seq<char>,
    pub repos: Seq<RepoInputView>,
}

impl View for InitInputs {
    type V = InitInputsView;

    open spec fn view(&self) -> InitInputsView {
        InitInputsView {
            template_name: self.template_name@,
            worktree_base: self.worktree_base@,
            base_branch: self.base_branch@,
            feature_branch_template: self.feature_branch_template@,
            repos: view_each(self.repos@),
        }
    }
}

/// One repository of the template set up.
#[derive(Debug)]
pub struct InitRepoSummary {
    pub name: String,
    pub path: String,
    pub base_branch: String,
}

/// The mathematical content of an [`InitRepoSummary`].
pub struct InitRepoSummaryView {
    pub name: Seq<char>,
    pub path: Seq<char>,
    pub base_branch: Seq<char>,
}

impl View for InitRepoSummary {
    type V = InitRepoSummaryView;

    open spec fn view(&self) -> InitRepoSummaryView {
        InitRepoSummaryView { name: self.name@, path: self.path@, base_branch: self.base_branch@ }
    }
}

/// What setting a template up came to.
#[derive(Debug)]
pub struct InitResult {
    pub config_path: String,
    pub template_name: String,
    pub worktree_base: String,
    pub repos: Vec<InitRepoSummary>,
}

/// The mathematical content of an [`InitResult`].
pub struct InitResultView {
    pub config_path: Seq<char>,
    pub template_name: Seq<char>,
    pub worktree_base: Seq<char>,
    pub repos: Seq<InitRepoSummaryView>,
}

impl View for InitResult {
    type V = InitResultView;

    open spec fn view(&self) -> InitResultView {
        InitResultView {
            config_path: self.config_path@,
            template_name: self.template_name@,
            worktree_base: self.worktree_base@,
            repos: view_each(self.repos@),
        }
    }
}

/// What asking git about a path came to.
#[derive(Debug)]
pub enum GitCheck {
    /// The path lies in a git repository.
    IsRepo,
    /// It does not.
    NotRepo,
    /// Git could not be asked.
    Failed { error: String },
}

/// The mathematical content of a [`GitCheck`].
pub enum GitCheckView {
    IsRepo,
    NotRepo,
    Failed { error: Seq<char> },
}

impl View for GitCheck {
    type V = GitCheckView;

    open spec fn view(&self) -> GitCheckView {
        match *self {
            GitCheck::IsRepo => GitCheckView::IsRepo,
            GitCheck::NotRepo => GitCheckView::NotRepo,
            GitCheck::Failed { error } => GitCheckView::Failed { error: error@ },
        }
    }
}

/// What was found out about one repository given.
#[derive(Debug)]
pub struct InitProbe {
    /// Whether the expanded path exists.
    pub exists: bool,
    /// What git says of it. It is read only where the path exists.
    pub git: GitCheck,
}

/// The mathematical content of an [`InitProbe`].
pub struct InitProbeView {
    pub exists: bool,
    pub git: GitCheckView,
}

impl View for InitProbe {
    type V = InitProbeView;

    open spec fn view(&self) -> InitProbeView {
        InitProbeView { exists: self.exists, git: self.git@ }
    }
}

/// The reasons for which a template is not set up.
#[derive(Debug, Clone, Copy, PartialEq, Eq, Structural)]
pub enum InitErrorKind {
    NoRepos,
    MissingPlaceholder,
    EmptyTemplateName,
    PaddedTemplateName,
    InvalidPath,
    RepoMissing,
    NotARepo,
    CheckFailed,
    EmptyRepoName,
    DuplicateRepoName,
    TemplateExists,
}

/// Why a template was not set up: the reason, and the text for the user.
#[derive(Debug)]
pub struct InitError {
    pub kind: InitErrorKind,
    pub message: String,
}

/// The mathematical content of an [`InitError`].
pub struct InitErrorView {
    pub kind: InitErrorKind,
    pub message: Seq<char>,
}

impl View for InitError {
    type V = InitErrorView;

    open spec fn view(&self) -> InitErrorView {
        InitErrorView { kind: self.kind, message: self.message@ }
    }
}

/// The name of a repository given: the one given with it, else the final
/// component of its path, else none.
pub open spec fn input_name(ri: RepoInputView, home: Option<Seq<char>>) -> Seq<char> {
    match ri.name {
        Some(n) => n,
        None => match expanded(ri.path, home) {
            Ok(p) => match file_name_of(p) {
                Some(f) => f,
                None => Seq::empty(),
            },
            Err(_) => Seq::empty(),
        },
    }
}

/// Whether a repository before repository `i` has the same name.
pub open spec fn input_name_taken(repos: Seq<RepoInputView>, home: Option<Seq<char>>, i: int)
    -> bool {
    exists|j: int| 0 <= j < i && input_name(#[trigger] repos[j], home) == input_name(repos[i], home)
}

/// Repository `i` of the inputs, resolved, or why it is refused. The checks
/// come in this order: its path is absolute; it exists; it lies in a git
/// repository; it has a name; no repository before it has the same.
pub open spec fn input_resolved(
    inputs: InitInputsView,
    home: Option<Seq<char>>,
    probes: Seq<InitProbeView>,
    i: int,
) -> Result<ResolvedRepoView, InitErrorView> {
    let ri = inputs.repos[i];
    let name = input_name(ri, home);
    match expanded(ri.path, home) {
        Err(e) => Err(InitErrorView { kind: InitErrorKind::InvalidPath, message: e.message() }),
        Ok(path) => if !probes[i].exists {
            Err(
                InitErrorView {
                    kind: InitErrorKind::RepoMissing,
                    message: "repo path does not exist: "@ + path
                        + "\nHint: provide an absolute path to a git repository"@,
                },
            )
        } else if probes[i].git is NotRepo {
            Err(
                InitErrorView {
                    kind: InitErrorKind::NotARepo,
                    message: "not a git repository: "@ + path
                        + "\nHint: provide a path to a git repository"@,
                },
            )
        } else if probes[i].git is Failed {
            Err(
                InitErrorView {
                    kind: InitErrorKind::CheckFailed,
                    message: "failed to check git repo at "@ + path + ": "@
                        + probes[i].git->error,
                },
            )
        } else if name.len() == 0 {
            Err(
                InitErrorView {
                    kind: InitErrorKind::EmptyRepoName,
                    message: "repo has empty name (path: "@ + path + ")"@,
                },
            )
        } else if input_name_taken(inputs.repos, home, i) {
            Err(
                InitErrorView {
                    kind: InitErrorKind::DuplicateRepoName,
                    message: "duplicate repo name: "@ + name
                        + "\nHint: use --repo /path:custom-name to disambiguate"@,
                },
            )
        } else {
            Ok(
                ResolvedRepoView {
                    path,
                    name,
                    base_branch: match ri.base_branch {
                        Some(b) => b,
                        None => inputs.base_branch,
                    },
                    remote: "origin"@,
                },
            )
        },
    }
}

/// The first repository of the inputs that is refused.
pub open spec fn first_bad_input(
    inputs: InitInputsView,
    home: Option<Seq<char>>,
    probes: Seq<InitProbeView>,
) -> Option<int> {
    first_where(inputs.repos.len(), |i: int| input_resolved(inputs, home, probes, i) is Err)
}

/// The template that the inputs describe, or the first reason against it.
/// The checks come in this order: there is a repository; the branch pattern
/// holds the placeholder; the template's name is not blank, and has no
/// whitespace around it; the worktree base is absolute; then each
/// repository in turn.
pub open spec fn validated(
    inputs: InitInputsView,
    home: Option<Seq<char>>,
    probes: Seq<InitProbeView>,
) -> Result<ResolvedTemplateView, InitErrorView> {
    if inputs.repos.len() == 0 {
        Err(
            InitErrorView {
                kind: InitErrorKind::NoRepos,
                message: "at least one --repo is required\nHint: git forest init --feature-branch-template \"yourname/{name}\" --repo <path>"@,
            },
        )
    } else if !occurs_in(name_placeholder(), inputs.feature_branch_template) {
        Err(
            InitErrorView {
                kind: InitErrorKind::MissingPlaceholder,
                message: "--feature-branch-template must contain {name}"@,
            },
        )
    } else if trimmed(inputs.template_name).len() == 0 {
        Err(
            InitErrorView {
                kind: InitErrorKind::EmptyTemplateName,
                message: "template name must not be empty"@,
            },
        )
    } else if trimmed(inputs.template_name) != inputs.template_name {
        Err(
            InitErrorView {
                kind: InitErrorKind::PaddedTemplateName,
                message: "template name must not have leading/trailing whitespace"@,
            },
        )
    } else {
        match expanded(inputs.worktree_base, home) {
            Err(e) => Err(InitErrorView { kind: InitErrorKind::InvalidPath, message: e.message() }),
            Ok(base) => {
                let bad = first_bad_input(inputs, home, probes);
                if bad is Some {
                    Err(input_resolved(inputs, home, probes, bad->0)->Err_0)
                } else {
                    Ok(
                        ResolvedTemplateView {
                            worktree_base: base,
                            base_branch: inputs.base_branch,
                            feature_branch_template: inputs.feature_branch_template,
                            repos: Seq::new(
                                inputs.repos.len(),
                                |i: int| input_resolved(inputs, home, probes, i)->Ok_0,
                            ),
                        },
                    )
                }
            },
        }
    }
}

/// A template that the inputs are resolved to is valid.
pub proof fn law_validated_template_is_valid(
    inputs: InitInputsView,
    home: Option<Seq<char>>,
    probes: Seq<InitProbeView>,
)
    ensures
        validated(inputs, home, probes) matches Ok(t) ==> t.valid() && t.repos.len()
            == inputs.repos.len(),
{
    if validated(inputs, home, probes) is Ok {
        let t = validated(inputs, home, probes)->Ok_0;
        let p = |i: int| input_resolved(inputs, home, probes, i) is Err;
        crate::seqs::lemma_first_where(inputs.repos.len(), p);
        assert forall|i: int| 0 <= i < t.repos.len() implies crate::paths::is_absolute(
            (#[trigger] t.repos[i]).path,
        ) && t.repos[i].name.len() > 0 && t.repos[i].name == input_name(inputs.repos[i], home) by {
            assert(!p(i));
        }
        assert forall|i: int, j: int| 0 <= i < j < t.repos.len() implies (#[trigger] t.repos[i]).name
            != (#[trigger] t.repos[j]).name by {
            assert(!p(j));
            assert(!p(i));
            assert(!input_name_taken(inputs.repos, home, j));
            assert(input_name(inputs.repos[i], home) != input_name(inputs.repos[j], home));
        }
    }
}

fn init_error(kind: InitErrorKind, message: String) -> (r: InitError)
    ensures
        r@ == (InitErrorView { kind, message: message@ }),
{
    InitError { kind, message }
}

fn text3(a: &str, b: &str, c: &str) -> (r: String)
    ensures
        r@ == a@ + b@ + c@,
{
    let mut s = String::from_str(a);
    s.append(b);
    s.append(c);
    s
}

#[verifier::loop_isolation(false)]
fn resolve_input(
    inputs: &InitInputs,
    home: Option<&str>,
    probes: &Vec<InitProbe>,
    names: &Vec<String>,
    i: usize,
) -> (r: Result<ResolvedRepo, InitError>)
    requires
        i < inputs.repos.len(),
        probes.len() == inputs.repos.len(),
        names.len() == i,
        forall|j: int|
            0 <= j < i ==> (#[trigger] names@[j])@ == input_name(inputs@.repos[j], opt_view(home)),
    ensures
        match r {
            Ok(repo) => input_resolved(inputs@, opt_view(home), view_each(probes@), i as int)
                == Ok::<ResolvedRepoView, InitErrorView>(repo@) && repo@.name == input_name(
                inputs@.repos[i as int],
                opt_view(home),
            ),
            Err(e) => input_resolved(inputs@, opt_view(home), view_each(probes@), i as int)
                == Err::<ResolvedRepoView, InitErrorView>(e@),
        },
{
    let ri = &inputs.repos[i];
    let probe = &probes[i];
    assert(inputs@.repos[i as int] == ri@);
    assert(view_each(probes@)[i as int] == probe@);
    let path = match expand_tilde(ri.path.as_str(), home) {
        Ok(p) => p,
        Err(e) => {
            return Err(init_error(InitErrorKind::InvalidPath, e.message()));
        },
    };
    if !probe.exists {
        return Err(
            init_error(
                InitErrorKind::RepoMissing,
                text3(
                    "repo path does not exist: ",
                    path.as_str(),
                    "\nHint: provide an absolute path to a git repository",
                ),
            ),
        );
    }
    match &probe.git {
        GitCheck::IsRepo => {},
        GitCheck::NotRepo => {
            return Err(
                init_error(
                    InitErrorKind::NotARepo,
                    text3(
                        "not a git repository: ",
                        path.as_str(),
                        "\nHint: provide a path to a git repository",
                    ),
                ),
            );
        },
        GitCheck::Failed { error } => {
            let mut s = text3("failed to check git repo at ", path.as_str(), ": ");
            s.append(error.as_str());
            return Err(init_error(InitErrorKind::CheckFailed, s));
        },
    }
    let name_str = match &ri.name {
        Some(n) => n.clone(),
        None => match path.file_name() {
            Some(f) => f,
            None => String::new(),
        },
    };
    assert(name_str@ == input_name(ri@, opt_view(home)));
    let name = match RepoName::new(name_str) {
        Ok(n) => n,
        Err(_) => {
            return Err(
                init_error(
                    InitErrorKind::EmptyRepoName,
                    text3("repo has empty name (path: ", path.as_str(), ")"),
                ),
            );
        },
    };
    let mut j: usize = 0;
    while j < names.len()
        invariant
            j <= names.len(),
            forall|k: int|
                0 <= k < j ==> input_name(#[trigger] inputs@.repos[k], opt_view(home)) != name@,
        decreases names.len() - j,
    {
        assert(names@[j as int]@ == input_name(inputs@.repos[j as int], opt_view(home)));
        if str_eq(names[j].as_str(), name.as_str()) {
            assert(input_name_taken(inputs@.repos, opt_view(home), i as int));
            return Err(
                init_error(
                    InitErrorKind::DuplicateRepoName,
                    text3(
                        "duplicate repo name: ",
                        name.as_str(),
                        "\nHint: use --repo /path:custom-name to disambiguate",
                    ),
                ),
            );
        }
        j += 1;
    }
    assert(!input_name_taken(inputs@.repos, opt_view(home), i as int));
    Ok(
        ResolvedRepo {
            path,
            name,
            base_branch: match &ri.base_branch {
                Some(b) => b.clone(),
                None => inputs.base_branch.clone(),
            },
            remote: String::from_str("origin"),
        },
    )
}

/// Checks the inputs and resolves them to a template. `home` is the home
/// directory, if one is known; `probes` holds one entry for each
/// repository given.
#[verifier::loop_isolation(false)]
pub fn validate_init_inputs(inputs: &InitInputs, home: Option<&str>, probes: &Vec<InitProbe>) -> (r:
    Result<ResolvedTemplate, InitError>)
    requires
        probes.len() == inputs.repos.len(),
    ensures
        match r {
            Ok(t) => validated(inputs@, opt_view(home), view_each(probes@)) == Ok::<
                ResolvedTemplateView,
                InitErrorView,
            >(t@),
            Err(e) => validated(inputs@, opt_view(home), view_each(probes@)) == Err::<
                ResolvedTemplateView,
                InitErrorView,
            >(e@),
        },
{
    if inputs.repos.len() == 0 {
        return Err(
            init_error(
                InitErrorKind::NoRepos,
                String::from_str(
                    "at least one --repo is required\nHint: git forest init --feature-branch-template \"yourname/{name}\" --repo <path>",
                ),
            ),
        );
    }
    proof {
        reveal_strlit("{name}");
    }
    assert("{name}"@ =~= name_placeholder());
    if !contains(inputs.feature_branch_template.as_str(), "{name}") {
        return Err(
            init_error(
                InitErrorKind::MissingPlaceholder,
                String::from_str("--feature-branch-template must contain {name}"),
            ),
        );
    }
    let t = trim(inputs.template_name.as_str());
    if t.as_str().unicode_len() == 0 {
        return Err(
            init_error(
                InitErrorKind::EmptyTemplateName,
                String::from_str("template name must not be empty"),
            ),
        );
    }
    if !str_eq(t.as_str(), inputs.template_name.as_str()) {
        return Err(
            init_error(
                InitErrorKind::PaddedTemplateName,
                String::from_str("template name must not have leading/trailing whitespace"),
            ),
        );
    }
    let worktree_base = match expand_tilde(inputs.worktree_base.as_str(), home) {
        Ok(p) => p,
        Err(e) => {
            return Err(init_error(InitErrorKind::InvalidPath, e.message()));
        },
    };
    let ghost h = opt_view(home);
    let ghost ps = view_each(probes@);
    let ghost p = |i: int| input_resolved(inputs@, h, ps, i) is Err;
    let mut repos: Vec<ResolvedRepo> = Vec::new();
    let mut names: Vec<String> = Vec::new();
    let mut i: usize = 0;
    while i < inputs.repos.len()
        invariant
            i <= inputs.repos.len(),
            names.len() == i,
            forall|j: int| 0 <= j < i ==> (#[trigger] names@[j])@ == input_name(inputs@.repos[j], h),
            forall|k: int| 0 <= k < i ==> !#[trigger] p(k),
            view_each(repos@) == Seq::new(
                i as nat,
                |k: int| input_resolved(inputs@, h, ps, k)->Ok_0,
            ),
        decreases inputs.repos.len() - i,
    {
        match resolve_input(inputs, home, probes, &names, i) {
            Ok(repo) => {
                proof {
                    assert(!p(i as int));
                    lemma_view_each_push(repos@, repo);
                    assert(Seq::new((i + 1) as nat, |k: int| input_resolved(inputs@, h, ps, k)->Ok_0)
                        =~= Seq::new(i as nat, |k: int| input_resolved(inputs@, h, ps, k)->Ok_0).push(
                        repo@,
                    ));
                }
                names.push(repo.name.display());
                repos.push(repo);
            },
            Err(e) => {
                proof {
                    assert(p(i as int));
                    lemma_first_where_is(inputs@.repos.len(), p, i as int);
                }
                return Err(e);
            },
        }
        i += 1;
    }
    proof {
        lemma_first_where_none(inputs@.repos.len(), p);
    }
    Ok(
        ResolvedTemplate {
            worktree_base,
            base_branch: inputs.base_branch.clone(),
            feature_branch_template: inputs.feature_branch_template.clone(),
            repos,
        },
    )
}

/// The configuration that a template is put into where there is none yet:
/// no template, and the new one as the default.
pub open spec fn fresh_config(template_name: Seq<char>) -> ResolvedConfigView {
    ResolvedConfigView {
        default_template: template_name,
        templates: Seq::empty(),
        version_check: None,
    }
}

/// What is reported of a template set up.
pub open spec fn init_result_of(
    config_path: Seq<char>,
    template_name: Seq<char>,
    t: ResolvedTemplateView,
) -> InitResultView {
    InitResultView {
        config_path,
        template_name,
        worktree_base: t.worktree_base,
        repos: Seq::new(
            t.repos.len(),
            |i: int|
                InitRepoSummaryView {
                    name: t.repos[i].name,
                    path: t.repos[i].path,
                    base_branch: t.repos[i].base_branch,
                },
        ),
    }
}

pub open spec fn template_exists_text(name: Seq<char>) -> Seq<char> {
    "template "@ + quoted(name)
        + " already exists in config\n  hint: use --force to overwrite, or choose a different name"@
}

/// What setting a template up comes to: what is reported, and the
/// configuration to write. Inputs that are refused are the answer; a
/// template of the same name is replaced only if forced.
pub open spec fn initialized(
    inputs: InitInputsView,
    config_path: Seq<char>,
    force: bool,
    existing: Option<ResolvedConfigView>,
    home: Option<Seq<char>>,
    probes: Seq<InitProbeView>,
) -> Result<(InitResultView, ResolvedConfigView), InitErrorView> {
    let config = match existing {
        Some(c) => c,
        None => fresh_config(inputs.template_name),
    };
    match validated(inputs, home, probes) {
        Err(e) => Err(e),
        Ok(t) => if crate::config::template_at(config.templates, inputs.template_name) is Some
            && !force {
            Err(
                InitErrorView {
                    kind: InitErrorKind::TemplateExists,
                    message: template_exists_text(inputs.template_name),
                },
            )
        } else {
            Ok(
                (
                    init_result_of(config_path, inputs.template_name, t),
                    ResolvedConfigView {
                        templates: with_template(config.templates, inputs.template_name, t),
                        ..config
                    },
                ),
            )
        },
    }
}

/// Sets a template up. `existing` is the configuration in force, if there
/// is one. The configuration returned is to be written in its place.
pub fn cmd_init(
    inputs: &InitInputs,
    config_path: &str,
    force: bool,
    existing: Option<ResolvedConfig>,
    home: Option<&str>,
    probes: &Vec<InitProbe>,
) -> (r: Result<(InitResult, ResolvedConfig), InitError>)
    requires
        probes.len() == inputs.repos.len(),
    ensures
        match r {
            Ok(x) => initialized(
                inputs@,
                config_path@,
                force,
                match existing {
                    Some(c) => Some(c@),
                    None => None,
                },
                opt_view(home),
                view_each(probes@),
            ) == Ok::<(InitResultView, ResolvedConfigView), InitErrorView>((x.0@, x.1@)),
            Err(e) => initialized(
                inputs@,
                config_path@,
                force,
                match existing {
                    Some(c) => Some(c@),
                    None => None,
                },
                opt_view(home),
                view_each(probes@),
            ) == Err::<(InitResultView, ResolvedConfigView), InitErrorView>(e@),
        },
{
    let template = match validate_init_inputs(inputs, home, probes) {
        Ok(t) => t,
        Err(e) => {
            return Err(e);
        },
    };
    let mut config = match existing {
        Some(c) => c,
        None => {
            let templates: Vec<(String, ResolvedTemplate)> = Vec::new();
            assert(view_each(templates@) =~= Seq::<(Seq<char>, ResolvedTemplateView)>::empty());
            ResolvedConfig {
                default_template: inputs.template_name.clone(),
                templates,
                version_check: None,
            }
        },
    };
    if config.has_template(inputs.template_name.as_str()) && !force {
        return Err(
            init_error(
                InitErrorKind::TemplateExists,
                text3(
                    "template ",
                    quote(inputs.template_name.as_str()).as_str(),
                    " already exists in config\n  hint: use --force to overwrite, or choose a different name",
                ),
            ),
        );
    }
    let mut repos: Vec<InitRepoSummary> = Vec::new();
    let mut i: usize = 0;
    while i < template.repos.len()
        invariant
            i <= template.repos.len(),
            view_each(repos@) == Seq::new(
                i as nat,
                |k: int|
                    InitRepoSummaryView {
                        name: template@.repos[k].name,
                        path: template@.repos[k].path,
                        base_branch: template@.repos[k].base_branch,
                    },
            ),
        decreases template.repos.len() - i,
    {
        let r = &template.repos[i];
        let item = InitRepoSummary {
            name: r.name.display(),
            path: r.path.display(),
            base_branch: r.base_branch.clone(),
        };
        proof {
            assert(template@.repos[i as int] == r@);
            lemma_view_each_push(repos@, item);
            assert(Seq::new(
                (i + 1) as nat,
                |k: int|
                    InitRepoSummaryView {
                        name: template@.repos[k].name,
                        path: template@.repos[k].path,
                        base_branch: template@.repos[k].base_branch,
                    },
            ) =~= Seq::new(
                i as nat,
                |k: int|
                    InitRepoSummaryView {
                        name: template@.repos[k].name,
                        path: template@.repos[k].path,
                        base_branch: template@.repos[k].base_branch,
                    },
            ).push(item@));
        }
        repos.push(item);
        i += 1;
    }
    let result = InitResult {
        config_path: String::from_str(config_path),
        template_name: inputs.template_name.clone(),
        worktree_base: template.worktree_base.display(),
        repos,
    };
    config.insert_template(inputs.template_name.clone(), template);
    Ok((result, config))
}

/// The lines that tell of a template set up.
pub open spec fn init_lines(result: InitResultView) -> Seq<Seq<char>> {
    seq![
        "Config written to "@ + result.config_path,
        "Template: "@ + result.template_name,
        "Worktree base: "@ + result.worktree_base,
        "Repos ("@ + digits(result.repos.len()) + "): "@,
    ] + Seq::new(
        result.repos.len(),
        |i: int|
            "  "@ + result.repos[i].name + " ("@ + result.repos[i].path + ", base: "@
                + result.repos[i].base_branch + ")"@,
    )
}

/// Writes what setting a template up came to, for the user.
pub fn format_init_human(result: &InitResult) -> (r: String)
    ensures
        r@ == joined(init_lines(result@), "\n"@),
{
    let mut lines: Vec<String> = Vec::new();
    assert(view_each(lines@) =~= Seq::<Seq<char>>::empty());
    let mut a = String::from_str("Config written to ");
    a.append(result.config_path.as_str());
    push_line(&mut lines, a);
    let mut b = String::from_str("Template: ");
    b.append(result.template_name.as_str());
    push_line(&mut lines, b);
    let mut c = String::from_str("Worktree base: ");
    c.append(result.worktree_base.as_str());
    push_line(&mut lines, c);
    push_line(
        &mut lines,
        text3("Repos (", decimal(result.repos.len() as u64).as_str(), "): "),
    );
    let ghost head = view_each(lines@);
    let ghost body = Seq::new(
        result@.repos.len(),
        |i: int|
            "  "@ + result@.repos[i].name + " ("@ + result@.repos[i].path + ", base: "@
                + result@.repos[i].base_branch + ")"@,
    );
    let mut i: usize = 0;
    while i < result.repos.len()
        invariant
            i <= result.repos.len(),
            body == Seq::new(
                result@.repos.len(),
                |i: int|
                    "  "@ + result@.repos[i].name + " ("@ + result@.repos[i].path + ", base: "@
                        + result@.repos[i].base_branch + ")"@,
            ),
            view_each(lines@) == head + body.take(i as int),
        decreases result.repos.len() - i,
    {
        let repo = &result.repos[i];
        assert(result@.repos[i as int] == repo@);
        let mut line = String::from_str("  ");
        line.append(repo.name.as_str());
        line.append(" (");
        line.append(repo.path.as_str());
        line.append(", base: ");
        line.append(repo.base_branch.as_str());
        line.append(")");
        proof {
            assert(body.take(i + 1) == body.take(i as int).push(line@));
            assert((head + body.take(i as int)).push(line@) =~= head + body.take(i + 1));
        }
        push_line(&mut lines, line);
        i += 1;
    }
    proof {
        assert(body.take(result.repos.len() as int) == body);
        assert(head + body =~= init_lines(result@));
    }
    join(&lines, "\n")
}

} // verus!
