//! Templates: which repositories a forest is made from, and where and how.

use crate::paths::{
    expand_tilde, expanded, file_name_of, is_absolute, opt_view, AbsolutePath, RepoName,
};
use crate::seqs::{as_index, first_where, lemma_first_where_is, lemma_first_where_none};
use crate::channel::APP_NAME;
use crate::paths::{join_text, joined_path};
use crate::text::{
    contains, decimal, digits, find_out_of_order, first_out_of_order, insert_sorted, join,
    lemma_text_lt_trans, lemma_text_order, joined, occurs_in, precedes, quote, quoted,
    starts_with, str_eq, strictly_sorted, text_lt,
};
use crate::seqs::{lemma_view_each_push, view_each};
use vstd::prelude::*;
use vstd::string::*;

verus! {

/// The placeholder that a feature branch template holds for the forest's name.
pub open spec fn name_placeholder() -> Seq<char> {
    seq!['{', 'n', 'a', 'm', 'e', '}']
}

/// The view of an optional owned string.
pub open spec fn opt_text(s: Option<String>) -> Option<Seq<char>> {
    match s {
        Some(x) => Some(x@),
        None => None,
    }
}

/// Whether updates are looked for.
#[derive(Debug, Clone, Copy, PartialEq, Eq, Structural)]
pub struct VersionCheckConfig {
    pub enabled: bool,
}

/// Looking for updates is on unless the configuration says otherwise.
pub fn default_true() -> (r: bool)
    ensures
        r,
{
    true
}

/// A repository as the configuration file gives it.
#[derive(Debug)]
pub struct RepoConfig {
    pub path: String,
    pub name: Option<String>,
    pub base_branch: Option<String>,
    pub remote: Option<String>,
}

/// The mathematical content of a [`RepoConfig`].
pub struct RepoConfigView {
    pub path: Seq<char>,
    pub name: Option<Seq<char>>,
    pub base_branch: Option<Seq<char>>,
    pub remote: Option<Seq<char>>,
}

impl View for RepoConfig {
    type V = RepoConfigView;

    open spec fn view(&self) -> RepoConfigView {
        RepoConfigView {
            path: self.path@,
            name: opt_text(self.name),
            base_branch: opt_text(self.base_branch),
            remote: opt_text(self.remote),
        }
    }
}

/// A template as the configuration file gives it.
#[derive(Debug)]
pub struct TemplateConfig {
    pub worktree_base: String,
    pub base_branch: String,
    pub feature_branch_template: String,
    pub repos: Vec<RepoConfig>,
}

/// The mathematical content of a [`TemplateConfig`].
pub struct TemplateConfigView {
    pub worktree_base: Seq<char>,
    pub base_branch: Seq<char>,
    pub feature_branch_template: Seq<char>,
    pub repos: Seq<RepoConfigView>,
}

impl View for TemplateConfig {
    type V = TemplateConfigView;

    open spec fn view(&self) -> TemplateConfigView {
        TemplateConfigView {
            worktree_base: self.worktree_base@,
            base_branch: self.base_branch@,
            feature_branch_template: self.feature_branch_template@,
            repos: view_each(self.repos@),
        }
    }
}

/// The configuration file: named templates, in the order of their names,
/// and which of them is the default.
#[derive(Debug)]
pub struct MultiTemplateConfig {
    pub default_template: String,
    pub template: Vec<(String, TemplateConfig)>,
    pub version_check: Option<VersionCheckConfig>,
}

/// The mathematical content of a [`MultiTemplateConfig`].
pub struct MultiTemplateConfigView {
    pub default_template: Seq<char>,
    pub template: Seq<(Seq<char>, TemplateConfigView)>,
    pub version_check: Option<VersionCheckConfig>,
}

impl View for MultiTemplateConfig {
    type V = MultiTemplateConfigView;

    open spec fn view(&self) -> MultiTemplateConfigView {
        MultiTemplateConfigView {
            default_template: self.default_template@,
            template: view_each(self.template@),
            version_check: self.version_check,
        }
    }
}

/// One source repository of a template.
#[derive(Debug)]
pub struct ResolvedRepo {
    pub path: AbsolutePath,
    pub name: RepoName,
    pub base_branch: String,
    pub remote: String,
}

/// The mathematical content of a [`ResolvedRepo`].
pub struct ResolvedRepoView {
    pub path: Seq<char>,
    pub name: Seq<char>,
    pub base_branch: Seq<char>,
    pub remote: Seq<char>,
}

impl View for ResolvedRepo {
    type V = ResolvedRepoView;

    open spec fn view(&self) -> ResolvedRepoView {
        ResolvedRepoView {
            path: self.path@,
            name: self.name@,
            base_branch: self.base_branch@,
            remote: self.remote@,
        }
    }
}

impl Clone for ResolvedRepo {
    fn clone(&self) -> (r: ResolvedRepo)
        ensures
            r@ == self@,
    {
        ResolvedRepo {
            path: self.path.clone(),
            name: self.name.clone(),
            base_branch: self.base_branch.clone(),
            remote: self.remote.clone(),
        }
    }
}

/// A template ready for use: every path absolute, every repository named.
#[derive(Debug)]
pub struct ResolvedTemplate {
    pub worktree_base: AbsolutePath,
    pub base_branch: String,
    pub feature_branch_template: String,
    pub repos: Vec<ResolvedRepo>,
}

/// The mathematical content of a [`ResolvedTemplate`].
pub struct ResolvedTemplateView {
    pub worktree_base: Seq<char>,
    pub base_branch: Seq<char>,
    pub feature_branch_template: Seq<char>,
    pub repos: Seq<ResolvedRepoView>,
}

impl View for ResolvedTemplate {
    type V = ResolvedTemplateView;

    open spec fn view(&self) -> ResolvedTemplateView {
        ResolvedTemplateView {
            worktree_base: self.worktree_base@,
            base_branch: self.base_branch@,
            feature_branch_template: self.feature_branch_template@,
            repos: view_each(self.repos@),
        }
    }
}

impl Clone for ResolvedTemplate {
    fn clone(&self) -> (r: ResolvedTemplate)
        ensures
            r@ == self@,
    {
        let mut repos: Vec<ResolvedRepo> = Vec::new();
        let mut i: usize = 0;
        while i < self.repos.len()
            invariant
                i <= self.repos.len(),
                view_each(repos@) == view_each(self.repos@).take(i as int),
            decreases self.repos.len() - i,
        {
            let c = self.repos[i].clone();
            proof {
                lemma_view_each_push(repos@, c);
                assert(view_each(self.repos@).take(i + 1) == view_each(self.repos@).take(
                    i as int,
                ).push(self.repos@[i as int]@));
            }
            repos.push(c);
            i += 1;
        }
        assert(view_each(self.repos@).take(self.repos.len() as int) == view_each(self.repos@));
        ResolvedTemplate {
            worktree_base: self.worktree_base.clone(),
            base_branch: self.base_branch.clone(),
            feature_branch_template: self.feature_branch_template.clone(),
            repos,
        }
    }
}

impl ResolvedTemplateView {
    /// Every repository's name is a relative path, so that its worktree
    /// lies inside the forest's directory.
    pub open spec fn names_relative(self) -> bool {
        forall|i: int|
            0 <= i < self.repos.len() ==> (#[trigger] self.repos[i]).name.len() > 0 && !is_absolute(
                self.repos[i].name,
            )
    }
}

impl ResolvedTemplate {
    /// Whether every repository's name is a relative path.
    pub fn names_are_relative(&self) -> (r: bool)
        ensures
            r == self@.names_relative(),
    {
        let mut i: usize = 0;
        while i < self.repos.len()
            invariant
                i <= self.repos.len(),
                forall|j: int|
                    0 <= j < i ==> (#[trigger] self@.repos[j]).name.len() > 0 && !is_absolute(
                        self@.repos[j].name,
                    ),
            decreases self.repos.len() - i,
        {
            assert(self@.repos[i as int] == self.repos@[i as int]@);
            let name = self.repos[i].name.as_str();
            proof {
                reveal_strlit("/");
            }
            if starts_with(name, "/") {
                assert(name@[0] == "/"@[0]);
                return false;
            }
            assert(!is_absolute(name@)) by {
                if is_absolute(name@) {
                    assert("/"@ =~= name@.subrange(0, 1));
                }
            }
            i += 1;
        }
        true
    }
}

/// The configuration, resolved: named templates in the order of their
/// names, and which of them is the default.
#[derive(Debug)]
pub struct ResolvedConfig {
    pub default_template: String,
    pub templates: Vec<(String, ResolvedTemplate)>,
    pub version_check: Option<VersionCheckConfig>,
}

/// The mathematical content of a [`ResolvedConfig`].
pub struct ResolvedConfigView {
    pub default_template: Seq<char>,
    pub templates: Seq<(Seq<char>, ResolvedTemplateView)>,
    pub version_check: Option<VersionCheckConfig>,
}

impl View for ResolvedConfig {
    type V = ResolvedConfigView;

    open spec fn view(&self) -> ResolvedConfigView {
        ResolvedConfigView {
            default_template: self.default_template@,
            templates: view_each(self.templates@),
            version_check: self.version_check,
        }
    }
}

/// The reasons for which a configuration is refused.
#[derive(Debug, Clone, Copy, PartialEq, Eq, Structural)]
pub enum ConfigErrorKind {
    /// A template's worktree base is not an absolute path.
    InvalidWorktreeBase,
    /// A template has no repository.
    NoRepos,
    /// A template's branch pattern lacks the placeholder.
    MissingPlaceholder,
    /// A repository's path is not an absolute path.
    InvalidRepoPath,
    /// A repository has no name and its path gives none.
    EmptyRepoName,
    /// Two repositories of a template have the same name.
    DuplicateRepoName,
    /// The default template is none of the templates.
    DefaultTemplateMissing,
    /// There is no template at all.
    NoTemplates,
    /// There is no template of the name asked for.
    TemplateNotFound,
    /// There is no configuration file.
    NotFound,
    /// No directory for the configuration can be determined.
    NoDirectory,
    /// The templates are not given once each, in the order of their names.
    TemplatesOutOfOrder,
}

/// Why a configuration was refused: the reason, and the text for the user.
#[derive(Debug)]
pub struct ConfigError {
    pub kind: ConfigErrorKind,
    pub message: String,
}

/// The mathematical content of a [`ConfigError`].
pub struct ConfigErrorView {
    pub kind: ConfigErrorKind,
    pub message: Seq<char>,
}

impl View for ConfigError {
    type V = ConfigErrorView;

    open spec fn view(&self) -> ConfigErrorView {
        ConfigErrorView { kind: self.kind, message: self.message@ }
    }
}

/// The name of a repository: the one given, else the final component of
/// its path, else none.
pub open spec fn derived_name(rc: RepoConfigView, home: Option<Seq<char>>) -> Seq<char> {
    match rc.name {
        Some(n) => n,
        None => match expanded(rc.path, home) {
            Ok(p) => match file_name_of(p) {
                Some(f) => f,
                None => Seq::empty(),
            },
            Err(_) => Seq::empty(),
        },
    }
}

/// Whether a repository before repository `i` has the same name.
pub open spec fn name_taken(repos: Seq<RepoConfigView>, home: Option<Seq<char>>, i: int) -> bool {
    exists|j: int|
        0 <= j < i && derived_name(#[trigger] repos[j], home) == derived_name(repos[i], home)
}

/// The beginning of every error about a template.
pub open spec fn template_prefix(tname: Seq<char>) -> Seq<char> {
    "template "@ + quoted(tname)
}

/// Repository `i` of a template, resolved, or why it is refused.
pub open spec fn repo_resolved(
    tname: Seq<char>,
    tc: TemplateConfigView,
    home: Option<Seq<char>>,
    i: int,
) -> Result<ResolvedRepoView, ConfigErrorView> {
    let rc = tc.repos[i];
    let name = derived_name(rc, home);
    match expanded(rc.path, home) {
        Err(e) => Err(
            ConfigErrorView {
                kind: ConfigErrorKind::InvalidRepoPath,
                message: template_prefix(tname) + ": invalid repo path: "@ + e.message(),
            },
        ),
        Ok(path) => if name.len() == 0 {
            Err(
                ConfigErrorView {
                    kind: ConfigErrorKind::EmptyRepoName,
                    message: template_prefix(tname) + ": repo has empty name (path: "@ + path
                        + "): repo name must not be empty"@,
                },
            )
        } else if name_taken(tc.repos, home, i) {
            Err(
                ConfigErrorView {
                    kind: ConfigErrorKind::DuplicateRepoName,
                    message: template_prefix(tname) + ": duplicate repo name: "@ + name,
                },
            )
        } else {
            Ok(
                ResolvedRepoView {
                    path,
                    name,
                    base_branch: match rc.base_branch {
                        Some(b) => b,
                        None => tc.base_branch,
                    },
                    remote: match rc.remote {
                        Some(r) => r,
                        None => "origin"@,
                    },
                },
            )
        },
    }
}

/// The first repository of a template that is refused.
pub open spec fn first_bad_repo(tname: Seq<char>, tc: TemplateConfigView, home: Option<Seq<char>>)
    -> Option<int> {
    first_where(tc.repos.len(), |i: int| repo_resolved(tname, tc, home, i) is Err)
}

/// A template, resolved, or why it is refused. The checks come in this
/// order: the worktree base is absolute; there is a repository; the branch
/// pattern holds the placeholder; then each repository in turn.
pub open spec fn template_resolved(
    tname: Seq<char>,
    tc: TemplateConfigView,
    home: Option<Seq<char>>,
) -> Result<ResolvedTemplateView, ConfigErrorView> {
    match expanded(tc.worktree_base, home) {
        Err(e) => Err(
            ConfigErrorView {
                kind: ConfigErrorKind::InvalidWorktreeBase,
                message: template_prefix(tname) + ": invalid worktree_base: "@ + e.message(),
            },
        ),
        Ok(base) => if tc.repos.len() == 0 {
            Err(
                ConfigErrorView {
                    kind: ConfigErrorKind::NoRepos,
                    message: template_prefix(tname) + ": must have at least one repo"@,
                },
            )
        } else if !occurs_in(name_placeholder(), tc.feature_branch_template) {
            Err(
                ConfigErrorView {
                    kind: ConfigErrorKind::MissingPlaceholder,
                    message: template_prefix(tname)
                        + ": feature_branch_template must contain {name}"@,
                },
            )
        } else if first_bad_repo(tname, tc, home) is Some {
            Err(repo_resolved(tname, tc, home, first_bad_repo(tname, tc, home)->0)->Err_0)
        } else {
            Ok(
                ResolvedTemplateView {
                    worktree_base: base,
                    base_branch: tc.base_branch,
                    feature_branch_template: tc.feature_branch_template,
                    repos: Seq::new(
                        tc.repos.len(),
                        |i: int| repo_resolved(tname, tc, home, i)->Ok_0,
                    ),
                },
            )
        },
    }
}

/// The names of the templates, in order.
pub open spec fn template_names<T>(templates: Seq<(Seq<char>, T)>) -> Seq<Seq<char>> {
    Seq::new(templates.len(), |i: int| templates[i].0)
}

/// The first template called `name`.
pub open spec fn template_at<T>(templates: Seq<(Seq<char>, T)>, name: Seq<char>) -> Option<int> {
    name_at(template_names(templates), name)
}

/// The first place of `name` among `names`.
pub open spec fn name_at(names: Seq<Seq<char>>, name: Seq<char>) -> Option<int> {
    first_where(names.len(), |i: int| is_name(names, name, i))
}

/// Whether `name` stands at place `i` of `names`.
pub open spec fn is_name(names: Seq<Seq<char>>, name: Seq<char>, i: int) -> bool {
    names[i] == name
}

/// The first template of a configuration that is refused.
pub open spec fn first_bad_template(raw: MultiTemplateConfigView, home: Option<Seq<char>>)
    -> Option<int> {
    first_where(
        raw.template.len(),
        |k: int| template_resolved(raw.template[k].0, raw.template[k].1, home) is Err,
    )
}

pub open spec fn default_missing_text(name: Seq<char>, available: Seq<Seq<char>>) -> Seq<char> {
    "default_template "@ + quoted(name) + " not found in config\n  hint: available templates: "@
        + joined(available, ", "@)
        + "\n  hint: edit config to fix default_template, or run `git forest init --template "@
        + name + " ...`"@
}

pub open spec fn out_of_place_text(name: Seq<char>) -> Seq<char> {
    template_prefix(name)
        + ": out of place\n  hint: give each template once, in the order of the names"@
}

/// The templates stand once each, in the order of their names in the
/// dictionary: what a map from names to templates is, written as a list.
pub open spec fn in_order<T>(templates: Seq<(Seq<char>, T)>) -> bool {
    strictly_sorted(template_names(templates))
}

/// A configuration, resolved, or why it is refused. The templates must
/// stand once each, in the order of their names. Then the first template
/// that is refused decides; with all resolved, the default must be one of
/// them.
pub open spec fn config_resolved(raw: MultiTemplateConfigView, home: Option<Seq<char>>) -> Result<
    ResolvedConfigView,
    ConfigErrorView,
> {
    let bad = first_bad_template(raw, home);
    let misplaced = first_out_of_order(template_names(raw.template));
    if misplaced is Some {
        Err(
            ConfigErrorView {
                kind: ConfigErrorKind::TemplatesOutOfOrder,
                message: out_of_place_text(raw.template[misplaced->0].0),
            },
        )
    } else if bad is Some {
        Err(template_resolved(raw.template[bad->0].0, raw.template[bad->0].1, home)->Err_0)
    } else if template_at(raw.template, raw.default_template) is None {
        Err(
            ConfigErrorView {
                kind: ConfigErrorKind::DefaultTemplateMissing,
                message: default_missing_text(raw.default_template, template_names(raw.template)),
            },
        )
    } else {
        Ok(
            ResolvedConfigView {
                default_template: raw.default_template,
                templates: Seq::new(
                    raw.template.len(),
                    |k: int|
                        (
                            raw.template[k].0,
                            template_resolved(raw.template[k].0, raw.template[k].1, home)->Ok_0,
                        ),
                ),
                version_check: raw.version_check,
            },
        )
    }
}

impl ResolvedTemplateView {
    /// What holds of every template that was resolved: its worktree base
    /// and the paths of its repositories are absolute, its branch pattern
    /// holds the placeholder, and it has at least one repository, each with
    /// a name, no two with the same.
    pub open spec fn valid(self) -> bool {
        &&& is_absolute(self.worktree_base)
        &&& occurs_in(name_placeholder(), self.feature_branch_template)
        &&& self.repos.len() > 0
        &&& forall|i: int|
            0 <= i < self.repos.len() ==> is_absolute((#[trigger] self.repos[i]).path)
                && self.repos[i].name.len() > 0
        &&& forall|i: int, j: int|
            0 <= i < j < self.repos.len() ==> (#[trigger] self.repos[i]).name != (
            #[trigger] self.repos[j]).name
    }
}

/// A template that is resolved is valid, and keeps what the file gave for
/// its branches.
pub proof fn law_resolved_template_is_valid(
    tname: Seq<char>,
    tc: TemplateConfigView,
    home: Option<Seq<char>>,
)
    ensures
        template_resolved(tname, tc, home) matches Ok(t) ==> t.valid() && t.repos.len()
            == tc.repos.len() && t.base_branch == tc.base_branch && t.feature_branch_template
            == tc.feature_branch_template,
{
    if template_resolved(tname, tc, home) is Ok {
        let t = template_resolved(tname, tc, home)->Ok_0;
        let p = |i: int| repo_resolved(tname, tc, home, i) is Err;
        crate::seqs::lemma_first_where(tc.repos.len(), p);
        assert forall|i: int| 0 <= i < t.repos.len() implies is_absolute(
            (#[trigger] t.repos[i]).path,
        ) && t.repos[i].name.len() > 0 && t.repos[i].name == derived_name(tc.repos[i], home) by {
            assert(!p(i));
        }
        assert forall|i: int, j: int| 0 <= i < j < t.repos.len() implies (#[trigger] t.repos[i]).name
            != (#[trigger] t.repos[j]).name by {
            assert(!p(j));
            assert(!p(i));
            assert(!name_taken(tc.repos, home, j));
            assert(derived_name(tc.repos[i], home) != derived_name(tc.repos[j], home));
        }
    }
}

/// A configuration that is resolved has its templates under the names that
/// the file gives them, each valid, and its default is one of them.
pub proof fn law_resolved_config_is_valid(
    raw: MultiTemplateConfigView,
    home: Option<Seq<char>>,
    k: int,
)
    requires
        config_resolved(raw, home) is Ok,
        0 <= k < raw.template.len(),
    ensures
        ({
            let c = config_resolved(raw, home)->Ok_0;
            &&& c.templates.len() == raw.template.len()
            &&& c.templates[k].0 == raw.template[k].0
            &&& c.templates[k].1.valid()
            &&& c.default_template == raw.default_template
            &&& c.version_check == raw.version_check
            &&& c.chosen(None) is Ok
            &&& in_order(c.templates)
        }),
{
    crate::text::lemma_in_order(template_names(raw.template));
    assert(template_names(config_resolved(raw, home)->Ok_0.templates) =~= template_names(
        raw.template,
    ));
    let p = |j: int| template_resolved(raw.template[j].0, raw.template[j].1, home) is Err;
    crate::seqs::lemma_first_where(raw.template.len(), p);
    assert(!p(k));
    law_resolved_template_is_valid(raw.template[k].0, raw.template[k].1, home);
    let c = config_resolved(raw, home)->Ok_0;
    lemma_template_at(raw.template, raw.default_template);
    let at = template_at(raw.template, raw.default_template)->0;
    assert(c.templates[at].0 == raw.template[at].0);
    lemma_template_at(c.templates, c.default_template);
}

/// What `template_at` finds is the first template of the name, and it
/// finds nothing only where no template has the name.
pub proof fn lemma_template_at<T>(templates: Seq<(Seq<char>, T)>, name: Seq<char>)
    ensures
        match template_at(templates, name) {
            Some(i) => 0 <= i < templates.len() && templates[i].0 == name,
            None => forall|j: int| 0 <= j < templates.len() ==> (#[trigger] templates[j]).0 != name,
        },
{
    let names = template_names(templates);
    lemma_name_at(names, name);
    if template_at(templates, name) is None {
        assert forall|j: int| 0 <= j < templates.len() implies (#[trigger] templates[j]).0
            != name by {
            assert(names[j] != name);
        }
    }
}

/// What `name_at` finds is a place of the name, and it finds nothing only
/// where the name has no place.
pub proof fn lemma_name_at(names: Seq<Seq<char>>, name: Seq<char>)
    ensures
        match name_at(names, name) {
            Some(i) => 0 <= i < names.len() && names[i] == name,
            None => forall|j: int| 0 <= j < names.len() ==> #[trigger] names[j] != name,
        },
{
    let p = |i: int| is_name(names, name, i);
    crate::seqs::lemma_first_where(names.len(), p);
    if name_at(names, name) is None {
        assert forall|j: int| 0 <= j < names.len() implies #[trigger] names[j] != name by {
            assert(!p(j));
        }
    }
}

fn config_error(kind: ConfigErrorKind, message: String) -> (r: ConfigError)
    ensures
        r@ == (ConfigErrorView { kind, message: message@ }),
{
    ConfigError { kind, message }
}

fn prefix_of(tname: &str) -> (r: String)
    ensures
        r@ == template_prefix(tname@),
{
    let mut s = String::from_str("template ");
    s.append(quote(tname).as_str());
    s
}

fn opt_or(value: &Option<String>, fallback: &str) -> (r: String)
    ensures
        r@ == match opt_text(*value) {
            Some(v) => v,
            None => fallback@,
        },
{
    match value {
        Some(v) => v.clone(),
        None => String::from_str(fallback),
    }
}

#[verifier::loop_isolation(false)]
fn resolve_repo(
    tname: &str,
    tc: &TemplateConfig,
    home: Option<&str>,
    names: &Vec<String>,
    i: usize,
) -> (r: Result<ResolvedRepo, ConfigError>)
    requires
        i < tc.repos.len(),
        names.len() == i,
        forall|j: int|
            0 <= j < i ==> (#[trigger] names@[j])@ == derived_name(tc@.repos[j], opt_view(home)),
    ensures
        match r {
            Ok(repo) => repo_resolved(tname@, tc@, opt_view(home), i as int) == Ok::<
                ResolvedRepoView,
                ConfigErrorView,
            >(repo@) && repo@.name == derived_name(tc@.repos[i as int], opt_view(home)),
            Err(e) => repo_resolved(tname@, tc@, opt_view(home), i as int) == Err::<
                ResolvedRepoView,
                ConfigErrorView,
            >(e@),
        },
{
    let rc = &tc.repos[i];
    assert(tc@.repos[i as int] == rc@);
    let path = match expand_tilde(rc.path.as_str(), home) {
        Ok(p) => p,
        Err(e) => {
            let mut s = prefix_of(tname);
            s.append(": invalid repo path: ");
            s.append(e.message().as_str());
            return Err(config_error(ConfigErrorKind::InvalidRepoPath, s));
        },
    };
    let name_str = match &rc.name {
        Some(n) => n.clone(),
        None => match path.file_name() {
            Some(f) => f,
            None => String::new(),
        },
    };
    assert(name_str@ == derived_name(rc@, opt_view(home)));
    let name = match RepoName::new(name_str) {
        Ok(n) => n,
        Err(e) => {
            let mut s = prefix_of(tname);
            s.append(": repo has empty name (path: ");
            s.append(path.as_str());
            s.append("): repo name must not be empty");
            return Err(config_error(ConfigErrorKind::EmptyRepoName, s));
        },
    };
    let mut j: usize = 0;
    while j < names.len()
        invariant
            j <= names.len(),
            names.len() == i,
            i < tc.repos.len(),
            name@ == derived_name(tc@.repos[i as int], opt_view(home)),
            forall|k: int|
                0 <= k < i ==> (#[trigger] names@[k])@ == derived_name(
                    tc@.repos[k],
                    opt_view(home),
                ),
            forall|k: int|
                0 <= k < j ==> derived_name(#[trigger] tc@.repos[k], opt_view(home)) != name@,
        decreases names.len() - j,
    {
        assert(names@[j as int]@ == derived_name(tc@.repos[j as int], opt_view(home)));
        if str_eq(names[j].as_str(), name.as_str()) {
            assert(name_taken(tc@.repos, opt_view(home), i as int));
            let mut s = prefix_of(tname);
            s.append(": duplicate repo name: ");
            s.append(name.as_str());
            return Err(config_error(ConfigErrorKind::DuplicateRepoName, s));
        }
        j += 1;
    }
    assert(!name_taken(tc@.repos, opt_view(home), i as int));
    Ok(
        ResolvedRepo {
            path,
            name,
            base_branch: opt_or(&rc.base_branch, tc.base_branch.as_str()),
            remote: opt_or(&rc.remote, "origin"),
        },
    )
}

#[verifier::loop_isolation(false)]
fn resolve_template_config(tname: &str, tc: &TemplateConfig, home: Option<&str>) -> (r: Result<
    ResolvedTemplate,
    ConfigError,
>)
    ensures
        match r {
            Ok(t) => template_resolved(tname@, tc@, opt_view(home)) == Ok::<
                ResolvedTemplateView,
                ConfigErrorView,
            >(t@),
            Err(e) => template_resolved(tname@, tc@, opt_view(home)) == Err::<
                ResolvedTemplateView,
                ConfigErrorView,
            >(e@),
        },
{
    let worktree_base = match expand_tilde(tc.worktree_base.as_str(), home) {
        Ok(p) => p,
        Err(e) => {
            let mut s = prefix_of(tname);
            s.append(": invalid worktree_base: ");
            s.append(e.message().as_str());
            return Err(config_error(ConfigErrorKind::InvalidWorktreeBase, s));
        },
    };
    if tc.repos.len() == 0 {
        let mut s = prefix_of(tname);
        s.append(": must have at least one repo");
        return Err(config_error(ConfigErrorKind::NoRepos, s));
    }
    proof {
        reveal_strlit("{name}");
    }
    assert("{name}"@ =~= name_placeholder());
    if !contains(tc.feature_branch_template.as_str(), "{name}") {
        let mut s = prefix_of(tname);
        s.append(": feature_branch_template must contain {name}");
        return Err(config_error(ConfigErrorKind::MissingPlaceholder, s));
    }
    let ghost h = opt_view(home);
    let ghost p = |i: int| repo_resolved(tname@, tc@, h, i) is Err;
    let mut repos: Vec<ResolvedRepo> = Vec::new();
    let mut names: Vec<String> = Vec::new();
    let mut i: usize = 0;
    while i < tc.repos.len()
        invariant
            i <= tc.repos.len(),
            names.len() == i,
            forall|j: int| 0 <= j < i ==> (#[trigger] names@[j])@ == derived_name(tc@.repos[j], h),
            forall|k: int| 0 <= k < i ==> !#[trigger] p(k),
            view_each(repos@) == Seq::new(
                i as nat,
                |k: int| repo_resolved(tname@, tc@, h, k)->Ok_0,
            ),
        decreases tc.repos.len() - i,
    {
        match resolve_repo(tname, tc, home, &names, i) {
            Ok(repo) => {
                proof {
                    assert(!p(i as int));
                    lemma_view_each_push(repos@, repo);
                    assert(Seq::new((i + 1) as nat, |k: int| repo_resolved(tname@, tc@, h, k)->Ok_0)
                        =~= Seq::new(i as nat, |k: int| repo_resolved(tname@, tc@, h, k)->Ok_0).push(
                        repo@,
                    ));
                }
                names.push(repo.name.display());
                repos.push(repo);
            },
            Err(e) => {
                proof {
                    assert(p(i as int));
                    lemma_first_where_is(tc@.repos.len(), p, i as int);
                }
                return Err(e);
            },
        }
        i += 1;
    }
    proof {
        lemma_first_where_none(tc@.repos.len(), p);
    }
    Ok(
        ResolvedTemplate {
            worktree_base,
            base_branch: tc.base_branch.clone(),
            feature_branch_template: tc.feature_branch_template.clone(),
            repos,
        },
    )
}

fn names_of_raw(templates: &Vec<(String, TemplateConfig)>) -> (r: Vec<String>)
    ensures
        view_each(r@) == template_names(view_each(templates@)),
{
    let mut out: Vec<String> = Vec::new();
    let mut i: usize = 0;
    while i < templates.len()
        invariant
            i <= templates.len(),
            view_each(out@) == template_names(view_each(templates@)).take(i as int),
        decreases templates.len() - i,
    {
        let n = templates[i].0.clone();
        proof {
            lemma_view_each_push(out@, n);
            assert(template_names(view_each(templates@)).take(i + 1) == template_names(
                view_each(templates@),
            ).take(i as int).push(templates@[i as int]@.0));
        }
        out.push(n);
        i += 1;
    }
    assert(template_names(view_each(templates@)).take(templates.len() as int) == template_names(
        view_each(templates@),
    ));
    out
}

fn find_raw(templates: &Vec<(String, TemplateConfig)>, name: &str) -> (r: Option<usize>)
    ensures
        as_index(r) == template_at(view_each(templates@), name@),
        r matches Some(i) ==> i < templates.len(),
{
    let ghost ts = view_each(templates@);
    let ghost ns = template_names(ts);
        let ghost p = |i: int| is_name(ns, name@, i);
    let mut i: usize = 0;
    while i < templates.len()
        invariant
            i <= templates.len(),
            ts == view_each(templates@),
            ns == template_names(ts),
                p == |i: int| is_name(ns, name@, i),
            forall|k: int| 0 <= k < i ==> !#[trigger] p(k),
        decreases templates.len() - i,
    {
        assert(ts[i as int] == templates@[i as int]@);
        if str_eq(templates[i].0.as_str(), name) {
            proof {
                assert(p(i as int));
                lemma_first_where_is(ts.len(), p, i as int);
            }
            return Some(i);
        }
        assert(!p(i as int));
        i += 1;
    }
    proof {
        lemma_first_where_none(ts.len(), p);
    }
    None
}

/// Resolves a configuration as read from its file: expands and checks every
/// path, names every repository, and checks each template and the default.
/// The templates come once each, in the order of their names, as a map
/// hands them out; a list that is not so is refused, and the list of a
/// resolved configuration is. `home` is the home directory, if one is
/// known.
#[verifier::loop_isolation(false)]
pub fn parse_config(raw: &MultiTemplateConfig, home: Option<&str>) -> (r: Result<
    ResolvedConfig,
    ConfigError,
>)
    ensures
        match r {
            Ok(c) => config_resolved(raw@, opt_view(home)) == Ok::<
                ResolvedConfigView,
                ConfigErrorView,
            >(c@),
            Err(e) => config_resolved(raw@, opt_view(home)) == Err::<
                ResolvedConfigView,
                ConfigErrorView,
            >(e@),
        },
{
    let names = names_of_raw(&raw.template);
    match find_out_of_order(&names) {
        Some(k) => {
            assert(raw@.template[k as int] == raw.template@[k as int]@);
            let mut s = prefix_of(raw.template[k].0.as_str());
            s.append(": out of place\n  hint: give each template once, in the order of the names");
            return Err(config_error(ConfigErrorKind::TemplatesOutOfOrder, s));
        },
        None => {},
    }
    let ghost h = opt_view(home);
    let ghost p = |k: int| template_resolved(raw@.template[k].0, raw@.template[k].1, h) is Err;
    let mut templates: Vec<(String, ResolvedTemplate)> = Vec::new();
    let mut k: usize = 0;
    while k < raw.template.len()
        invariant
            k <= raw.template.len(),
            forall|j: int| 0 <= j < k ==> !#[trigger] p(j),
            view_each(templates@) == Seq::new(
                k as nat,
                |j: int|
                    (
                        raw@.template[j].0,
                        template_resolved(raw@.template[j].0, raw@.template[j].1, h)->Ok_0,
                    ),
            ),
        decreases raw.template.len() - k,
    {
        let entry = &raw.template[k];
        assert(raw@.template[k as int] == entry@);
        match resolve_template_config(entry.0.as_str(), &entry.1, home) {
            Ok(t) => {
                let item = (entry.0.clone(), t);
                proof {
                    assert(!p(k as int));
                    lemma_view_each_push(templates@, item);
                    assert(Seq::new(
                        (k + 1) as nat,
                        |j: int|
                            (
                                raw@.template[j].0,
                                template_resolved(raw@.template[j].0, raw@.template[j].1, h)->Ok_0,
                            ),
                    ) =~= Seq::new(
                        k as nat,
                        |j: int|
                            (
                                raw@.template[j].0,
                                template_resolved(raw@.template[j].0, raw@.template[j].1, h)->Ok_0,
                            ),
                    ).push(item@));
                }
                templates.push(item);
            },
            Err(e) => {
                proof {
                    assert(p(k as int));
                    lemma_first_where_is(raw@.template.len(), p, k as int);
                }
                return Err(e);
            },
        }
        k += 1;
    }
    proof {
        lemma_first_where_none(raw@.template.len(), p);
    }
    if find_raw(&raw.template, raw.default_template.as_str()).is_none() {
        let mut s = String::from_str("default_template ");
        s.append(quote(raw.default_template.as_str()).as_str());
        s.append(" not found in config\n  hint: available templates: ");
        let names = names_of_raw(&raw.template);
        s.append(join(&names, ", ").as_str());
        s.append(
            "\n  hint: edit config to fix default_template, or run `git forest init --template ",
        );
        s.append(raw.default_template.as_str());
        s.append(" ...`");
        return Err(config_error(ConfigErrorKind::DefaultTemplateMissing, s));
    }
    Ok(
        ResolvedConfig {
            default_template: raw.default_template.clone(),
            templates,
            version_check: raw.version_check,
        },
    )
}

pub open spec fn no_templates_text() -> Seq<char> {
    "no templates configured\n  hint: run `git forest init --repo <path> ...` to create one"@
}

pub open spec fn template_not_found_text(key: Seq<char>, available: Seq<Seq<char>>) -> Seq<char> {
    "template "@ + quoted(key) + " not found\n  hint: available templates: "@ + joined(
        available,
        ", "@,
    )
}

impl ResolvedConfigView {
    /// Which template a request gets: the one named, or the default where
    /// none is named; or why it gets none.
    pub open spec fn chosen(self, name: Option<Seq<char>>) -> Result<int, ConfigErrorView> {
        let key = match name {
            Some(n) => n,
            None => self.default_template,
        };
        if self.templates.len() == 0 {
            Err(ConfigErrorView { kind: ConfigErrorKind::NoTemplates, message: no_templates_text() })
        } else {
            match template_at(self.templates, key) {
                Some(i) => Ok(i),
                None => Err(
                    ConfigErrorView {
                        kind: ConfigErrorKind::TemplateNotFound,
                        message: template_not_found_text(key, template_names(self.templates)),
                    },
                ),
            }
        }
    }

    /// Whether `base` is the worktree base of some template.
    pub open spec fn has_base(self, base: Seq<char>) -> bool {
        exists|i: int|
            0 <= i < self.templates.len() && (#[trigger] self.templates[i]).1.worktree_base == base
    }
}

impl ResolvedConfig {
    /// The template called `name`, or the default one where no name is
    /// given.
    #[verifier::loop_isolation(false)]
    pub fn resolve_template(&self, name: Option<&str>) -> (r: Result<&ResolvedTemplate, ConfigError>)
        ensures
            match r {
                Ok(t) => self@.chosen(opt_view(name)) is Ok && 0 <= self@.chosen(opt_view(name))->Ok_0
                    < self@.templates.len() && t@ == self@.templates[self@.chosen(
                    opt_view(name),
                )->Ok_0].1,
                Err(e) => self@.chosen(opt_view(name)) == Err::<int, ConfigErrorView>(e@),
            },
    {
        if self.templates.len() == 0 {
            return Err(
                config_error(
                    ConfigErrorKind::NoTemplates,
                    String::from_str(
                        "no templates configured\n  hint: run `git forest init --repo <path> ...` to create one",
                    ),
                ),
            );
        }
        let key: &str = match name {
            Some(n) => n,
            None => self.default_template.as_str(),
        };
        let ghost ts = self@.templates;
        let ghost ns = template_names(ts);
        let ghost p = |i: int| is_name(ns, key@, i);
        let mut i: usize = 0;
        while i < self.templates.len()
            invariant
                i <= self.templates.len(),
                ts == self@.templates,
                ns == template_names(ts),
                p == |i: int| is_name(ns, key@, i),
                forall|k: int| 0 <= k < i ==> !#[trigger] p(k),
            decreases self.templates.len() - i,
        {
            assert(ts[i as int] == self.templates@[i as int]@);
            if str_eq(self.templates[i].0.as_str(), key) {
                proof {
                    assert(p(i as int));
                    lemma_first_where_is(ts.len(), p, i as int);
                }
                return Ok(&self.templates[i].1);
            }
            assert(!p(i as int));
            i += 1;
        }
        proof {
            lemma_first_where_none(ts.len(), p);
        }
        let mut s = String::from_str("template ");
        s.append(quote(key).as_str());
        s.append(" not found\n  hint: available templates: ");
        let mut names: Vec<String> = Vec::new();
        let mut j: usize = 0;
        while j < self.templates.len()
            invariant
                j <= self.templates.len(),
                view_each(names@) == template_names(self@.templates).take(j as int),
            decreases self.templates.len() - j,
        {
            let n = self.templates[j].0.clone();
            proof {
                lemma_view_each_push(names@, n);
                assert(template_names(self@.templates).take(j + 1) == template_names(
                    self@.templates,
                ).take(j as int).push(self.templates@[j as int]@.0));
            }
            names.push(n);
            j += 1;
        }
        assert(template_names(self@.templates).take(self.templates.len() as int)
            == template_names(self@.templates));
        s.append(join(&names, ", ").as_str());
        Err(config_error(ConfigErrorKind::TemplateNotFound, s))
    }

    /// The worktree bases of all templates, each once, in the order of
    /// dictionaries. Bases are told apart and ordered as texts, character by
    /// character, not component by component: `/w/a-b` comes before `/w/a/b`,
    /// and `/w/a` and `/w/a/` are two bases.
    pub fn all_worktree_bases(&self) -> (r: Vec<String>)
        ensures
            strictly_sorted(view_each(r@)),
            forall|base: Seq<char>| view_each(r@).contains(base) <==> self@.has_base(base),
    {
        let mut out: Vec<String> = Vec::new();
        let mut i: usize = 0;
        while i < self.templates.len()
            invariant
                i <= self.templates.len(),
                strictly_sorted(view_each(out@)),
                forall|base: Seq<char>|
                    view_each(out@).contains(base) <==> exists|k: int|
                        0 <= k < i && (#[trigger] self@.templates[k]).1.worktree_base == base,
            decreases self.templates.len() - i,
        {
            let ghost before = view_each(out@);
            assert(self@.templates[i as int] == self.templates@[i as int]@);
            insert_sorted(&mut out, self.templates[i].1.worktree_base.as_str());
            proof {
                let x = self@.templates[i as int].1.worktree_base;
                assert forall|base: Seq<char>| view_each(out@).contains(base) <==> exists|k: int|
                    0 <= k < i + 1 && (#[trigger] self@.templates[k]).1.worktree_base
                        == base by {
                    if before.contains(base) {
                        let k = choose|k: int|
                            0 <= k < i && (#[trigger] self@.templates[k]).1.worktree_base == base;
                        assert(0 <= k < i + 1);
                    }
                    if exists|k: int|
                        0 <= k < i + 1 && (#[trigger] self@.templates[k]).1.worktree_base == base {
                        let k = choose|k: int|
                            0 <= k < i + 1 && (#[trigger] self@.templates[k]).1.worktree_base
                                == base;
                        if k < i {
                            assert(before.contains(base));
                        }
                    }
                }
            }
            i += 1;
        }
        out
    }
}

/// The directory that the rules of XDG give: under the directory that the
/// environment names, if it names one; else under the home directory, at
/// `default_suffix`; else the fallback, if there is one.
pub open spec fn xdg_dir_of(
    named: Option<Seq<char>>,
    home: Option<Seq<char>>,
    default_suffix: Seq<char>,
    fallback: Option<Seq<char>>,
) -> Option<Seq<char>> {
    if named is Some && named->0.len() > 0 {
        Some(joined_path(named->0, APP_NAME@))
    } else if home is Some {
        Some(joined_path(joined_path(home->0, default_suffix), APP_NAME@))
    } else {
        fallback
    }
}

fn xdg_dir(
    named: Option<&str>,
    home: Option<&str>,
    default_suffix: &str,
    fallback: Option<&str>,
) -> (r: Result<String, ConfigError>)
    ensures
        match r {
            Ok(d) => xdg_dir_of(opt_view(named), opt_view(home), default_suffix@, opt_view(fallback))
                == Some(d@),
            Err(e) => xdg_dir_of(
                opt_view(named),
                opt_view(home),
                default_suffix@,
                opt_view(fallback),
            ) is None && e@ == (ConfigErrorView {
                kind: ConfigErrorKind::NoDirectory,
                message: "could not determine config directory"@,
            }),
        },
{
    match named {
        Some(n) => {
            if n.unicode_len() > 0 {
                return Ok(join_text(n, APP_NAME));
            }
        },
        None => {},
    }
    match home {
        Some(h) => {
            let d = join_text(h, default_suffix);
            return Ok(join_text(d.as_str(), APP_NAME));
        },
        None => {},
    }
    match fallback {
        Some(f) => Ok(String::from_str(f)),
        None => Err(
            config_error(
                ConfigErrorKind::NoDirectory,
                String::from_str("could not determine config directory"),
            ),
        ),
    }
}

/// The directory of the configuration: `named` is what `XDG_CONFIG_HOME`
/// holds, `home` the home directory, `fallback` what the platform offers.
pub fn xdg_config_dir(named: Option<&str>, home: Option<&str>, fallback: Option<&str>) -> (r: Result<
    String,
    ConfigError,
>)
    ensures
        r is Ok <==> xdg_dir_of(opt_view(named), opt_view(home), ".config"@, opt_view(fallback))
            is Some,
        r matches Ok(d) ==> Some(d@) == xdg_dir_of(
            opt_view(named),
            opt_view(home),
            ".config"@,
            opt_view(fallback),
        ),
        r matches Err(e) ==> e@.kind == ConfigErrorKind::NoDirectory,
{
    xdg_dir(named, home, ".config", fallback)
}

/// The directory of the state: `named` is what `XDG_STATE_HOME` holds,
/// `home` the home directory, `fallback` what the platform offers.
pub fn xdg_state_dir(named: Option<&str>, home: Option<&str>, fallback: Option<&str>) -> (r: Result<
    String,
    ConfigError,
>)
    ensures
        r is Ok <==> xdg_dir_of(
            opt_view(named),
            opt_view(home),
            ".local/state"@,
            opt_view(fallback),
        ) is Some,
        r matches Ok(d) ==> Some(d@) == xdg_dir_of(
            opt_view(named),
            opt_view(home),
            ".local/state"@,
            opt_view(fallback),
        ),
        r matches Err(e) ==> e@.kind == ConfigErrorKind::NoDirectory,
{
    xdg_dir(named, home, ".local/state", fallback)
}

/// The path of the configuration file: `config.toml` in the directory of
/// the configuration.
pub fn default_config_path(named: Option<&str>, home: Option<&str>, fallback: Option<&str>) -> (r:
    Result<String, ConfigError>)
    ensures
        r is Ok <==> xdg_dir_of(opt_view(named), opt_view(home), ".config"@, opt_view(fallback))
            is Some,
        r matches Ok(p) ==> p@ == joined_path(
            xdg_dir_of(opt_view(named), opt_view(home), ".config"@, opt_view(fallback))->0,
            "config.toml"@,
        ),
        r matches Err(e) ==> e@.kind == ConfigErrorKind::NoDirectory,
{
    match xdg_config_dir(named, home, fallback) {
        Ok(d) => Ok(join_text(d.as_str(), "config.toml")),
        Err(e) => Err(e),
    }
}

pub open spec fn config_not_found_text(path: Seq<char>) -> Seq<char> {
    "config not found at "@ + path + "\n  hint: run `git forest init` to create one"@
}

/// The configuration in force: what the file at `path` holds, resolved.
/// `found` is what was read there, if the file exists.
pub fn load_default_config(path: &str, found: Option<&MultiTemplateConfig>, home: Option<&str>) -> (r:
    Result<ResolvedConfig, ConfigError>)
    ensures
        match found {
            None => r matches Err(e) && e@ == (ConfigErrorView {
                kind: ConfigErrorKind::NotFound,
                message: config_not_found_text(path@),
            }),
            Some(raw) => match r {
                Ok(c) => config_resolved(raw@, opt_view(home)) == Ok::<
                    ResolvedConfigView,
                    ConfigErrorView,
                >(c@),
                Err(e) => config_resolved(raw@, opt_view(home)) == Err::<
                    ResolvedConfigView,
                    ConfigErrorView,
                >(e@),
            },
        },
{
    match found {
        None => {
            let mut s = String::from_str("config not found at ");
            s.append(path);
            s.append("\n  hint: run `git forest init` to create one");
            Err(config_error(ConfigErrorKind::NotFound, s))
        },
        Some(raw) => parse_config(raw, home),
    }
}

/// A repository as the configuration file holds it after resolution: every
/// field written out.
pub open spec fn repo_written(r: ResolvedRepoView) -> RepoConfigView {
    RepoConfigView {
        path: r.path,
        name: Some(r.name),
        base_branch: Some(r.base_branch),
        remote: Some(r.remote),
    }
}

/// A template as the configuration file holds it after resolution.
pub open spec fn template_written(t: ResolvedTemplateView) -> TemplateConfigView {
    TemplateConfigView {
        worktree_base: t.worktree_base,
        base_branch: t.base_branch,
        feature_branch_template: t.feature_branch_template,
        repos: Seq::new(t.repos.len(), |i: int| repo_written(t.repos[i])),
    }
}

/// A configuration as its file holds it.
pub open spec fn config_written(c: ResolvedConfigView) -> MultiTemplateConfigView {
    MultiTemplateConfigView {
        default_template: c.default_template,
        template: Seq::new(
            c.templates.len(),
            |k: int| (c.templates[k].0, template_written(c.templates[k].1)),
        ),
        version_check: c.version_check,
    }
}

fn template_to_raw(t: &ResolvedTemplate) -> (r: TemplateConfig)
    ensures
        r@ == template_written(t@),
{
    let mut repos: Vec<RepoConfig> = Vec::new();
    let mut i: usize = 0;
    while i < t.repos.len()
        invariant
            i <= t.repos.len(),
            view_each(repos@) == Seq::new(i as nat, |j: int| repo_written(t@.repos[j])),
        decreases t.repos.len() - i,
    {
        let r = &t.repos[i];
        let item = RepoConfig {
            path: r.path.display(),
            name: Some(r.name.display()),
            base_branch: Some(r.base_branch.clone()),
            remote: Some(r.remote.clone()),
        };
        proof {
            assert(t@.repos[i as int] == r@);
            lemma_view_each_push(repos@, item);
            assert(Seq::new((i + 1) as nat, |j: int| repo_written(t@.repos[j])) =~= Seq::new(
                i as nat,
                |j: int| repo_written(t@.repos[j]),
            ).push(item@));
        }
        repos.push(item);
        i += 1;
    }
    TemplateConfig {
        worktree_base: t.worktree_base.display(),
        base_branch: t.base_branch.clone(),
        feature_branch_template: t.feature_branch_template.clone(),
        repos,
    }
}

/// What is written to the configuration file for `config`. Writing the
/// file itself, in one step that replaces the old file, is the caller's.
pub fn write_config_atomic(config: &ResolvedConfig) -> (r: MultiTemplateConfig)
    ensures
        r@ == config_written(config@),
{
    let mut template: Vec<(String, TemplateConfig)> = Vec::new();
    let mut k: usize = 0;
    while k < config.templates.len()
        invariant
            k <= config.templates.len(),
            view_each(template@) == Seq::new(
                k as nat,
                |j: int| (config@.templates[j].0, template_written(config@.templates[j].1)),
            ),
        decreases config.templates.len() - k,
    {
        let entry = &config.templates[k];
        let item = (entry.0.clone(), template_to_raw(&entry.1));
        proof {
            assert(config@.templates[k as int] == entry@);
            lemma_view_each_push(template@, item);
            assert(Seq::new(
                (k + 1) as nat,
                |j: int| (config@.templates[j].0, template_written(config@.templates[j].1)),
            ) =~= Seq::new(
                k as nat,
                |j: int| (config@.templates[j].0, template_written(config@.templates[j].1)),
            ).push(item@));
        }
        template.push(item);
        k += 1;
    }
    MultiTemplateConfig {
        default_template: config.default_template.clone(),
        template,
        version_check: config.version_check,
    }
}

/// The templates with `t` under `name`: in the place of the template of
/// that name, if there is one; else before the first template whose name
/// comes later in the order of dictionaries, or at the end.
pub open spec fn with_template(
    ts: Seq<(Seq<char>, ResolvedTemplateView)>,
    name: Seq<char>,
    t: ResolvedTemplateView,
) -> Seq<(Seq<char>, ResolvedTemplateView)> {
    match template_at(ts, name) {
        Some(i) => ts.update(i, (name, t)),
        None => match first_where(ts.len(), |i: int| text_lt(name, ts[i].0)) {
            Some(p) => ts.insert(p, (name, t)),
            None => ts.push((name, t)),
        },
    }
}

/// Putting a template under a name is what it is for a map. The templates
/// stay once each and in the order of their names; the template under the
/// name is the one put there; and every template under another name stays
/// as it was, no other name comes in, and none goes.
pub proof fn law_with_template(
    ts: Seq<(Seq<char>, ResolvedTemplateView)>,
    name: Seq<char>,
    t: ResolvedTemplateView,
    other: Seq<char>,
)
    requires
        in_order(ts),
    ensures
        in_order(with_template(ts, name, t)),
        template_at(with_template(ts, name, t), name) matches Some(i) && with_template(
            ts,
            name,
            t,
        )[i].1 == t,
        other != name ==> (template_at(with_template(ts, name, t), other) is Some <==> template_at(
            ts,
            other,
        ) is Some),
        other != name && template_at(ts, other) is Some ==> with_template(
            ts,
            name,
            t,
        )[template_at(with_template(ts, name, t), other)->0].1 == ts[template_at(ts, other)->0].1,
{
    let r = with_template(ts, name, t);
    let names = template_names(ts);
    let item = (name, t);
    lemma_template_at(ts, name);
    lemma_template_at(ts, other);
    // Where the new template stands, and how the places of the old ones move.
    let at: int = match template_at(ts, name) {
        Some(i) => i,
        None => match first_where(ts.len(), |i: int| text_lt(name, ts[i].0)) {
            Some(p) => p,
            None => ts.len() as int,
        },
    };
    let replaced = template_at(ts, name) is Some;
    let q = |i: int| text_lt(name, ts[i].0);
    crate::seqs::lemma_first_where(ts.len(), q);
    assert(0 <= at <= ts.len());
    assert(r.len() == if replaced {
        ts.len()
    } else {
        ts.len() + 1
    });
    assert(r[at] == item);
    if replaced {
        assert(r == ts.update(at, item));
    } else if at < ts.len() {
        assert(r == ts.insert(at, item));
    } else {
        assert(r == ts.push(item));
    }
    let rn = template_names(r);
    assert forall|i: int, j: int| 0 <= i < j < rn.len() implies text_lt(
        #[trigger] rn[i],
        #[trigger] rn[j],
    ) by {
        let back = |m: int| if !replaced && m > at {
            m - 1
        } else {
            m
        };
        if replaced {
            assert(rn[i] == names[i] && rn[j] == names[j]);
            assert(text_lt(names[i], names[j]));
        } else if i != at && j != at {
            assert(rn[i] == names[back(i)] && rn[j] == names[back(j)]);
            assert(text_lt(names[back(i)], names[back(j)]));
        } else if j == at {
            // Before the place of the new one no name comes after it, and
            // none is it.
            assert(rn[i] == names[i]);
            assert(!q(i));
            assert(ts[i].0 != name);
            lemma_text_order(names[i], name);
        } else {
            assert(rn[j] == names[j - 1]);
            assert(q(at));
            if j - 1 > at {
                assert(text_lt(names[at], names[j - 1]));
                lemma_text_lt_trans(name, names[at], names[j - 1]);
            }
        }
    }
    lemma_template_at(r, name);
    lemma_template_at(r, other);
    // Names are distinct, so a name has one place only.
    assert forall|i: int, j: int| 0 <= i < r.len() && 0 <= j < r.len() && r[i].0
        == r[j].0 implies i == j by {
        if i < j {
            assert(text_lt(rn[i], rn[j]));
            lemma_text_order(rn[i], rn[j]);
        } else if j < i {
            assert(text_lt(rn[j], rn[i]));
            lemma_text_order(rn[j], rn[i]);
        }
    }
    if template_at(r, name) is None {
        assert(r[at].0 == name);
    }
    if other != name {
        if template_at(ts, other) is Some {
            let k = template_at(ts, other)->0;
            let moved = if !replaced && k >= at {
                k + 1
            } else {
                k
            };
            assert(r[moved] == ts[k]);
            if template_at(r, other) is None {
                assert(r[moved].0 == other);
            }
        }
        if template_at(r, other) is Some {
            let m = template_at(r, other)->0;
            assert(m != at);
            let k = if !replaced && m > at {
                m - 1
            } else {
                m
            };
            assert(r[m] == ts[k]);
            if template_at(ts, other) is None {
                assert(ts[k].0 == other);
            }
        }
    }
}

impl ResolvedConfig {
    /// Whether there is a template called `name`.
    pub fn has_template(&self, name: &str) -> (r: bool)
        ensures
            r == template_at(self@.templates, name@) is Some,
    {
        self.find_template(name).is_some()
    }

    fn find_template(&self, name: &str) -> (r: Option<usize>)
        ensures
            as_index(r) == template_at(self@.templates, name@),
            r matches Some(i) ==> i < self.templates.len(),
    {
        let ghost ts = self@.templates;
        let ghost ns = template_names(ts);
        let ghost p = |i: int| is_name(ns, name@, i);
        let mut i: usize = 0;
        while i < self.templates.len()
            invariant
                i <= self.templates.len(),
                ts == self@.templates,
                ns == template_names(ts),
                p == |i: int| is_name(ns, name@, i),
                forall|k: int| 0 <= k < i ==> !#[trigger] p(k),
            decreases self.templates.len() - i,
        {
            assert(ts[i as int] == self.templates@[i as int]@);
            if str_eq(self.templates[i].0.as_str(), name) {
                proof {
                    assert(p(i as int));
                    lemma_first_where_is(ts.len(), p, i as int);
                }
                return Some(i);
            }
            assert(!p(i as int));
            i += 1;
        }
        proof {
            lemma_first_where_none(ts.len(), p);
        }
        None
    }

    /// Puts a template under `name`, in the place of the one of that name
    /// if there is one.
    pub fn insert_template(&mut self, name: String, t: ResolvedTemplate)
        ensures
            final(self)@.templates == with_template(old(self)@.templates, name@, t@),
            final(self)@.default_template == old(self)@.default_template,
            final(self)@.version_check == old(self)@.version_check,
    {
        let ghost ts = self@.templates;
        let found = self.find_template(name.as_str());
        let ghost item = (name@, t@);
        match found {
            Some(i) => {
                self.templates.remove(i);
                self.templates.insert(i, (name, t));
                assert(view_each(self.templates@) =~= ts.update(i as int, item));
            },
            None => {
                let ghost q = |i: int| text_lt(name@, ts[i].0);
                let mut p: usize = 0;
                while p < self.templates.len() && !precedes(
                    name.as_str(),
                    self.templates[p].0.as_str(),
                )
                    invariant
                        p <= self.templates.len(),
                        ts == self@.templates,
                        q == |i: int| text_lt(name@, ts[i].0),
                        forall|k: int| 0 <= k < p ==> !#[trigger] q(k),
                    decreases self.templates.len() - p,
                {
                    assert(ts[p as int] == self.templates@[p as int]@);
                    p += 1;
                }
                proof {
                    if p < self.templates.len() {
                        assert(ts[p as int] == self.templates@[p as int]@);
                        assert(q(p as int));
                        lemma_first_where_is(ts.len(), q, p as int);
                    } else {
                        lemma_first_where_none(ts.len(), q);
                    }
                }
                self.templates.insert(p, (name, t));
                assert(view_each(self.templates@) =~= ts.insert(p as int, item));
                assert(p == ts.len() ==> ts.insert(p as int, item) =~= ts.push(item));
            },
        }
    }
}

/// What to tell a user who may not create the configuration's directory.
/// `blocking` is the nearest directory above it that exists, `owner` the
/// user that owns it, if that could be found out.
pub open spec fn permission_hint(blocking: Option<Seq<char>>, owner: Option<u32>, me: u32) -> Seq<
    char,
> {
    match blocking {
        None => "check directory permissions"@,
        Some(dir) => match owner {
            None => dir + " is not writable"@,
            Some(uid) => if uid == 0 {
                dir + " is owned by root. Run: sudo chown $(whoami) "@ + dir
            } else if uid != me {
                dir + " is owned by another user (uid "@ + digits(uid as nat)
                    + "). Run: sudo chown $(whoami) "@ + dir
            } else {
                dir + " is not writable. Run: chmod u+w "@ + dir
            },
        },
    }
}

/// Says what keeps the configuration's directory from being created, and
/// what to do about it.
pub fn diagnose_permission_denied(blocking: Option<&str>, owner: Option<u32>, me: u32) -> (r:
    String)
    ensures
        r@ == permission_hint(opt_view(blocking), owner, me),
{
    match blocking {
        None => String::from_str("check directory permissions"),
        Some(dir) => {
            let mut s = String::from_str(dir);
            match owner {
                None => {
                    s.append(" is not writable");
                },
                Some(uid) => {
                    if uid == 0 {
                        s.append(" is owned by root. Run: sudo chown $(whoami) ");
                        s.append(dir);
                    } else if uid != me {
                        s.append(" is owned by another user (uid ");
                        s.append(decimal(uid as u64).as_str());
                        s.append("). Run: sudo chown $(whoami) ");
                        s.append(dir);
                    } else {
                        s.append(" is not writable. Run: chmod u+w ");
                        s.append(dir);
                    }
                },
            }
            s
        },
    }
}

} // verus!
