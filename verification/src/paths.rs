//! Validated names and absolute paths.
//!
//! Each type here wraps a string that passed a check at construction; the
//! check is a type invariant, so a value that exists is valid.

use crate::text::{
    chars_of, matches_at, quote, quoted, replace_char, starts_with, str_eq, string_of_range,
    swapped,
};
use vstd::prelude::*;
use vstd::string::*;

verus! {

/// A path is absolute when it begins at the root.
pub open spec fn is_absolute(p: Seq<char>) -> bool {
    p.len() > 0 && p[0] == '/'
}

/// `rel` adjoined to `base`: an absolute `rel` replaces `base`; otherwise the
/// two are put together with exactly one separator between them, none after
/// an empty `base` or one that already ends in a separator.
pub open spec fn joined_path(base: Seq<char>, rel: Seq<char>) -> Seq<char> {
    if is_absolute(rel) {
        rel
    } else if base.len() == 0 || base.last() == '/' {
        base + rel
    } else {
        base + seq!['/'] + rel
    }
}

/// A path lies inside a directory when it is the directory joined with a
/// non-empty relative path.
pub open spec fn inside(dir: Seq<char>, path: Seq<char>) -> bool {
    exists|rel: Seq<char>| #[trigger]
        joined_path(dir, rel) == path && rel.len() > 0 && !is_absolute(rel)
}

/// A forest name with its slashes turned into hyphens: the form that is safe
/// as a single directory name.
pub open spec fn sanitized_name(name: Seq<char>) -> Seq<char> {
    swapped(name, '/', '-')
}

/// A forest name is valid unless it is empty, `.` or `..`.
pub open spec fn valid_forest_name(name: Seq<char>) -> bool {
    name.len() > 0 && name != seq!['.'] && name != seq!['.', '.']
}

/// The marker that begins a full ref path.
pub open spec fn ref_marker() -> Seq<char> {
    seq!['r', 'e', 'f', 's', '/']
}

/// A branch name is valid for `remote` unless it is empty, begins with the
/// ref-path marker, or begins with `<remote>/`.
pub open spec fn valid_branch_name(name: Seq<char>, remote: Seq<char>) -> bool {
    &&& name.len() > 0
    &&& !ref_marker().is_prefix_of(name)
    &&& !(remote + seq!['/']).is_prefix_of(name)
}

/// Why a path or a name was refused.
#[derive(Debug)]
pub enum NameError {
    /// `~/...` was given and no home directory is known.
    HomeUnknownForPrefix,
    /// `~` was given and no home directory is known.
    HomeUnknown,
    /// The path does not begin at the root.
    NotAbsolute { path: String },
    /// A repository name is empty.
    EmptyRepoName,
    /// A forest name is empty, `.` or `..`.
    InvalidForestName { name: String },
    /// A branch name is empty.
    EmptyBranchName,
    /// A branch name begins with the ref-path marker.
    BranchIsRefPath { name: String },
    /// A branch name begins with `<remote>/`; `rest` is what follows.
    BranchIsRemoteRef { name: String, rest: String },
}

/// The mathematical content of a [`NameError`].
pub enum NameErrorView {
    HomeUnknownForPrefix,
    HomeUnknown,
    NotAbsolute { path: Seq<char> },
    EmptyRepoName,
    InvalidForestName { name: Seq<char> },
    EmptyBranchName,
    BranchIsRefPath { name: Seq<char> },
    BranchIsRemoteRef { name: Seq<char>, rest: Seq<char> },
}

impl View for NameError {
    type V = NameErrorView;

    open spec fn view(&self) -> NameErrorView {
        match *self {
            NameError::HomeUnknownForPrefix => NameErrorView::HomeUnknownForPrefix,
            NameError::HomeUnknown => NameErrorView::HomeUnknown,
            NameError::NotAbsolute { path } => NameErrorView::NotAbsolute { path: path@ },
            NameError::EmptyRepoName => NameErrorView::EmptyRepoName,
            NameError::InvalidForestName { name } => NameErrorView::InvalidForestName {
                name: name@,
            },
            NameError::EmptyBranchName => NameErrorView::EmptyBranchName,
            NameError::BranchIsRefPath { name } => NameErrorView::BranchIsRefPath { name: name@ },
            NameError::BranchIsRemoteRef { name, rest } => NameErrorView::BranchIsRemoteRef {
                name: name@,
                rest: rest@,
            },
        }
    }
}

impl NameErrorView {
    /// The text shown to the user: what was wrong and, where there is one,
    /// a hint at the remedy.
    pub open spec fn message(self) -> Seq<char> {
        match self {
            NameErrorView::HomeUnknownForPrefix => "cannot expand ~/: HOME environment variable is not set"@,
            NameErrorView::HomeUnknown => "cannot expand ~: HOME environment variable is not set"@,
            NameErrorView::NotAbsolute { path } => "path is not absolute: "@ + path,
            NameErrorView::EmptyRepoName => "repo name must not be empty"@,
            NameErrorView::InvalidForestName { name } => "invalid forest name: "@ + quoted(name)
                + "\n  hint: provide a descriptive name like \"java-84/refactor-auth\""@,
            NameErrorView::EmptyBranchName => "branch name must not be empty"@,
            NameErrorView::BranchIsRefPath { name } => "branch name "@ + quoted(name)
                + " looks like a ref path\n  hint: pass the branch name without the refs/ prefix"@,
            NameErrorView::BranchIsRemoteRef { name, rest } => "branch name "@ + quoted(name)
                + " looks like a remote ref\n  hint: pass the branch name without the remote prefix: "@
                + quoted(rest),
        }
    }
}

impl NameError {
    /// The text shown to the user.
    pub fn message(&self) -> (r: String)
        ensures
            r@ == self@.message(),
    {
        match self {
            NameError::HomeUnknownForPrefix => String::from_str(
                "cannot expand ~/: HOME environment variable is not set",
            ),
            NameError::HomeUnknown => String::from_str(
                "cannot expand ~: HOME environment variable is not set",
            ),
            NameError::NotAbsolute { path } => {
                let mut s = String::from_str("path is not absolute: ");
                s.append(path.as_str());
                s
            },
            NameError::EmptyRepoName => String::from_str("repo name must not be empty"),
            NameError::InvalidForestName { name } => {
                let mut s = String::from_str("invalid forest name: ");
                s.append(quote(name.as_str()).as_str());
                s.append("\n  hint: provide a descriptive name like \"java-84/refactor-auth\"");
                s
            },
            NameError::EmptyBranchName => String::from_str("branch name must not be empty"),
            NameError::BranchIsRefPath { name } => {
                let mut s = String::from_str("branch name ");
                s.append(quote(name.as_str()).as_str());
                s.append(
                    " looks like a ref path\n  hint: pass the branch name without the refs/ prefix",
                );
                s
            },
            NameError::BranchIsRemoteRef { name, rest } => {
                let mut s = String::from_str("branch name ");
                s.append(quote(name.as_str()).as_str());
                s.append(
                    " looks like a remote ref\n  hint: pass the branch name without the remote prefix: ",
                );
                s.append(quote(rest.as_str()).as_str());
                s
            },
        }
    }
}

/// A path that begins at the root.
#[derive(Debug, PartialEq, Eq, Hash)]
pub struct AbsolutePath {
    path: String,
}

impl View for AbsolutePath {
    type V = Seq<char>;

    closed spec fn view(&self) -> Seq<char> {
        self.path@
    }
}

impl AbsolutePath {
    #[verifier::type_invariant]
    spec fn inv(self) -> bool {
        is_absolute(self.path@)
    }

    /// Accepts `path` if it is absolute.
    pub fn new(path: String) -> (r: Option<AbsolutePath>)
        ensures
            r is Some <==> is_absolute(path@),
            r matches Some(p) ==> p@ == path@,
    {
        if starts_with(path.as_str(), "/") {
            proof {
                reveal_strlit("/");
                assert(path@[0] == "/"@[0]);
            }
            Some(AbsolutePath { path })
        } else {
            proof {
                reveal_strlit("/");
                if is_absolute(path@) {
                    assert("/"@ =~= path@.subrange(0, 1));
                }
            }
            None
        }
    }

    /// The path as text; it is absolute.
    pub fn as_str(&self) -> (s: &str)
        ensures
            s@ == self@,
            is_absolute(self@),
    {
        proof {
            use_type_invariant(self);
        }
        self.path.as_str()
    }

    /// The path as an owned string.
    pub fn into_inner(self) -> (s: String)
        ensures
            s@ == self@,
            is_absolute(self@),
    {
        proof {
            use_type_invariant(&self);
        }
        self.path
    }

    /// The path as text, for display.
    pub fn display(&self) -> (s: String)
        ensures
            s@ == self@,
    {
        self.path.clone()
    }

    /// Adjoins `rel`. The result is absolute: either `rel` is, and replaces
    /// this path, or it extends this path.
    pub fn join(&self, rel: &str) -> (r: AbsolutePath)
        ensures
            r@ == joined_path(self@, rel@),
    {
        proof {
            use_type_invariant(self);
        }
        AbsolutePath { path: join_text(self.path.as_str(), rel) }
    }
}

impl Clone for AbsolutePath {
    fn clone(&self) -> (r: AbsolutePath)
        ensures
            r@ == self@,
    {
        proof {
            use_type_invariant(self);
        }
        AbsolutePath { path: self.path.clone() }
    }
}

/// Whether `path` lies inside `dir`.
pub fn is_inside(dir: &str, path: &str) -> (r: bool)
    ensures
        r == inside(dir@, path@),
{
    let d = chars_of(dir);
    let p = chars_of(path);
    let sep: usize = if d.len() > 0 && d[d.len() - 1] != '/' {
        1
    } else {
        0
    };
    if p.len() <= d.len() || p.len() - d.len() <= sep {
        proof {
            assert forall|rel: Seq<char>| rel.len() > 0 && !is_absolute(rel) implies #[trigger]
                joined_path(d@, rel) != p@ by {
                assert(joined_path(d@, rel).len() == d@.len() + sep + rel.len());
            }
        }
        return false;
    }
    assert(p@.skip(0) == p@);
    let k: usize = d.len() + sep;
    if !matches_at(&p, 0, &d) || (sep == 1 && p[d.len()] != '/') || p[k] == '/' {
        proof {
            assert forall|rel: Seq<char>| rel.len() > 0 && !is_absolute(rel) implies #[trigger]
                joined_path(d@, rel) != p@ by {
                let j = joined_path(d@, rel);
                if j == p@ {
                    assert(d@ =~= j.subrange(0, d@.len() as int));
                    assert(j[k as int] == rel[0]);
                    if sep == 1 {
                        assert(j[d@.len() as int] == '/');
                    }
                }
            }
        }
        return false;
    }
    proof {
        let rel = p@.skip(k as int);
        assert(d@.is_prefix_of(p@));
        assert(rel[0] == p@[k as int]);
        assert(joined_path(d@, rel) =~= p@);
    }
    true
}

/// The characters of `p` after its last separator; all of `p` if it has none.
pub open spec fn last_segment(p: Seq<char>) -> Seq<char>
    decreases p.len(),
{
    if p.len() == 0 || p.last() == '/' {
        Seq::empty()
    } else {
        last_segment(p.drop_last()).push(p.last())
    }
}

/// The final component of a path, if it names something: trailing separators
/// and `.` components are passed over, and a path that ends in `..`, or has
/// no component at all, has none.
pub open spec fn file_name_of(p: Seq<char>) -> Option<Seq<char>>
    decreases p.len(),
{
    if p.len() == 0 {
        None
    } else if p.last() == '/' {
        file_name_of(p.drop_last())
    } else if last_segment(p) == seq!['.'] {
        if p.len() == 1 {
            None
        } else {
            file_name_of(p.drop_last())
        }
    } else if last_segment(p) == seq!['.', '.'] {
        None
    } else {
        Some(last_segment(p))
    }
}

proof fn lemma_last_segment(p: Seq<char>, start: int)
    requires
        0 <= start <= p.len(),
        forall|j: int| start <= j < p.len() ==> p[j] != '/',
        start == 0 || p[start - 1] == '/',
    ensures
        last_segment(p) == p.skip(start),
    decreases p.len(),
{
    if p.len() == start {
        assert(p.skip(start) =~= Seq::<char>::empty());
    } else {
        lemma_last_segment(p.drop_last(), start);
        assert(p.skip(start) =~= p.drop_last().skip(start).push(p.last()));
    }
}

impl AbsolutePath {
    /// The final component of the path, if it names something.
    pub fn file_name(&self) -> (r: Option<String>)
        ensures
            r is Some <==> file_name_of(self@) is Some,
            r matches Some(n) ==> n@ == file_name_of(self@)->0,
    {
        let v = chars_of(self.path.as_str());
        let mut end: usize = v.len();
        assert(v@.take(end as int) == v@);
        while end > 0
            invariant
                end <= v.len(),
                v@ == self@,
                file_name_of(v@.take(end as int)) == file_name_of(v@),
            decreases end,
        {
            let ghost p = v@.take(end as int);
            if v[end - 1] == '/' {
                assert(p.drop_last() == v@.take(end - 1));
                end -= 1;
            } else {
                let mut start: usize = end - 1;
                while start > 0 && v[start - 1] != '/'
                    invariant
                        start < end <= v.len(),
                        forall|j: int| start <= j < end ==> v@[j] != '/',
                    decreases start,
                {
                    start -= 1;
                }
                proof {
                    lemma_last_segment(p, start as int);
                    assert(p.skip(start as int) == v@.subrange(start as int, end as int));
                    assert(p.drop_last() == v@.take(end - 1));
                }
                let dot = v[start] == '.';
                if end - start == 1 && dot {
                    assert(last_segment(p) =~= seq!['.']);
                    if end == 1 {
                        return None;
                    }
                    end -= 1;
                } else if end - start == 2 && dot && v[start + 1] == '.' {
                    assert(last_segment(p) =~= seq!['.', '.']);
                    return None;
                } else {
                    assert(last_segment(p) != seq!['.']) by {
                        if last_segment(p) == seq!['.'] {
                            assert(last_segment(p).len() == 1);
                            assert(last_segment(p)[0] == '.');
                        }
                    }
                    assert(last_segment(p) != seq!['.', '.']) by {
                        if last_segment(p) == seq!['.', '.'] {
                            assert(last_segment(p).len() == 2);
                            assert(last_segment(p)[0] == '.');
                            assert(last_segment(p)[1] == '.');
                        }
                    }
                    return Some(string_of_range(&v, start, end));
                }
            }
        }
        None
    }
}

/// What a path given by the user stands for: `~/rest` is `rest` under the
/// home directory, `~` is the home directory, anything else is itself; and
/// the outcome must be absolute.
pub open spec fn expanded(path: Seq<char>, home: Option<Seq<char>>) -> Result<
    Seq<char>,
    NameErrorView,
> {
    let candidate = if seq!['~', '/'].is_prefix_of(path) {
        match home {
            Some(h) => Ok(joined_path(h, path.skip(2))),
            None => Err(NameErrorView::HomeUnknownForPrefix),
        }
    } else if path == seq!['~'] {
        match home {
            Some(h) => Ok(h),
            None => Err(NameErrorView::HomeUnknown),
        }
    } else {
        Ok(path)
    };
    match candidate {
        Ok(p) => if is_absolute(p) {
            Ok(p)
        } else {
            Err(NameErrorView::NotAbsolute { path })
        },
        Err(e) => Err(e),
    }
}

/// Adjoins `rel` to `base`, as text.
pub fn join_text(base: &str, rel: &str) -> (r: String)
    ensures
        r@ == joined_path(base@, rel@),
{
    proof {
        reveal_strlit("/");
    }
    if starts_with(rel, "/") {
        assert(rel@[0] == "/"@[0]);
        String::from_str(rel)
    } else {
        assert(!is_absolute(rel@)) by {
            if is_absolute(rel@) {
                assert("/"@ =~= rel@.subrange(0, 1));
            }
        }
        let mut path = String::from_str(base);
        let b = chars_of(base);
        if b.len() > 0 && b[b.len() - 1] != '/' {
            path.append("/");
            assert("/"@ == seq!['/']);
        }
        path.append(rel);
        path
    }
}

/// Expands a leading `~` with the home directory, if one is known, and
/// accepts the outcome if it is absolute.
pub fn expand_tilde(path: &str, home: Option<&str>) -> (r: Result<AbsolutePath, NameError>)
    ensures
        match r {
            Ok(p) => expanded(path@, opt_view(home)) == Ok::<Seq<char>, NameErrorView>(p@),
            Err(e) => expanded(path@, opt_view(home)) == Err::<Seq<char>, NameErrorView>(e@),
        },
{
    proof {
        reveal_strlit("~/");
        reveal_strlit("~");
    }
    assert("~/"@ == seq!['~', '/']);
    assert("~"@ == seq!['~']);
    let candidate = if starts_with(path, "~/") {
        match home {
            Some(h) => {
                let v = chars_of(path);
                let rest = string_of_range(&v, 2, v.len());
                assert(path@.skip(2) == v@.subrange(2, v.len() as int));
                join_text(h, rest.as_str())
            },
            None => {
                return Err(NameError::HomeUnknownForPrefix);
            },
        }
    } else if str_eq(path, "~") {
        match home {
            Some(h) => String::from_str(h),
            None => {
                return Err(NameError::HomeUnknown);
            },
        }
    } else {
        String::from_str(path)
    };
    match AbsolutePath::new(candidate) {
        Some(p) => Ok(p),
        None => Err(NameError::NotAbsolute { path: String::from_str(path) }),
    }
}

/// The view of an optional string.
pub open spec fn opt_view(s: Option<&str>) -> Option<Seq<char>> {
    match s {
        Some(x) => Some(x@),
        None => None,
    }
}

/// A repository's name: any non-empty text.
#[derive(Debug, PartialEq, Eq, Hash)]
pub struct RepoName {
    name: String,
}

impl View for RepoName {
    type V = Seq<char>;

    closed spec fn view(&self) -> Seq<char> {
        self.name@
    }
}

impl RepoName {
    #[verifier::type_invariant]
    spec fn inv(self) -> bool {
        self.name@.len() > 0
    }

    /// Accepts any name but the empty one.
    pub fn new(name: String) -> (r: Result<RepoName, NameError>)
        ensures
            match r {
                Ok(n) => name@.len() > 0 && n@ == name@,
                Err(e) => name@.len() == 0 && e@ == NameErrorView::EmptyRepoName,
            },
    {
        if name.as_str().unicode_len() == 0 {
            Err(NameError::EmptyRepoName)
        } else {
            Ok(RepoName { name })
        }
    }

    /// The name as text; it is not empty.
    pub fn as_str(&self) -> (s: &str)
        ensures
            s@ == self@,
            self@.len() > 0,
    {
        proof {
            use_type_invariant(self);
        }
        self.name.as_str()
    }

    /// The name as an owned string, for display.
    pub fn display(&self) -> (s: String)
        ensures
            s@ == self@,
    {
        self.name.clone()
    }
}

impl Clone for RepoName {
    fn clone(&self) -> (r: RepoName)
        ensures
            r@ == self@,
    {
        proof {
            use_type_invariant(self);
        }
        RepoName { name: self.name.clone() }
    }
}

/// Turns every slash of `name` into a hyphen.
pub fn sanitize_forest_name(name: &str) -> (r: String)
    ensures
        r@ == sanitized_name(name@),
{
    replace_char(name, '/', '-')
}

/// A forest's name. It may hold slashes; its sanitized form does not.
#[derive(Debug, PartialEq, Eq, Hash)]
pub struct ForestName {
    name: String,
}

impl View for ForestName {
    type V = Seq<char>;

    closed spec fn view(&self) -> Seq<char> {
        self.name@
    }
}

impl ForestName {
    #[verifier::type_invariant]
    spec fn inv(self) -> bool {
        valid_forest_name(self.name@)
    }

    /// Accepts any name but the empty one, `.` and `..`.
    pub fn new(name: String) -> (r: Result<ForestName, NameError>)
        ensures
            match r {
                Ok(n) => valid_forest_name(name@) && n@ == name@,
                Err(e) => !valid_forest_name(name@) && e@ == (NameErrorView::InvalidForestName {
                    name: name@,
                }),
            },
    {
        proof {
            reveal_strlit("");
            reveal_strlit(".");
            reveal_strlit("..");
        }
        assert(""@ =~= Seq::<char>::empty());
        assert("."@ =~= seq!['.']);
        assert(".."@ =~= seq!['.', '.']);
        let s = name.as_str();
        if str_eq(s, "") || str_eq(s, ".") || str_eq(s, "..") {
            Err(NameError::InvalidForestName { name })
        } else {
            assert(name@.len() > 0) by {
                if name@.len() == 0 {
                    assert(name@ =~= ""@);
                }
            }
            Ok(ForestName { name })
        }
    }

    /// The name as given; it is valid.
    pub fn as_str(&self) -> (s: &str)
        ensures
            s@ == self@,
            valid_forest_name(self@),
    {
        proof {
            use_type_invariant(self);
        }
        self.name.as_str()
    }

    /// The filesystem-safe form: slashes replaced with hyphens.
    pub fn sanitized(&self) -> (r: String)
        ensures
            r@ == sanitized_name(self@),
    {
        sanitize_forest_name(self.name.as_str())
    }

    /// The name as an owned string, for display.
    pub fn display(&self) -> (s: String)
        ensures
            s@ == self@,
    {
        self.name.clone()
    }
}

impl Clone for ForestName {
    fn clone(&self) -> (r: ForestName)
        ensures
            r@ == self@,
    {
        proof {
            use_type_invariant(self);
        }
        ForestName { name: self.name.clone() }
    }
}

/// A branch name that is neither a ref path nor, for the remote it was
/// checked against, a remote-qualified name.
#[derive(Debug, PartialEq, Eq, Hash)]
pub struct BranchName {
    name: String,
}

impl View for BranchName {
    type V = Seq<char>;

    closed spec fn view(&self) -> Seq<char> {
        self.name@
    }
}

/// The error that refuses `name` as a branch name for `remote`, if any.
pub open spec fn branch_name_error(name: Seq<char>, remote: Seq<char>) -> Option<NameErrorView> {
    if name.len() == 0 {
        Some(NameErrorView::EmptyBranchName)
    } else if ref_marker().is_prefix_of(name) {
        Some(NameErrorView::BranchIsRefPath { name })
    } else if (remote + seq!['/']).is_prefix_of(name) {
        Some(NameErrorView::BranchIsRemoteRef { name, rest: name.skip(remote.len() as int + 1) })
    } else {
        None
    }
}

/// Checks `name` as a branch name for `remote` without building anything.
pub fn check_branch_name(name: &str, remote: &str) -> (r: Option<NameError>)
    ensures
        r is Some <==> branch_name_error(name@, remote@) is Some,
        r matches Some(e) ==> Some(e@) == branch_name_error(name@, remote@),
        r is None <==> valid_branch_name(name@, remote@),
{
    proof {
        reveal_strlit("refs/");
        reveal_strlit("/");
    }
    assert("refs/"@ =~= ref_marker());
    assert("/"@ =~= seq!['/']);
    let v = chars_of(name);
    if v.len() == 0 {
        return Some(NameError::EmptyBranchName);
    }
    if starts_with(name, "refs/") {
        return Some(NameError::BranchIsRefPath { name: String::from_str(name) });
    }
    let mut prefix = String::from_str(remote);
    prefix.append("/");
    if starts_with(name, prefix.as_str()) {
        let n = prefix.as_str().unicode_len();
        let rest = string_of_range(&v, n, v.len());
        assert(name@.skip(remote@.len() as int + 1) == v@.subrange(n as int, v.len() as int));
        return Some(
            NameError::BranchIsRemoteRef { name: String::from_str(name), rest },
        );
    }
    None
}

impl BranchName {
    #[verifier::type_invariant]
    spec fn inv(self) -> bool {
        self.name@.len() > 0 && !ref_marker().is_prefix_of(self.name@)
    }

    /// Accepts `name` unless it is empty, begins with the ref-path marker, or
    /// begins with `<remote>/`.
    pub fn new(name: String, remote: &str) -> (r: Result<BranchName, NameError>)
        ensures
            match r {
                Ok(b) => valid_branch_name(name@, remote@) && b@ == name@,
                Err(e) => Some(e@) == branch_name_error(name@, remote@),
            },
    {
        match check_branch_name(name.as_str(), remote) {
            Some(e) => Err(e),
            None => Ok(BranchName { name }),
        }
    }

    /// The name as text.
    pub fn as_str(&self) -> (s: &str)
        ensures
            s@ == self@,
            self@.len() > 0,
            !ref_marker().is_prefix_of(self@),
    {
        proof {
            use_type_invariant(self);
        }
        self.name.as_str()
    }

    /// The name as an owned string, for display.
    pub fn display(&self) -> (s: String)
        ensures
            s@ == self@,
    {
        self.name.clone()
    }
}

impl Clone for BranchName {
    fn clone(&self) -> (r: BranchName)
        ensures
            r@ == self@,
    {
        proof {
            use_type_invariant(self);
        }
        BranchName { name: self.name.clone() }
    }
}

/// The directory of the forest `name` under `worktree_base`.
pub open spec fn forest_dir_of(worktree_base: Seq<char>, name: Seq<char>) -> Seq<char> {
    joined_path(worktree_base, sanitized_name(name))
}

/// The directory of a forest: its sanitized name under the worktree base.
pub fn forest_dir(worktree_base: &AbsolutePath, name: &ForestName) -> (r: AbsolutePath)
    ensures
        r@ == forest_dir_of(worktree_base@, name@),
{
    let s = name.sanitized();
    worktree_base.join(s.as_str())
}

/// Sanitizing keeps the length of a name, leaves no slash in it, changes
/// nothing in a name without slashes, and so changes nothing when done twice.
pub proof fn law_sanitized(name: Seq<char>)
    ensures
        sanitized_name(name).len() == name.len(),
        !sanitized_name(name).contains('/'),
        !name.contains('/') ==> sanitized_name(name) == name,
        sanitized_name(sanitized_name(name)) == sanitized_name(name),
{
    let s = sanitized_name(name);
    assert(!s.contains('/')) by {
        if s.contains('/') {
            let i = choose|i: int| 0 <= i < s.len() && s[i] == '/';
            assert(s[i] != '/');
        }
    }
    if !name.contains('/') {
        assert forall|i: int| 0 <= i < name.len() implies s[i] == name[i] by {
            assert(name.contains(name[i]));
        }
        assert(s =~= name);
    }
    assert(sanitized_name(s) =~= s);
}

/// The directory of a forest lies directly under a base that is absolute:
/// it is the base, one separator unless the base ends in one, and the
/// sanitized name, which holds no separator.
pub proof fn law_forest_dir(worktree_base: Seq<char>, name: Seq<char>)
    requires
        is_absolute(worktree_base),
        valid_forest_name(name),
    ensures
        is_absolute(forest_dir_of(worktree_base, name)),
        forest_dir_of(worktree_base, name) == worktree_base + (if worktree_base.last() == '/' {
            Seq::<char>::empty()
        } else {
            seq!['/']
        }) + sanitized_name(name),
{
    law_sanitized(name);
    let s = sanitized_name(name);
    assert(s[0] != '/');
    assert(worktree_base + Seq::<char>::empty() == worktree_base);
}

} // verus!
