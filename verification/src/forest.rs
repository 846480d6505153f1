//! Finding forests among the directories of a worktree base.

use crate::meta::{ForestMeta, ForestMetaView};
use crate::paths::{sanitize_forest_name, sanitized_name};
use crate::seqs::{
    as_index, first_where, lemma_first_where_is, lemma_first_where_none, lemma_view_each_push,
    view_each,
};
use crate::text::{quote, quoted, str_eq};
use vstd::prelude::*;
use vstd::string::*;

verus! {

/// What was found where a directory's metadata file should be.
#[derive(Debug)]
pub enum MetaRead {
    /// There is no metadata file.
    Missing,
    /// There is one, and it could not be read or understood.
    Unreadable { error: String },
    /// The record that the file holds.
    Read { meta: ForestMeta },
}

/// The mathematical content of a [`MetaRead`].
pub enum MetaReadView {
    Missing,
    Unreadable { error: Seq<char> },
    Read { meta: ForestMetaView },
}

impl View for MetaRead {
    type V = MetaReadView;

    open spec fn view(&self) -> MetaReadView {
        match *self {
            MetaRead::Missing => MetaReadView::Missing,
            MetaRead::Unreadable { error } => MetaReadView::Unreadable { error: error@ },
            MetaRead::Read { meta } => MetaReadView::Read { meta: meta@ },
        }
    }
}

/// One entry of a worktree base, as a scan of the base reports it.
#[derive(Debug)]
pub struct ScanEntry {
    /// The entry's own name.
    pub dir_name: String,
    /// The entry's full path.
    pub path: String,
    /// Whether the entry is a directory.
    pub is_dir: bool,
    /// What its metadata file holds.
    pub meta: MetaRead,
}

/// The mathematical content of a [`ScanEntry`].
pub struct ScanEntryView {
    pub dir_name: Seq<char>,
    pub path: Seq<char>,
    pub is_dir: bool,
    pub meta: MetaReadView,
}

impl View for ScanEntry {
    type V = ScanEntryView;

    open spec fn view(&self) -> ScanEntryView {
        ScanEntryView {
            dir_name: self.dir_name@,
            path: self.path@,
            is_dir: self.is_dir,
            meta: self.meta@,
        }
    }
}

/// What a scan of a worktree base came to.
#[derive(Debug)]
pub enum Scan {
    Entries { entries: Vec<ScanEntry> },
    Failed { error: String },
}

/// The mathematical content of a [`Scan`].
pub enum ScanView {
    Entries { entries: Seq<ScanEntryView> },
    Failed { error: Seq<char> },
}

impl View for Scan {
    type V = ScanView;

    open spec fn view(&self) -> ScanView {
        match *self {
            Scan::Entries { entries } => ScanView::Entries { entries: view_each(entries@) },
            Scan::Failed { error } => ScanView::Failed { error: error@ },
        }
    }
}

impl ScanEntryView {
    /// An entry is a forest when it is a directory whose record was read.
    pub open spec fn is_forest(self) -> bool {
        self.is_dir && self.meta is Read
    }

    /// A forest answers to its recorded name, and to the sanitized form of
    /// a name where that is its directory's name.
    pub open spec fn answers_to(self, name_or_dir: Seq<char>) -> bool {
        &&& self.is_forest()
        &&& (self.meta->Read_meta.name == name_or_dir || self.dir_name == sanitized_name(
            name_or_dir,
        ))
    }
}

/// The records of the forests among `entries`, in the order of the scan.
pub open spec fn discovered(entries: Seq<ScanEntryView>) -> Seq<ForestMetaView>
    decreases entries.len(),
{
    if entries.len() == 0 {
        Seq::empty()
    } else if entries.last().is_forest() {
        discovered(entries.drop_last()).push(entries.last().meta->Read_meta)
    } else {
        discovered(entries.drop_last())
    }
}

/// The forests of a scanned worktree base: every directory whose record
/// could be read. Other entries are passed over.
pub fn discover_forests(entries: &Vec<ScanEntry>) -> (r: Vec<ForestMeta>)
    ensures
        view_each(r@) == discovered(view_each(entries@)),
{
    let mut out: Vec<ForestMeta> = Vec::new();
    let mut i: usize = 0;
    while i < entries.len()
        invariant
            i <= entries.len(),
            view_each(out@) == discovered(view_each(entries@).take(i as int)),
        decreases entries.len() - i,
    {
        let ghost next = view_each(entries@).take(i + 1);
        assert(next.drop_last() == view_each(entries@).take(i as int));
        assert(next.last() == entries@[i as int]@);
        if entries[i].is_dir {
            match &entries[i].meta {
                MetaRead::Read { meta } => {
                    let c = meta.clone();
                    proof {
                        lemma_view_each_push(out@, c);
                    }
                    out.push(c);
                },
                _ => {},
            }
        }
        i += 1;
    }
    assert(view_each(entries@).take(entries.len() as int) == view_each(entries@));
    out
}

/// The index of the first forest among `entries` that answers to
/// `name_or_dir`, if there is one.
pub open spec fn found_forest(entries: Seq<ScanEntryView>, name_or_dir: Seq<char>) -> Option<int> {
    first_where(entries.len(), |i: int| entries[i].answers_to(name_or_dir))
}

/// Looks a forest up by its name or by its directory's name.
pub fn find_forest(entries: &Vec<ScanEntry>, name_or_dir: &str) -> (r: Option<usize>)
    ensures
        r is Some <==> found_forest(view_each(entries@), name_or_dir@) is Some,
        r matches Some(i) ==> found_forest(view_each(entries@), name_or_dir@) == Some(i as int),
{
    let sanitized = sanitize_forest_name(name_or_dir);
    let ghost es = view_each(entries@);
    let ghost p = |i: int| es[i].answers_to(name_or_dir@);
    let mut i: usize = 0;
    while i < entries.len()
        invariant
            i <= entries.len(),
            es == view_each(entries@),
            p == |i: int| es[i].answers_to(name_or_dir@),
            sanitized@ == sanitized_name(name_or_dir@),
            forall|j: int| 0 <= j < i ==> !#[trigger] p(j),
        decreases entries.len() - i,
    {
        let e = &entries[i];
        assert(es[i as int] == e@);
        if e.is_dir {
            match &e.meta {
                MetaRead::Read { meta } => {
                    if str_eq(meta.name.as_str(), name_or_dir) || str_eq(
                        e.dir_name.as_str(),
                        sanitized.as_str(),
                    ) {
                        proof {
                            assert(p(i as int));
                            lemma_first_where_is(es.len(), p, i as int);
                        }
                        return Some(i);
                    }
                },
                _ => {},
            }
        }
        assert(!p(i as int));
        i += 1;
    }
    proof {
        lemma_first_where_none(es.len(), p);
    }
    None
}

/// The reasons for which no forest is found.
#[derive(Debug, Clone, Copy, PartialEq, Eq, Structural)]
pub enum ForestErrorKind {
    /// No forest answers to the name.
    NotFound,
    /// No directory from the current one upwards is a forest.
    NotInside,
    /// A worktree base could not be scanned.
    ScanFailed,
    /// A forest's record could not be read.
    Unreadable,
}

/// Why no forest was found: the reason, and the text for the user.
#[derive(Debug)]
pub struct ForestError {
    pub kind: ForestErrorKind,
    pub message: String,
}

/// The mathematical content of a [`ForestError`].
pub struct ForestErrorView {
    pub kind: ForestErrorKind,
    pub message: Seq<char>,
}

impl View for ForestError {
    type V = ForestErrorView;

    open spec fn view(&self) -> ForestErrorView {
        ForestErrorView { kind: self.kind, message: self.message@ }
    }
}

/// The forest that encloses a directory: `chain` holds what was found in
/// the directory itself and then in each directory above it, and the
/// first that has a record decides; a record that cannot be read is an
/// error.
pub open spec fn enclosing(chain: Seq<MetaReadView>) -> Result<Option<int>, ForestErrorView> {
    match first_where(chain.len(), |i: int| !(chain[i] is Missing)) {
        None => Ok(None),
        Some(i) => match chain[i] {
            MetaReadView::Unreadable { error } => Err(
                ForestErrorView { kind: ForestErrorKind::Unreadable, message: error },
            ),
            _ => Ok(Some(i)),
        },
    }
}

/// Finds the forest that encloses a directory, as the number of steps up
/// from it.
pub fn detect_current_forest(chain: &Vec<MetaRead>) -> (r: Result<Option<usize>, ForestError>)
    ensures
        match r {
            Ok(found) => enclosing(view_each(chain@)) == Ok::<Option<int>, ForestErrorView>(
                as_index(found),
            ),
            Err(e) => enclosing(view_each(chain@)) == Err::<Option<int>, ForestErrorView>(e@),
        },
        r matches Ok(Some(i)) ==> i < chain.len() && chain@[i as int] is Read,
{
    let ghost c = view_each(chain@);
    let ghost p = |i: int| !(c[i] is Missing);
    let mut i: usize = 0;
    while i < chain.len()
        invariant
            i <= chain.len(),
            c == view_each(chain@),
            p == |i: int| !(c[i] is Missing),
            forall|k: int| 0 <= k < i ==> !#[trigger] p(k),
        decreases chain.len() - i,
    {
        assert(c[i as int] == chain@[i as int]@);
        match &chain[i] {
            MetaRead::Missing => {
                assert(!p(i as int));
            },
            MetaRead::Unreadable { error } => {
                proof {
                    assert(p(i as int));
                    lemma_first_where_is(c.len(), p, i as int);
                }
                return Err(
                    ForestError { kind: ForestErrorKind::Unreadable, message: error.clone() },
                );
            },
            MetaRead::Read { .. } => {
                proof {
                    assert(p(i as int));
                    lemma_first_where_is(c.len(), p, i as int);
                }
                return Ok(Some(i));
            },
        }
        i += 1;
    }
    proof {
        lemma_first_where_none(c.len(), p);
    }
    Ok(None)
}

/// Where a forest was found.
#[derive(Debug, Clone, Copy, PartialEq, Eq, Structural)]
pub enum ForestRef {
    /// Entry `entry` of the scan of worktree base `base`.
    InBase { base: usize, entry: usize },
    /// The directory `up` steps above the current one.
    Enclosing { up: usize },
}

pub open spec fn not_found_text(name: Seq<char>) -> Seq<char> {
    "forest "@ + quoted(name)
        + " not found\n  hint: run `git forest ls` to see available forests"@
}

pub open spec fn not_inside_text() -> Seq<char> {
    "not inside a forest directory\n  hint: specify a forest name, or cd into a forest directory"@
}

/// The forest called `name` among the worktree bases from base `from` on:
/// the bases are looked through in order; the first in which a forest
/// answers to the name decides, and a base that could not be scanned ends
/// the search.
pub open spec fn named_forest(scans: Seq<ScanView>, name: Seq<char>, from: int) -> Result<
    ForestRef,
    ForestErrorView,
>
    decreases scans.len() - from,
{
    if from < 0 || from >= scans.len() {
        Err(ForestErrorView { kind: ForestErrorKind::NotFound, message: not_found_text(name) })
    } else {
        match scans[from] {
            ScanView::Failed { error } => Err(
                ForestErrorView { kind: ForestErrorKind::ScanFailed, message: error },
            ),
            ScanView::Entries { entries } => match found_forest(entries, name) {
                Some(k) => Ok(ForestRef::InBase { base: from as usize, entry: k as usize }),
                None => named_forest(scans, name, from + 1),
            },
        }
    }
}

/// The forest that a command is about: the one called `name` among the
/// worktree bases; or, where no name is given, the one that encloses the
/// current directory.
pub open spec fn resolved_forest(
    scans: Seq<ScanView>,
    name: Option<Seq<char>>,
    chain: Seq<MetaReadView>,
) -> Result<ForestRef, ForestErrorView> {
    match name {
        Some(n) => named_forest(scans, n, 0),
        None => match enclosing(chain) {
            Err(e) => Err(e),
            Ok(None) => Err(
                ForestErrorView { kind: ForestErrorKind::NotInside, message: not_inside_text() },
            ),
            Ok(Some(i)) => Ok(ForestRef::Enclosing { up: i as usize }),
        },
    }
}

/// Finds the forest that a command is about. `scans` holds the scan of
/// each worktree base, `chain` what was found in the current directory and
/// in each directory above it.
#[verifier::loop_isolation(false)]
pub fn resolve_forest_multi(scans: &Vec<Scan>, name: Option<&str>, chain: &Vec<MetaRead>) -> (r:
    Result<ForestRef, ForestError>)
    ensures
        match r {
            Ok(f) => resolved_forest(view_each(scans@), crate::paths::opt_view(name), view_each(chain@))
                == Ok::<ForestRef, ForestErrorView>(f),
            Err(e) => resolved_forest(
                view_each(scans@),
                crate::paths::opt_view(name),
                view_each(chain@),
            ) == Err::<ForestRef, ForestErrorView>(e@),
        },
{
    match name {
        Some(n) => {
            let mut b: usize = 0;
            while b < scans.len()
                invariant
                    b <= scans.len(),
                    named_forest(view_each(scans@), n@, b as int) == named_forest(
                        view_each(scans@),
                        n@,
                        0,
                    ),
                decreases scans.len() - b,
            {
                assert(view_each(scans@)[b as int] == scans@[b as int]@);
                match &scans[b] {
                    Scan::Failed { error } => {
                        return Err(
                            ForestError {
                                kind: ForestErrorKind::ScanFailed,
                                message: error.clone(),
                            },
                        );
                    },
                    Scan::Entries { entries } => match find_forest(entries, n) {
                        Some(k) => {
                            return Ok(ForestRef::InBase { base: b, entry: k });
                        },
                        None => {},
                    },
                }
                b += 1;
            }
            let mut s = String::from_str("forest ");
            s.append(quote(n).as_str());
            s.append(" not found\n  hint: run `git forest ls` to see available forests");
            Err(ForestError { kind: ForestErrorKind::NotFound, message: s })
        },
        None => match detect_current_forest(chain) {
            Err(e) => Err(e),
            Ok(None) => Err(
                ForestError {
                    kind: ForestErrorKind::NotInside,
                    message: String::from_str(
                        "not inside a forest directory\n  hint: specify a forest name, or cd into a forest directory",
                    ),
                },
            ),
            Ok(Some(i)) => Ok(ForestRef::Enclosing { up: i }),
        },
    }
}

} // verus!
