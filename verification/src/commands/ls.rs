//! Listing forests: newest first, each with its age and its branches.

use crate::meta::{now, ForestMeta, ForestMetaView, ForestMode, RepoMeta, RepoMetaView, Timestamp};
use crate::paths::ForestName;
use crate::commands::new::{planned, NewInputsView, PlanProbesView};
use crate::config::ResolvedTemplateView;
use crate::forest::{discovered, ScanEntryView};
use crate::git::{no_args, push_arg};
use crate::seqs::{lemma_view_each_push, view_each};
use crate::text::{
    decimal, digits, insert_sorted, join, joined, pad_right, padded, str_eq, strictly_sorted,
};
use vstd::prelude::*;
use vstd::seq_lib::{lemma_multiset_commutative, to_multiset_build, to_multiset_insert};
use vstd::string::*;
use vstd::utf8::encode_utf8;

verus! {

/// How many repositories of a forest are on a branch.
#[derive(Debug)]
pub struct BranchCount {
    pub branch: String,
    pub count: usize,
}

/// The mathematical content of a [`BranchCount`].
pub struct BranchCountView {
    pub branch: Seq<char>,
    pub count: nat,
}

impl View for BranchCount {
    type V = BranchCountView;

    open spec fn view(&self) -> BranchCountView {
        BranchCountView { branch: self.branch@, count: self.count as nat }
    }
}

/// One forest of the list.
#[derive(Debug)]
pub struct ForestSummary {
    pub name: ForestName,
    pub age_seconds: i64,
    pub age_display: String,
    pub mode: ForestMode,
    pub branch_summary: Vec<BranchCount>,
}

/// The mathematical content of a [`ForestSummary`].
pub struct ForestSummaryView {
    pub name: Seq<char>,
    pub age_seconds: int,
    pub age_display: Seq<char>,
    pub mode: ForestMode,
    pub branch_summary: Seq<BranchCountView>,
}

impl View for ForestSummary {
    type V = ForestSummaryView;

    open spec fn view(&self) -> ForestSummaryView {
        ForestSummaryView {
            name: self.name@,
            age_seconds: self.age_seconds as int,
            age_display: self.age_display@,
            mode: self.mode,
            branch_summary: view_each(self.branch_summary@),
        }
    }
}

/// The list of forests.
#[derive(Debug)]
pub struct LsResult {
    pub forests: Vec<ForestSummary>,
}

/// The mathematical content of an [`LsResult`].
pub struct LsResultView {
    pub forests: Seq<ForestSummaryView>,
}

impl View for LsResult {
    type V = LsResultView;

    open spec fn view(&self) -> LsResultView {
        LsResultView { forests: view_each(self.forests@) }
    }
}

/// How many of `repos` are on `branch`.
pub open spec fn on_branch(repos: Seq<RepoMetaView>, branch: Seq<char>) -> nat
    decreases repos.len(),
{
    if repos.len() == 0 {
        0
    } else if repos.last().branch == branch {
        on_branch(repos.drop_last(), branch) + 1
    } else {
        on_branch(repos.drop_last(), branch)
    }
}

/// The branches of the counts, in order.
pub open spec fn branches_of(counts: Seq<BranchCountView>) -> Seq<Seq<char>> {
    Seq::new(counts.len(), |i: int| counts[i].branch)
}

/// Whether some repository is on `branch`.
pub open spec fn has_branch(repos: Seq<RepoMetaView>, branch: Seq<char>) -> bool {
    exists|i: int| 0 <= i < repos.len() && (#[trigger] repos[i]).branch == branch
}

fn count_on(repos: &[RepoMeta], branch: &str) -> (r: usize)
    ensures
        r == on_branch(view_each(repos@), branch@),
{
    let mut c: usize = 0;
    let mut i: usize = 0;
    while i < repos.len()
        invariant
            i <= repos.len(),
            c <= i,
            c == on_branch(view_each(repos@).take(i as int), branch@),
        decreases repos.len() - i,
    {
        let ghost upto = view_each(repos@).take(i + 1);
        assert(upto.drop_last() == view_each(repos@).take(i as int));
        assert(upto.last() == repos@[i as int]@);
        if str_eq(repos[i].branch.as_str(), branch) {
            c += 1;
        }
        i += 1;
    }
    assert(view_each(repos@).take(repos.len() as int) == view_each(repos@));
    c
}

/// The branches of a forest's repositories, each once, in the order of
/// dictionaries, each with the number of repositories on it.
pub fn branch_counts(repos: &[RepoMeta]) -> (r: Vec<BranchCount>)
    ensures
        strictly_sorted(branches_of(view_each(r@))),
        forall|branch: Seq<char>|
            branches_of(view_each(r@)).contains(branch) <==> has_branch(view_each(repos@), branch),
        forall|i: int|
            0 <= i < r.len() ==> (#[trigger] view_each(r@)[i]).count == on_branch(
                view_each(repos@),
                view_each(r@)[i].branch,
            ),
{
    let mut branches: Vec<String> = Vec::new();
    let mut i: usize = 0;
    while i < repos.len()
        invariant
            i <= repos.len(),
            strictly_sorted(view_each(branches@)),
            forall|b: Seq<char>|
                view_each(branches@).contains(b) <==> exists|k: int|
                    0 <= k < i && (#[trigger] view_each(repos@)[k]).branch == b,
        decreases repos.len() - i,
    {
        let ghost before = view_each(branches@);
        assert(view_each(repos@)[i as int] == repos@[i as int]@);
        insert_sorted(&mut branches, repos[i].branch.as_str());
        proof {
            assert forall|b: Seq<char>| view_each(branches@).contains(b) <==> exists|k: int|
                0 <= k < i + 1 && (#[trigger] view_each(repos@)[k]).branch == b by {
                if before.contains(b) {
                    let k = choose|k: int|
                        0 <= k < i && (#[trigger] view_each(repos@)[k]).branch == b;
                    assert(0 <= k < i + 1);
                }
                if exists|k: int|
                    0 <= k < i + 1 && (#[trigger] view_each(repos@)[k]).branch == b {
                    let k = choose|k: int|
                        0 <= k < i + 1 && (#[trigger] view_each(repos@)[k]).branch == b;
                    if k < i {
                        assert(before.contains(b));
                    }
                }
            }
        }
        i += 1;
    }
    let mut out: Vec<BranchCount> = Vec::new();
    let mut j: usize = 0;
    while j < branches.len()
        invariant
            j <= branches.len(),
            out.len() == j,
            forall|k: int|
                0 <= k < j ==> (#[trigger] view_each(out@)[k]) == (BranchCountView {
                    branch: view_each(branches@)[k],
                    count: on_branch(view_each(repos@), view_each(branches@)[k]),
                }),
        decreases branches.len() - j,
    {
        let item = BranchCount {
            branch: branches[j].clone(),
            count: count_on(repos, branches[j].as_str()),
        };
        proof {
            lemma_view_each_push(out@, item);
        }
        out.push(item);
        j += 1;
    }
    assert(branches_of(view_each(out@)) =~= view_each(branches@));
    out
}

/// An age in words: in days if it is a day or more, else in hours if it is
/// an hour or more, else in minutes, and never less than one minute.
pub open spec fn age_text(seconds: int) -> Seq<char> {
    if seconds >= 86400 {
        digits((seconds / 86400) as nat) + "d ago"@
    } else if seconds >= 3600 {
        digits((seconds / 3600) as nat) + "h ago"@
    } else if seconds >= 120 {
        digits((seconds / 60) as nat) + "m ago"@
    } else {
        "1m ago"@
    }
}

/// Writes an age given in seconds.
pub fn format_age(seconds: i64) -> (r: String)
    ensures
        r@ == age_text(seconds as int),
{
    if seconds >= 86400 {
        let mut s = decimal((seconds / 86400) as u64);
        s.append("d ago");
        s
    } else if seconds >= 3600 {
        let mut s = decimal((seconds / 3600) as u64);
        s.append("h ago");
        s
    } else if seconds >= 120 {
        let mut s = decimal((seconds / 60) as u64);
        s.append("m ago");
        s
    } else {
        String::from_str("1m ago")
    }
}

/// A branch with its count, as listed: the count is left out where it is 1.
pub open spec fn branch_text(bc: BranchCountView) -> Seq<char> {
    if bc.count == 1 {
        bc.branch
    } else {
        bc.branch + " ("@ + digits(bc.count) + ")"@
    }
}

/// The branches of a forest, as listed.
pub open spec fn branches_text(summary: Seq<BranchCountView>) -> Seq<char> {
    joined(Seq::new(summary.len(), |i: int| branch_text(summary[i])), ", "@)
}

/// Writes the branches of a forest with their counts.
pub fn format_branches(branch_summary: &[BranchCount]) -> (r: String)
    ensures
        r@ == branches_text(view_each(branch_summary@)),
{
    let ghost all = Seq::new(
        branch_summary@.len(),
        |i: int| branch_text(view_each(branch_summary@)[i]),
    );
    let mut parts: Vec<String> = Vec::new();
    let mut i: usize = 0;
    while i < branch_summary.len()
        invariant
            i <= branch_summary.len(),
            all == Seq::new(
                branch_summary@.len(),
                |i: int| branch_text(view_each(branch_summary@)[i]),
            ),
            view_each(parts@) == all.take(i as int),
        decreases branch_summary.len() - i,
    {
        let bc = &branch_summary[i];
        assert(view_each(branch_summary@)[i as int] == bc@);
        let part = if bc.count == 1 {
            bc.branch.clone()
        } else {
            let mut s = bc.branch.clone();
            s.append(" (");
            s.append(decimal(bc.count as u64).as_str());
            s.append(")");
            s
        };
        proof {
            lemma_view_each_push(parts@, part);
            assert(all.take(i + 1) == all.take(i as int).push(part@));
        }
        parts.push(part);
        i += 1;
    }
    assert(all.take(branch_summary.len() as int) == all);
    join(&parts, ", ")
}

/// The summary of a forest at the time `now`.
pub open spec fn summarized(forest: ForestMetaView, now: Timestamp, counts: Seq<BranchCountView>)
    -> ForestSummaryView {
    ForestSummaryView {
        name: forest.name,
        age_seconds: now.seconds_since_of(forest.created_at),
        age_display: age_text(now.seconds_since_of(forest.created_at)),
        mode: forest.mode,
        branch_summary: counts,
    }
}

/// Summarizes a forest: its age at the time `now`, and its branches.
pub fn summarize_forest(forest: &ForestMeta, now: &Timestamp) -> (r: ForestSummary)
    ensures
        r@ == summarized(forest@, *now, r@.branch_summary),
        strictly_sorted(branches_of(r@.branch_summary)),
        forall|branch: Seq<char>|
            branches_of(r@.branch_summary).contains(branch) <==> has_branch(forest@.repos, branch),
        forall|i: int|
            0 <= i < r@.branch_summary.len() ==> (#[trigger] r@.branch_summary[i]).count
                == on_branch(forest@.repos, r@.branch_summary[i].branch),
{
    let age_seconds = now.seconds_since(&forest.created_at);
    ForestSummary {
        name: forest.name.clone(),
        age_seconds,
        age_display: format_age(age_seconds),
        mode: forest.mode,
        branch_summary: branch_counts(forest.repos.as_slice()),
    }
}

/// `sorted` with `m` put in before the first forest that is older than
/// `m`, or at the end if none is.
pub open spec fn inserted(sorted: Seq<ForestMetaView>, m: ForestMetaView) -> Seq<ForestMetaView>
    decreases sorted.len(),
{
    if sorted.len() == 0 {
        seq![m]
    } else if m.created_at.later_than(sorted[0].created_at) {
        seq![m] + sorted
    } else {
        seq![sorted[0]] + inserted(sorted.skip(1), m)
    }
}

/// The forests, newest first; forests of the same time stay in the order
/// in which they were given.
pub open spec fn newest_first(metas: Seq<ForestMetaView>) -> Seq<ForestMetaView>
    decreases metas.len(),
{
    if metas.len() == 0 {
        Seq::empty()
    } else {
        inserted(newest_first(metas.drop_last()), metas.last())
    }
}

proof fn lemma_inserted_at(sorted: Seq<ForestMetaView>, m: ForestMetaView, p: int)
    requires
        0 <= p <= sorted.len(),
        forall|k: int| 0 <= k < p ==> !m.created_at.later_than((#[trigger] sorted[k]).created_at),
        p < sorted.len() ==> m.created_at.later_than(sorted[p].created_at),
    ensures
        inserted(sorted, m) == sorted.insert(p, m),
    decreases sorted.len(),
{
    if sorted.len() == 0 {
        assert(seq![m] =~= sorted.insert(p, m));
    } else if p == 0 {
        assert(seq![m] + sorted =~= sorted.insert(0, m));
    } else {
        let rest = sorted.skip(1);
        assert forall|k: int| 0 <= k < p - 1 implies !m.created_at.later_than(
            (#[trigger] rest[k]).created_at,
        ) by {
            assert(rest[k] == sorted[k + 1]);
        }
        lemma_inserted_at(rest, m, p - 1);
        assert(seq![sorted[0]] + rest.insert(p - 1, m) =~= sorted.insert(p, m));
    }
}

/// No forest of the list is older than one that follows it, and the list
/// is as long as what it was made from.
pub proof fn law_newest_first(metas: Seq<ForestMetaView>)
    ensures
        newest_first(metas).len() == metas.len(),
        forall|i: int, j: int|
            0 <= i < j < metas.len() ==> !(#[trigger] newest_first(metas)[j]).created_at.later_than(
                (#[trigger] newest_first(metas)[i]).created_at,
            ),
    decreases metas.len(),
{
    if metas.len() > 0 {
        let before = newest_first(metas.drop_last());
        law_newest_first(metas.drop_last());
        lemma_inserted_sorted(before, metas.last());
    }
}

proof fn lemma_inserted_sorted(sorted: Seq<ForestMetaView>, m: ForestMetaView)
    requires
        forall|i: int, j: int|
            0 <= i < j < sorted.len() ==> !(#[trigger] sorted[j]).created_at.later_than(
                (#[trigger] sorted[i]).created_at,
            ),
    ensures
        inserted(sorted, m).len() == sorted.len() + 1,
        forall|i: int, j: int|
            0 <= i < j < sorted.len() + 1 ==> !(#[trigger] inserted(
                sorted,
                m,
            )[j]).created_at.later_than((#[trigger] inserted(sorted, m)[i]).created_at),
        forall|i: int|
            0 <= i < sorted.len() + 1 ==> (#[trigger] inserted(sorted, m)[i]) == m || exists|k: int|
                0 <= k < sorted.len() && sorted[k] == inserted(sorted, m)[i],
    decreases sorted.len(),
{
    let r = inserted(sorted, m);
    if sorted.len() == 0 {
    } else if m.created_at.later_than(sorted[0].created_at) {
        assert forall|i: int, j: int| 0 <= i < j < sorted.len() + 1 implies !(
        #[trigger] r[j]).created_at.later_than((#[trigger] r[i]).created_at) by {
            if i == 0 {
                assert(r[j] == sorted[j - 1]);
                if j - 1 > 0 {
                    assert(!sorted[j - 1].created_at.later_than(sorted[0].created_at));
                }
            } else {
                assert(r[i] == sorted[i - 1] && r[j] == sorted[j - 1]);
            }
        }
        assert forall|i: int| 0 <= i < sorted.len() + 1 implies (#[trigger] r[i]) == m || exists|
            k: int,
        |
            0 <= k < sorted.len() && sorted[k] == r[i] by {
            if i > 0 {
                assert(sorted[i - 1] == r[i]);
            }
        }
    } else {
        let rest = sorted.skip(1);
        assert forall|i: int, j: int| 0 <= i < j < rest.len() implies !(
        #[trigger] rest[j]).created_at.later_than((#[trigger] rest[i]).created_at) by {
            assert(rest[i] == sorted[i + 1] && rest[j] == sorted[j + 1]);
        }
        lemma_inserted_sorted(rest, m);
        let tail = inserted(rest, m);
        assert forall|i: int, j: int| 0 <= i < j < sorted.len() + 1 implies !(
        #[trigger] r[j]).created_at.later_than((#[trigger] r[i]).created_at) by {
            assert(r[j] == tail[j - 1]);
            if i == 0 {
                assert(r[0] == sorted[0]);
                if tail[j - 1] != m {
                    let k = choose|k: int| 0 <= k < rest.len() && rest[k] == tail[j - 1];
                    assert(rest[k] == sorted[k + 1]);
                    assert(!sorted[k + 1].created_at.later_than(sorted[0].created_at));
                }
            } else {
                assert(r[i] == tail[i - 1]);
            }
        }
        assert forall|i: int| 0 <= i < sorted.len() + 1 implies (#[trigger] r[i]) == m || exists|
            k: int,
        |
            0 <= k < sorted.len() && sorted[k] == r[i] by {
            if i == 0 {
                assert(sorted[0] == r[0]);
            } else {
                assert(r[i] == tail[i - 1]);
                if tail[i - 1] != m {
                    let k = choose|k: int| 0 <= k < rest.len() && rest[k] == tail[i - 1];
                    assert(sorted[k + 1] == r[i]);
                }
            }
        }
    }
}

/// Sorts forests newest first, keeping the order of forests of one time.
pub fn sort_newest_first(forests: Vec<ForestMeta>) -> (r: Vec<ForestMeta>)
    ensures
        view_each(r@) == newest_first(view_each(forests@)),
{
    let mut out: Vec<ForestMeta> = Vec::new();
    let mut i: usize = 0;
    assert(view_each(out@) =~= Seq::<ForestMetaView>::empty());
    while i < forests.len()
        invariant
            i <= forests.len(),
            out.len() == i,
            view_each(out@) == newest_first(view_each(forests@).take(i as int)),
        decreases forests.len() - i,
    {
        let m = forests[i].clone();
        let mut p: usize = 0;
        while p < out.len() && !m.created_at.is_after(&out[p].created_at)
            invariant
                p <= out.len(),
                forall|k: int|
                    0 <= k < p ==> !m@.created_at.later_than(
                        (#[trigger] view_each(out@)[k]).created_at,
                    ),
            decreases out.len() - p,
        {
            assert(view_each(out@)[p as int] == out@[p as int]@);
            p += 1;
        }
        proof {
            let before = view_each(out@);
            if p < out.len() {
                assert(before[p as int] == out@[p as int]@);
            }
            lemma_inserted_at(before, m@, p as int);
            let upto = view_each(forests@).take(i + 1);
            assert(upto.drop_last() == view_each(forests@).take(i as int));
            assert(upto.last() == m@);
            assert(view_each(out@.insert(p as int, m)) =~= before.insert(p as int, m@));
        }
        out.insert(p, m);
        i += 1;
    }
    assert(view_each(forests@).take(forests.len() as int) == view_each(forests@));
    out
}

/// The list at the time `now`: the forests newest first, each summarized.
pub fn cmd_ls_at(forests: Vec<ForestMeta>, now: &Timestamp) -> (r: LsResult)
    ensures
        listed_at(view_each(forests@), *now, r@.forests),
{
    let ghost given = view_each(forests@);
    let sorted = sort_newest_first(forests);
    proof {
        law_newest_first(given);
    }
    let mut out: Vec<ForestSummary> = Vec::new();
    let mut i: usize = 0;
    while i < sorted.len()
        invariant
            i <= sorted.len(),
            out.len() == i,
            forall|j: int|
                0 <= j < i ==> {
                    let f = view_each(sorted@)[j];
                    let s = #[trigger] view_each(out@)[j];
                    &&& s == summarized(f, *now, s.branch_summary)
                    &&& strictly_sorted(branches_of(s.branch_summary))
                    &&& forall|branch: Seq<char>|
                        branches_of(s.branch_summary).contains(branch) <==> has_branch(
                            f.repos,
                            branch,
                        )
                    &&& forall|k: int|
                        0 <= k < s.branch_summary.len() ==> (#[trigger] s.branch_summary[k]).count
                            == on_branch(f.repos, s.branch_summary[k].branch)
                },
        decreases sorted.len() - i,
    {
        let s = summarize_forest(&sorted[i], now);
        proof {
            lemma_view_each_push(out@, s);
            assert(view_each(sorted@)[i as int] == sorted@[i as int]@);
        }
        out.push(s);
        i += 1;
    }
    LsResult { forests: out }
}

/// What `summaries` must be to be the list of `forests` at the time `now`.
pub open spec fn listed_at(
    forests: Seq<ForestMetaView>,
    now: Timestamp,
    summaries: Seq<ForestSummaryView>,
) -> bool {
    &&& summaries.len() == forests.len()
    &&& forall|i: int|
        0 <= i < forests.len() ==> {
            let f = newest_first(forests)[i];
            let s = #[trigger] summaries[i];
            &&& s == summarized(f, now, s.branch_summary)
            &&& strictly_sorted(branches_of(s.branch_summary))
            &&& forall|branch: Seq<char>|
                branches_of(s.branch_summary).contains(branch) <==> has_branch(f.repos, branch)
            &&& forall|k: int|
                0 <= k < s.branch_summary.len() ==> (#[trigger] s.branch_summary[k]).count
                    == on_branch(f.repos, s.branch_summary[k].branch)
        }
}

/// Lists the forests given, newest first, with their ages at the time of
/// the call.
pub fn cmd_ls(forests: Vec<ForestMeta>) -> (r: LsResult)
    ensures
        exists|now: Timestamp| #[trigger] listed_at(view_each(forests@), now, r@.forests),
{
    let t = now();
    let r = cmd_ls_at(forests, &t);
    assert(listed_at(view_each(forests@), t, r@.forests));
    r
}

/// The length of a text in bytes, as UTF-8.
pub open spec fn byte_len(s: Seq<char>) -> usize {
    encode_utf8(s).len() as usize
}

/// The greatest length in bytes among the names of the forests.
pub open spec fn widest_name(forests: Seq<ForestSummaryView>) -> usize
    decreases forests.len(),
{
    if forests.len() == 0 {
        0
    } else {
        let w = widest_name(forests.drop_last());
        let n = byte_len(forests.last().name);
        if n > w {
            n
        } else {
            w
        }
    }
}

/// The width of the column of names: that of the widest name, and at least
/// that of the column's title.
pub open spec fn name_width(forests: Seq<ForestSummaryView>) -> usize {
    if widest_name(forests) > 4 {
        widest_name(forests)
    } else {
        4
    }
}

/// One row of the table: the columns padded to their widths and set two
/// spaces apart.
pub open spec fn ls_row(
    width: usize,
    name: Seq<char>,
    age: Seq<char>,
    mode: Seq<char>,
    branches: Seq<char>,
) -> Seq<char> {
    padded(name, width as nat) + "  "@ + padded(age, 10) + "  "@ + padded(mode, 8) + "  "@
        + branches
}

/// The lines of the table of forests: the titles, then one row for each
/// forest.
pub open spec fn ls_lines(forests: Seq<ForestSummaryView>) -> Seq<Seq<char>> {
    let w = name_width(forests);
    seq![ls_row(w, "NAME"@, "AGE"@, "MODE"@, "BRANCHES"@)] + Seq::new(
        forests.len(),
        |i: int|
            ls_row(
                w,
                forests[i].name,
                forests[i].age_display,
                forests[i].mode.label_of(),
                branches_text(forests[i].branch_summary),
            ),
    )
}

/// The list of forests as shown to the user.
pub open spec fn ls_text(result: LsResultView) -> Seq<char> {
    if result.forests.len() == 0 {
        "No forests found. Create one with `git forest new <name>`."@
    } else {
        joined(ls_lines(result.forests), "\n"@)
    }
}

fn row(width: usize, name: &str, age: &str, mode: &str, branches: &str) -> (r: String)
    ensures
        r@ == ls_row(width, name@, age@, mode@, branches@),
{
    let mut s = pad_right(name, width);
    s.append("  ");
    s.append(pad_right(age, 10).as_str());
    s.append("  ");
    s.append(pad_right(mode, 8).as_str());
    s.append("  ");
    s.append(branches);
    s
}

/// Writes the list of forests as a table.
pub fn format_ls_human(result: &LsResult) -> (r: String)
    ensures
        r@ == ls_text(result@),
{
    if result.forests.len() == 0 {
        return String::from_str("No forests found. Create one with `git forest new <name>`.");
    }
    let ghost fs = result@.forests;
    let mut widest: usize = 0;
    let mut k: usize = 0;
    while k < result.forests.len()
        invariant
            k <= result.forests.len(),
            fs == result@.forests,
            widest == widest_name(fs.take(k as int)),
        decreases result.forests.len() - k,
    {
        let ghost upto = fs.take(k + 1);
        assert(upto.drop_last() == fs.take(k as int));
        assert(upto.last() == result.forests@[k as int]@);
        let n = result.forests[k].name.as_str().len();
        if n > widest {
            widest = n;
        }
        k += 1;
    }
    assert(fs.take(result.forests.len() as int) == fs);
    let width: usize = if widest > 4 {
        widest
    } else {
        4
    };
    let ghost rows = Seq::new(
        fs.len(),
        |i: int|
            ls_row(
                width,
                fs[i].name,
                fs[i].age_display,
                fs[i].mode.label_of(),
                branches_text(fs[i].branch_summary),
            ),
    );
    let mut lines = no_args();
    push_arg(&mut lines, row(width, "NAME", "AGE", "MODE", "BRANCHES").as_str());
    let ghost title = view_each(lines@);
    let mut i: usize = 0;
    while i < result.forests.len()
        invariant
            i <= result.forests.len(),
            fs == result@.forests,
            rows == Seq::new(
                fs.len(),
                |i: int|
                    ls_row(
                        width,
                        fs[i].name,
                        fs[i].age_display,
                        fs[i].mode.label_of(),
                        branches_text(fs[i].branch_summary),
                    ),
            ),
            view_each(lines@) == title + rows.take(i as int),
        decreases result.forests.len() - i,
    {
        let f = &result.forests[i];
        assert(fs[i as int] == f@);
        let branches = format_branches(f.branch_summary.as_slice());
        let line = row(
            width,
            f.name.as_str(),
            f.age_display.as_str(),
            f.mode.label().as_str(),
            branches.as_str(),
        );
        proof {
            assert(rows.take(i + 1) == rows.take(i as int).push(line@));
            assert((title + rows.take(i as int)).push(line@) =~= title + rows.take(i + 1));
        }
        push_arg(&mut lines, line.as_str());
        i += 1;
    }
    proof {
        assert(rows.take(result.forests.len() as int) == rows);
        assert(title =~= seq![ls_row(width, "NAME"@, "AGE"@, "MODE"@, "BRANCHES"@)]);
    }
    join(&lines, "\n")
}

/// Whether a forest's record bears this name and mode.
pub open spec fn bears(m: ForestMetaView, name: Seq<char>, mode: ForestMode) -> bool {
    m.name == name && m.mode == mode
}

/// How many of the records bear this name and mode.
pub open spec fn bearing(metas: Seq<ForestMetaView>, name: Seq<char>, mode: ForestMode) -> nat {
    metas.filter(|m: ForestMetaView| bears(m, name, mode)).len()
}

/// Whether a scanned entry is a forest of this name and mode.
pub open spec fn finds(e: ScanEntryView, name: Seq<char>, mode: ForestMode) -> bool {
    e.is_forest() && bears(e.meta->Read_meta, name, mode)
}

/// How many of the scanned entries are forests of this name and mode.
pub open spec fn forests_found(entries: Seq<ScanEntryView>, name: Seq<char>, mode: ForestMode)
    -> nat {
    entries.filter(|e: ScanEntryView| finds(e, name, mode)).len()
}

/// Whether an item of a listing shows this name and mode.
pub open spec fn shows(s: ForestSummaryView, name: Seq<char>, mode: ForestMode) -> bool {
    s.name == name && s.mode == mode
}

/// How many items of a listing show this name and mode.
pub open spec fn shown(summaries: Seq<ForestSummaryView>, name: Seq<char>, mode: ForestMode)
    -> nat {
    summaries.filter(|s: ForestSummaryView| shows(s, name, mode)).len()
}

proof fn lemma_inserted_keeps(sorted: Seq<ForestMetaView>, m: ForestMetaView)
    ensures
        inserted(sorted, m).to_multiset() == sorted.to_multiset().insert(m),
    decreases sorted.len(),
{
    broadcast use vstd::multiset::group_multiset_axioms;

    if sorted.len() == 0 {
        assert(inserted(sorted, m) =~= sorted.push(m));
        to_multiset_build(sorted, m);
    } else if m.created_at.later_than(sorted[0].created_at) {
        assert(inserted(sorted, m) =~= sorted.insert(0, m));
        to_multiset_insert(sorted, 0, m);
    } else {
        let head = seq![sorted[0]];
        let rest = sorted.skip(1);
        lemma_inserted_keeps(rest, m);
        assert(sorted =~= head + rest);
        lemma_multiset_commutative(head, inserted(rest, m));
        lemma_multiset_commutative(head, rest);
        assert(head.to_multiset().add(rest.to_multiset().insert(m)) =~= head.to_multiset().add(
            rest.to_multiset(),
        ).insert(m));
    }
}

/// The list holds the records that it was made from, each as often as it
/// was given.
pub proof fn law_newest_first_keeps_the_records(metas: Seq<ForestMetaView>)
    ensures
        newest_first(metas).to_multiset() == metas.to_multiset(),
    decreases metas.len(),
{
    if metas.len() > 0 {
        law_newest_first_keeps_the_records(metas.drop_last());
        lemma_inserted_keeps(newest_first(metas.drop_last()), metas.last());
        to_multiset_build(metas.drop_last(), metas.last());
        assert(metas =~= metas.drop_last().push(metas.last()));
    } else {
        assert(metas =~= Seq::empty());
    }
}

proof fn lemma_inserted_bearing(
    sorted: Seq<ForestMetaView>,
    m: ForestMetaView,
    name: Seq<char>,
    mode: ForestMode,
)
    ensures
        bearing(inserted(sorted, m), name, mode) == bearing(sorted, name, mode) + if bears(
            m,
            name,
            mode,
        ) {
            1nat
        } else {
            0nat
        },
    decreases sorted.len(),
{
    let p = |m: ForestMetaView| bears(m, name, mode);
    let none = Seq::<ForestMetaView>::empty();
    none.lemma_filter_len_push(p, m);
    assert(seq![m] =~= none.push(m));
    if sorted.len() == 0 {
        assert(sorted =~= none);
    } else if m.created_at.later_than(sorted[0].created_at) {
        Seq::filter_distributes_over_add(seq![m], sorted, p);
    } else {
        let head = seq![sorted[0]];
        let rest = sorted.skip(1);
        lemma_inserted_bearing(rest, m, name, mode);
        Seq::filter_distributes_over_add(head, inserted(rest, m), p);
        Seq::filter_distributes_over_add(head, rest, p);
        assert(sorted =~= head + rest);
    }
}

proof fn lemma_newest_first_bearing(metas: Seq<ForestMetaView>, name: Seq<char>, mode: ForestMode)
    ensures
        bearing(newest_first(metas), name, mode) == bearing(metas, name, mode),
    decreases metas.len(),
{
    let p = |m: ForestMetaView| bears(m, name, mode);
    if metas.len() > 0 {
        lemma_newest_first_bearing(metas.drop_last(), name, mode);
        lemma_inserted_bearing(newest_first(metas.drop_last()), metas.last(), name, mode);
        metas.drop_last().lemma_filter_len_push(p, metas.last());
        assert(metas =~= metas.drop_last().push(metas.last()));
    }
}

proof fn lemma_discovered_bearing(entries: Seq<ScanEntryView>, name: Seq<char>, mode: ForestMode)
    ensures
        bearing(discovered(entries), name, mode) == forests_found(entries, name, mode),
    decreases entries.len(),
{
    let p = |m: ForestMetaView| bears(m, name, mode);
    let q = |e: ScanEntryView| finds(e, name, mode);
    if entries.len() > 0 {
        let rest = entries.drop_last();
        let e = entries.last();
        lemma_discovered_bearing(rest, name, mode);
        assert(entries =~= rest.push(e));
        rest.lemma_filter_len_push(q, e);
        if e.is_forest() {
            discovered(rest).lemma_filter_len_push(p, e.meta->Read_meta);
        }
    }
}

proof fn lemma_shown(
    metas: Seq<ForestMetaView>,
    summaries: Seq<ForestSummaryView>,
    name: Seq<char>,
    mode: ForestMode,
)
    requires
        summaries.len() == metas.len(),
        forall|i: int|
            0 <= i < metas.len() ==> (#[trigger] summaries[i]).name == metas[i].name
                && summaries[i].mode == metas[i].mode,
    ensures
        shown(summaries, name, mode) == bearing(metas, name, mode),
    decreases metas.len(),
{
    let p = |m: ForestMetaView| bears(m, name, mode);
    let q = |s: ForestSummaryView| shows(s, name, mode);
    if metas.len() > 0 {
        lemma_shown(metas.drop_last(), summaries.drop_last(), name, mode);
        metas.drop_last().lemma_filter_len_push(p, metas.last());
        summaries.drop_last().lemma_filter_len_push(q, summaries.last());
        assert(metas =~= metas.drop_last().push(metas.last()));
        assert(summaries =~= summaries.drop_last().push(summaries.last()));
    }
}

/// A listing shows what the scan found: each forest among the scanned
/// entries is listed, under the name and the mode of its record, as often
/// as it was found, and nothing else is. So a forest that no scan finds is
/// not listed.
pub proof fn law_listing_shows_what_was_found(
    entries: Seq<ScanEntryView>,
    now: Timestamp,
    summaries: Seq<ForestSummaryView>,
    name: Seq<char>,
    mode: ForestMode,
)
    requires
        listed_at(discovered(entries), now, summaries),
    ensures
        shown(summaries, name, mode) == forests_found(entries, name, mode),
{
    let forests = discovered(entries);
    law_newest_first(forests);
    lemma_shown(newest_first(forests), summaries, name, mode);
    lemma_newest_first_bearing(forests, name, mode);
    lemma_discovered_bearing(entries, name, mode);
}

/// What a scan finds more when `entry` has come to stand at place `at`.
proof fn lemma_found_with(
    entries: Seq<ScanEntryView>,
    at: int,
    entry: ScanEntryView,
    name: Seq<char>,
    mode: ForestMode,
)
    requires
        0 <= at <= entries.len(),
    ensures
        forests_found(entries.insert(at, entry), name, mode) == forests_found(entries, name, mode)
            + if finds(entry, name, mode) {
            1nat
        } else {
            0nat
        },
{
    let q = |e: ScanEntryView| finds(e, name, mode);
    let front = entries.take(at);
    let back = entries.skip(at);
    let none = Seq::<ScanEntryView>::empty();
    none.lemma_filter_len_push(q, entry);
    assert(seq![entry] =~= none.push(entry));
    assert(entries =~= front + back);
    assert(entries.insert(at, entry) =~= (front + seq![entry]) + back);
    Seq::filter_distributes_over_add(front, back, q);
    Seq::filter_distributes_over_add(front + seq![entry], back, q);
    Seq::filter_distributes_over_add(front, seq![entry], q);
}

/// A forest that was created is listed. Let a request be planned, and let
/// a later scan find, beside what an earlier scan found, the forest's
/// directory with the record that a creation without failure writes last.
/// Then the listing made from the later scan shows the forest under the
/// request's name and mode once more than the earlier scan found it, and
/// every other name and mode as often as before. Where the earlier scan
/// found no forest of that name, the listing shows it exactly once.
pub proof fn law_created_forest_is_listed(
    inputs: NewInputsView,
    tmpl: ResolvedTemplateView,
    probes: PlanProbesView,
    created_at: Timestamp,
    earlier: Seq<ScanEntryView>,
    at: int,
    entry: ScanEntryView,
    now: Timestamp,
    summaries: Seq<ForestSummaryView>,
    name: Seq<char>,
    mode: ForestMode,
)
    requires
        planned(inputs, tmpl, probes) is Ok,
        0 <= at <= earlier.len(),
        entry.is_forest(),
        entry.path == planned(inputs, tmpl, probes)->Ok_0.forest_dir,
        entry.meta->Read_meta == planned(inputs, tmpl, probes)->Ok_0.meta_after(
            created_at,
            tmpl.repos.len(),
        ),
        listed_at(discovered(earlier.insert(at, entry)), now, summaries),
    ensures
        shown(summaries, name, mode) == forests_found(earlier, name, mode) + if name == inputs.name
            && mode == inputs.mode {
            1nat
        } else {
            0nat
        },
{
    law_listing_shows_what_was_found(earlier.insert(at, entry), now, summaries, name, mode);
    lemma_found_with(earlier, at, entry, name, mode);
}

/// A forest that was removed is not listed. Let a scan find a forest at
/// place `at`, and let a later scan find what the first found but for that
/// entry, the forest's directory being gone. Then the listing made from the
/// later scan shows the forest's name and mode once less than the first
/// scan found it, and every other name and mode as often as before. Where
/// the first scan found the name once, the listing does not show it.
pub proof fn law_removed_forest_is_not_listed(
    found: Seq<ScanEntryView>,
    at: int,
    now: Timestamp,
    summaries: Seq<ForestSummaryView>,
    name: Seq<char>,
    mode: ForestMode,
)
    requires
        0 <= at < found.len(),
        found[at].is_forest(),
        listed_at(discovered(found.remove(at)), now, summaries),
    ensures
        shown(summaries, name, mode) + if finds(found[at], name, mode) {
            1nat
        } else {
            0nat
        } == forests_found(found, name, mode),
{
    law_listing_shows_what_was_found(found.remove(at), now, summaries, name, mode);
    lemma_found_with(found.remove(at), at, found[at], name, mode);
    assert(found.remove(at).insert(at, found[at]) =~= found);
}

/// Creation and removal leave the listing as it was. Where a scan finds,
/// after a forest was created and removed again, what a scan found before
/// the creation, the two listings show every name and mode equally often.
pub proof fn law_round_trip(
    earlier: Seq<ScanEntryView>,
    at: int,
    entry: ScanEntryView,
    then: Timestamp,
    before: Seq<ForestSummaryView>,
    now: Timestamp,
    after: Seq<ForestSummaryView>,
    name: Seq<char>,
    mode: ForestMode,
)
    requires
        0 <= at <= earlier.len(),
        entry.is_forest(),
        listed_at(discovered(earlier), then, before),
        listed_at(discovered(earlier.insert(at, entry).remove(at)), now, after),
    ensures
        shown(after, name, mode) == shown(before, name, mode),
{
    assert(earlier.insert(at, entry).remove(at) =~= earlier);
    law_listing_shows_what_was_found(earlier, then, before, name, mode);
    law_listing_shows_what_was_found(earlier, now, after, name, mode);
}

} // verus!
