//! Helpers for sequences: views of items, and the first item with a property.

use vstd::prelude::*;

verus! {

/// The views of the items of a sequence, in order.
pub open spec fn view_each<T: View>(items: Seq<T>) -> Seq<T::V> {
    Seq::new(items.len(), |i: int| items[i]@)
}

/// The views of a sequence with one more item are the views of the sequence
/// with the view of the item added.
pub proof fn lemma_view_each_push<T: View>(items: Seq<T>, x: T)
    ensures
        view_each(items.push(x)) == view_each(items).push(x@),
{
    assert(view_each(items.push(x)) =~= view_each(items).push(x@));
}

/// An optional index as a mathematical integer.
pub open spec fn as_index(r: Option<usize>) -> Option<int> {
    match r {
        Some(i) => Some(i as int),
        None => None,
    }
}

/// The least index below `n` at which `p` holds, if there is one.
pub open spec fn first_where(n: nat, p: spec_fn(int) -> bool) -> Option<int>
    decreases n,
{
    if n == 0 {
        None
    } else {
        match first_where((n - 1) as nat, p) {
            Some(i) => Some(i),
            None => if p(n - 1) {
                Some(n - 1)
            } else {
                None
            },
        }
    }
}

/// What `first_where` finds is the least index with the property, and it
/// finds nothing only where no index has it.
pub proof fn lemma_first_where(n: nat, p: spec_fn(int) -> bool)
    ensures
        match first_where(n, p) {
            Some(i) => 0 <= i < n && p(i) && forall|j: int| 0 <= j < i ==> !#[trigger] p(j),
            None => forall|j: int| 0 <= j < n ==> !#[trigger] p(j),
        },
    decreases n,
{
    if n > 0 {
        lemma_first_where((n - 1) as nat, p);
    }
}

/// An index with the property, below which no index has it, is what
/// `first_where` finds.
pub proof fn lemma_first_where_is(n: nat, p: spec_fn(int) -> bool, i: int)
    requires
        0 <= i < n,
        p(i),
        forall|j: int| 0 <= j < i ==> !#[trigger] p(j),
    ensures
        first_where(n, p) == Some(i),
{
    lemma_first_where(n, p);
}

/// Where no index has the property, `first_where` finds nothing.
pub proof fn lemma_first_where_none(n: nat, p: spec_fn(int) -> bool)
    requires
        forall|j: int| 0 <= j < n ==> !#[trigger] p(j),
    ensures
        first_where(n, p) is None,
{
    lemma_first_where(n, p);
}

} // verus!
