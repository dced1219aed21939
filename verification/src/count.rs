//! How many items of a list are of a kind.

use vstd::prelude::*;

verus! {

/// How many items of a list are of a kind. Of those before an item, this is the place
/// that the item has among its kind.
pub open spec fn count_of<A>(items: Seq<A>, kind: spec_fn(A) -> bool) -> nat
    decreases items.len(),
{
    if items.len() == 0 {
        0
    } else {
        count_of(items.drop_last(), kind) + if kind(items.last()) {
            1nat
        } else {
            0
        }
    }
}

/// Items have places among their kind that are below the number of all of it.
pub proof fn lemma_count_before<A>(items: Seq<A>, kind: spec_fn(A) -> bool, i: int)
    requires
        0 <= i < items.len(),
        kind(items[i]),
    ensures
        count_of(items.take(i), kind) < count_of(items, kind),
    decreases items.len(),
{
    if i == items.len() - 1 {
        assert(items.take(i) =~= items.drop_last());
    } else {
        lemma_count_before(items.drop_last(), kind, i);
        assert(items.drop_last().take(i) =~= items.take(i));
    }
}

/// The sum of what each item gives.
pub open spec fn sum_of<A>(items: Seq<A>, f: spec_fn(A) -> nat) -> nat
    decreases items.len(),
{
    if items.len() == 0 {
        0
    } else {
        sum_of(items.drop_last(), f) + f(items.last())
    }
}

/// What is picked out of a list by a kind is every item of it, in order.
pub proof fn lemma_filter_place<A>(items: Seq<A>, kind: spec_fn(A) -> bool, i: int)
    ensures
        items.filter(kind).len() == count_of(items, kind),
        0 <= i < items.len() && kind(items[i]) ==> count_of(items.take(i), kind)
            < items.filter(kind).len() && items.filter(kind)[count_of(items.take(i), kind) as int]
            == items[i],
    decreases items.len(),
{
    reveal(Seq::filter);
    if items.len() > 0 {
        let before = items.drop_last();
        lemma_filter_place(before, kind, i);
        if 0 <= i < items.len() && kind(items[i]) {
            if i == items.len() - 1 {
                assert(items.take(i) =~= before);
            } else {
                assert(before.take(i) =~= items.take(i));
                lemma_count_before(items, kind, i);
            }
        }
    }
}

} // verus!
