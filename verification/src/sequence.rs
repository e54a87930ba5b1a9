//! Dropping marked items from a sequence.

use vstd::prelude::*;

verus! {

/// The items of `items` whose mark in `gone` is not set, in their order.
/// An item without a mark stays.
pub open spec fn without<T>(items: Seq<T>, gone: Seq<bool>) -> Seq<T>
    decreases items.len(),
{
    if items.len() == 0 {
        items
    } else {
        let last = items.len() - 1;
        let rest = without(items.drop_last(), gone);
        if last < gone.len() && gone[last] {
            rest
        } else {
            rest.push(items.last())
        }
    }
}

/// The number of marks set in `marks`.
pub open spec fn count(marks: Seq<bool>) -> nat
    decreases marks.len(),
{
    if marks.len() == 0 {
        0
    } else {
        count(marks.drop_last()) + if marks.last() {
            1nat
        } else {
            0nat
        }
    }
}

/// Copies the items whose mark is not set.
pub fn retain<T: Copy>(items: &Vec<T>, gone: &Vec<bool>) -> (kept: Vec<T>)
    requires
        gone.len() == items.len(),
    ensures
        kept@ == without(items@, gone@),
{
    let mut kept: Vec<T> = Vec::new();
    let mut i: usize = 0;
    while i < items.len()
        invariant
            i <= items.len(),
            gone.len() == items.len(),
            kept@ == without(items@.take(i as int), gone@),
        decreases items.len() - i,
    {
        proof {
            lemma_without_step(items@, gone@, i as int);
        }
        if !gone[i] {
            kept.push(items[i]);
        }
        i += 1;
    }
    assert(items@.take(items.len() as int) =~= items@);
    kept
}

/// Only the marks that stand beside an item matter.
pub proof fn lemma_without_ignores_later_marks<T>(items: Seq<T>, gone: Seq<bool>, other: Seq<bool>)
    requires
        gone.len() >= items.len(),
        other.len() >= items.len(),
        forall|i: int| 0 <= i < items.len() ==> gone[i] == other[i],
    ensures
        without(items, gone) == without(items, other),
    decreases items.len(),
{
    if items.len() > 0 {
        lemma_without_ignores_later_marks(items.drop_last(), gone, other);
    }
}

/// Dropping marked items one item further along.
pub proof fn lemma_without_step<T>(items: Seq<T>, gone: Seq<bool>, n: int)
    requires
        0 <= n < items.len(),
        gone.len() >= items.len(),
    ensures
        without(items.take(n + 1), gone) == if gone[n] {
            without(items.take(n), gone)
        } else {
            without(items.take(n), gone).push(items[n])
        },
{
    assert(items.take(n + 1).drop_last() =~= items.take(n));
}

/// As many items stay as have no mark set.
pub proof fn lemma_without_len<T>(items: Seq<T>, gone: Seq<bool>)
    requires
        gone.len() == items.len(),
    ensures
        without(items, gone).len() + count(gone) == items.len(),
    decreases items.len(),
{
    if items.len() > 0 {
        lemma_without_len(items.drop_last(), gone.drop_last());
        lemma_without_ignores_later_marks(items.drop_last(), gone, gone.drop_last());
    }
}

/// The places in `items` of the items that stay, in order: each item that
/// stays is the item at its place, places rise, and no place is marked.
pub proof fn lemma_without_places<T>(items: Seq<T>, gone: Seq<bool>) -> (places: Seq<int>)
    requires
        gone.len() == items.len(),
    ensures
        places.len() == without(items, gone).len(),
        forall|k: int|
            0 <= k < places.len() ==> 0 <= #[trigger] places[k] < items.len() && !gone[places[k]] && without(
                items,
                gone,
            )[k] == items[places[k]],
        forall|k: int, l: int| 0 <= k < l < places.len() ==> #[trigger] places[k] < #[trigger] places[l],
    decreases items.len(),
{
    if items.len() == 0 {
        Seq::empty()
    } else {
        let last = items.len() - 1;
        let before = lemma_without_places(items.drop_last(), gone.drop_last());
        lemma_without_ignores_later_marks(items.drop_last(), gone, gone.drop_last());
        if gone[last] {
            before
        } else {
            before.push(last)
        }
    }
}

/// Every item that stays is an item of `items` whose mark is not set.
pub proof fn lemma_without_origin<T>(items: Seq<T>, gone: Seq<bool>, k: int)
    requires
        gone.len() == items.len(),
        0 <= k < without(items, gone).len(),
    ensures
        exists|i: int| 0 <= i < items.len() && !gone[i] && #[trigger] items[i] == without(items, gone)[k],
{
    let places = lemma_without_places(items, gone);
    assert(items[places[k]] == without(items, gone)[k]);
}

/// Where no mark is set the count is zero.
pub proof fn lemma_count_none(marks: Seq<bool>)
    requires
        forall|i: int| 0 <= i < marks.len() ==> !marks[i],
    ensures
        count(marks) == 0,
    decreases marks.len(),
{
    if marks.len() > 0 {
        lemma_count_none(marks.drop_last());
    }
}

/// Setting one mark that was not set adds one to the count.
pub proof fn lemma_count_one_more(marks: Seq<bool>, more: Seq<bool>, at: int)
    requires
        more.len() == marks.len(),
        0 <= at < marks.len(),
        !marks[at],
        more[at],
        forall|i: int| 0 <= i < marks.len() && i != at ==> marks[i] == more[i],
    ensures
        count(more) == count(marks) + 1,
    decreases marks.len(),
{
    let last = marks.len() - 1;
    if at == last {
        assert(more.drop_last() =~= marks.drop_last());
    } else {
        lemma_count_one_more(marks.drop_last(), more.drop_last(), at);
    }
}

} // verus!
