//! Handles: the numbers by which the host tells entities apart.
//!
//! Handles are given out in rising order and never twice, so that in every
//! list of entities the older entity comes first and has the smaller handle.

use crate::sequence::{lemma_without_places, without};
use vstd::prelude::*;

verus! {

/// The handles rise along the sequence.
pub open spec fn rising(ids: Seq<u64>) -> bool {
    forall|i: int, j: int| 0 <= i < j < ids.len() ==> #[trigger] ids[i] < #[trigger] ids[j]
}

/// Every handle of the sequence is below `bound`.
pub open spec fn below(ids: Seq<u64>, bound: u64) -> bool {
    forall|i: int| 0 <= i < ids.len() ==> #[trigger] ids[i] < bound
}

/// The two sequences share no handle.
pub open spec fn apart(a: Seq<u64>, b: Seq<u64>) -> bool {
    forall|i: int, j: int| 0 <= i < a.len() && 0 <= j < b.len() ==> #[trigger] a[i] != #[trigger] b[j]
}

/// `part` is `whole` with some handles left out: its handles are handles of
/// `whole`, at rising places.
pub open spec fn part_of(part: Seq<u64>, whole: Seq<u64>) -> bool {
    exists|places: Seq<int>|
        {
            &&& places.len() == part.len()
            &&& forall|k: int|
                0 <= k < part.len() ==> 0 <= #[trigger] places[k] < whole.len() && part[k] == whole[places[k]]
            &&& forall|k: int, l: int| 0 <= k < l < part.len() ==> #[trigger] places[k] < #[trigger] places[l]
        }
}

/// What holds of a sequence of handles holds of each part of it.
pub proof fn lemma_part_inherits(part: Seq<u64>, whole: Seq<u64>)
    requires
        part_of(part, whole),
    ensures
        rising(whole) ==> rising(part),
        forall|bound: u64| below(whole, bound) ==> #[trigger] below(part, bound),
        forall|other: Seq<u64>| apart(whole, other) ==> #[trigger] apart(part, other),
        forall|other: Seq<u64>| apart(other, whole) ==> #[trigger] apart(other, part),
        forall|id: u64| !whole.contains(id) ==> !(#[trigger] part.contains(id)),
{
    let places = choose|places: Seq<int>|
        {
            &&& places.len() == part.len()
            &&& forall|k: int|
                0 <= k < part.len() ==> 0 <= #[trigger] places[k] < whole.len() && part[k] == whole[places[k]]
            &&& forall|k: int, l: int| 0 <= k < l < part.len() ==> #[trigger] places[k] < #[trigger] places[l]
        };
    if rising(whole) {
        assert forall|i: int, j: int| 0 <= i < j < part.len() implies #[trigger] part[i] < #[trigger] part[j] by {
            assert(whole[places[i]] < whole[places[j]]);
        }
    }
    assert forall|bound: u64| below(whole, bound) implies #[trigger] below(part, bound) by {
        assert forall|i: int| 0 <= i < part.len() implies #[trigger] part[i] < bound by {
            assert(whole[places[i]] < bound);
        }
    }
    assert forall|other: Seq<u64>| apart(whole, other) implies #[trigger] apart(part, other) by {
        assert forall|i: int, j: int| 0 <= i < part.len() && 0 <= j < other.len() implies #[trigger] part[i]
            != #[trigger] other[j] by {
            assert(whole[places[i]] != other[j]);
        }
    }
    assert forall|other: Seq<u64>| apart(other, whole) implies #[trigger] apart(other, part) by {
        assert forall|i: int, j: int| 0 <= i < other.len() && 0 <= j < part.len() implies #[trigger] other[i]
            != #[trigger] part[j] by {
            assert(other[i] != whole[places[j]]);
        }
    }
    assert forall|id: u64| !whole.contains(id) implies !(#[trigger] part.contains(id)) by {
        if part.contains(id) {
            let k = choose|k: int| 0 <= k < part.len() && part[k] == id;
            assert(whole[places[k]] == id);
        }
    }
}

/// The handles of a sequence of entities, where `key` reads the handle of an
/// entity.
pub open spec fn keys<T>(items: Seq<T>, key: spec_fn(T) -> u64) -> Seq<u64> {
    Seq::new(items.len(), |i: int| key(items[i]))
}

/// Entities that stay after some were dropped keep their handles: the
/// handles of those that stay are a part of the handles from before.
pub proof fn lemma_without_is_part<T>(items: Seq<T>, gone: Seq<bool>, key: spec_fn(T) -> u64)
    requires
        gone.len() == items.len(),
    ensures
        part_of(keys(without(items, gone), key), keys(items, key)),
{
    let places = lemma_without_places(items, gone);
    let part = keys(without(items, gone), key);
    let whole = keys(items, key);
    assert(places.len() == part.len());
    assert forall|k: int| 0 <= k < part.len() implies 0 <= #[trigger] places[k] < whole.len() && part[k]
        == whole[places[k]] by {}
}

/// Taking one entity out leaves a part of the handles.
pub proof fn lemma_remove_is_part<T>(items: Seq<T>, at: int, key: spec_fn(T) -> u64)
    requires
        0 <= at < items.len(),
    ensures
        part_of(keys(items.remove(at), key), keys(items, key)),
{
    let part = keys(items.remove(at), key);
    let whole = keys(items, key);
    let places = Seq::new(part.len(), |k: int| if k < at { k } else { k + 1 });
    assert(places.len() == part.len());
    assert forall|k: int| 0 <= k < part.len() implies 0 <= #[trigger] places[k] < whole.len() && part[k]
        == whole[places[k]] by {}
}

/// A sequence of handles is a part of itself.
pub proof fn lemma_part_of_itself(ids: Seq<u64>)
    ensures
        part_of(ids, ids),
{
    let places = Seq::new(ids.len(), |k: int| k);
    assert(places.len() == ids.len());
    assert(forall|k: int| 0 <= k < ids.len() ==> 0 <= #[trigger] places[k] < ids.len() && ids[k] == ids[places[k]]);
}

/// A new handle that is above all handles in use may join any sequence at
/// its end.
pub proof fn lemma_push_new(ids: Seq<u64>, id: u64)
    requires
        rising(ids),
        below(ids, id),
        id < u64::MAX,
    ensures
        rising(ids.push(id)),
        below(ids.push(id), (id + 1) as u64),
        forall|other: Seq<u64>| apart(ids, other) && below(other, id) ==> #[trigger] apart(ids.push(id), other),
        forall|other: Seq<u64>| apart(other, ids) && below(other, id) ==> #[trigger] apart(other, ids.push(id)),
{
}

/// Tells whether the handles rise along the vector.
pub fn is_rising(ids: &Vec<u64>) -> (b: bool)
    ensures
        b == rising(ids@),
{
    let mut i: usize = 1;
    while i < ids.len()
        invariant
            1 <= i,
            forall|k: int| 0 < k < i && k < ids.len() ==> #[trigger] ids@[k - 1] < ids@[k],
        decreases ids.len() - i,
    {
        if ids[i - 1] >= ids[i] {
            return false;
        }
        i += 1;
    }
    proof {
        lemma_neighbours_rise(ids@, ids@.len() as int);
    }
    true
}

/// Handles of which each is above the one before rise along the sequence.
proof fn lemma_neighbours_rise(ids: Seq<u64>, n: int)
    requires
        0 <= n <= ids.len(),
        forall|k: int| 0 < k < ids.len() ==> #[trigger] ids[k - 1] < ids[k],
    ensures
        forall|i: int, j: int| 0 <= i < j < n ==> #[trigger] ids[i] < #[trigger] ids[j],
    decreases n,
{
    if n > 1 {
        lemma_neighbours_rise(ids, n - 1);
        assert(ids[(n - 1) - 1] < ids[n - 1]);
    }
}

/// Tells whether every handle of the vector is below `bound`.
pub fn is_below(ids: &Vec<u64>, bound: u64) -> (b: bool)
    ensures
        b == below(ids@, bound),
{
    let mut i: usize = 0;
    while i < ids.len()
        invariant
            i <= ids.len(),
            forall|k: int| 0 <= k < i ==> #[trigger] ids@[k] < bound,
        decreases ids.len() - i,
    {
        if ids[i] >= bound {
            return false;
        }
        i += 1;
    }
    true
}

/// Tells whether the two vectors share no handle.
pub fn is_apart(a: &Vec<u64>, b: &Vec<u64>) -> (r: bool)
    ensures
        r == apart(a@, b@),
{
    let mut i: usize = 0;
    while i < a.len()
        invariant
            i <= a.len(),
            forall|k: int, l: int| 0 <= k < i && 0 <= l < b.len() ==> #[trigger] a@[k] != #[trigger] b@[l],
        decreases a.len() - i,
    {
        let mut j: usize = 0;
        while j < b.len()
            invariant
                i < a.len(),
                j <= b.len(),
                forall|l: int| 0 <= l < j ==> a@[i as int] != #[trigger] b@[l],
            decreases b.len() - j,
        {
            if a[i] == b[j] {
                return false;
            }
            j += 1;
        }
        i += 1;
    }
    true
}

} // verus!
