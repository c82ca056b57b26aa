//! Lists that are read as sets: an item is found by its first place in the
//! list, joins at the end, and leaves from its first place. And sets that
//! are written out as lists.
use vstd::prelude::*;
use vstd::std_specs::hash::*;
use vstd::std_specs::iter::IteratorSpec;
use std::collections::{HashMap, HashSet};

verus! {

broadcast use vstd::std_specs::hash::group_hash_axioms;

/// The first place of `id` in `ids`, or the length of `ids` where it is
/// missing.
pub open spec fn position<T>(ids: Seq<T>, id: T) -> int
    decreases ids.len(),
{
    if ids.len() == 0 {
        0
    } else if ids[0] == id {
        0
    } else {
        1 + position(ids.drop_first(), id)
    }
}

/// `ids` with `id` in it: unchanged where it is there, else with `id` at the
/// end.
pub open spec fn with_id<T>(ids: Seq<T>, id: T) -> Seq<T> {
    if ids.contains(id) {
        ids
    } else {
        ids.push(id)
    }
}

/// `ids` without the first `id` in it.
pub open spec fn without_id<T>(ids: Seq<T>, id: T) -> Seq<T> {
    if ids.contains(id) {
        ids.remove(position(ids, id))
    } else {
        ids
    }
}

/// What `position` returns: a place in the list or its length, the first at
/// which `id` stands.
pub proof fn lemma_position<T>(ids: Seq<T>, id: T)
    ensures
        0 <= position(ids, id) <= ids.len(),
        position(ids, id) < ids.len() <==> ids.contains(id),
        position(ids, id) < ids.len() ==> ids[position(ids, id)] == id,
        forall|j: int| 0 <= j < position(ids, id) ==> ids[j] != id,
    decreases ids.len(),
{
    if ids.len() == 0 {
    } else if ids[0] == id {
    } else {
        let rest = ids.drop_first();
        lemma_position(rest, id);
        let p = position(rest, id);
        if p < rest.len() {
            assert(ids[p + 1] == rest[p]);
        } else {
            assert forall|j: int| 0 <= j < ids.len() implies ids[j] != id by {
                if j > 0 {
                    assert(rest[j - 1] == ids[j]);
                    assert(!rest.contains(id));
                }
            }
        }
        assert forall|j: int| 0 <= j < 1 + p implies ids[j] != id by {
            if j > 0 {
                assert(rest[j - 1] == ids[j]);
            }
        }
    }
}

/// The first place at which `id` stands is its position.
pub proof fn lemma_position_is<T>(ids: Seq<T>, id: T, at: int)
    requires
        0 <= at <= ids.len(),
        at < ids.len() ==> ids[at] == id,
        forall|j: int| 0 <= j < at ==> ids[j] != id,
    ensures
        position(ids, id) == at,
{
    lemma_position(ids, id);
    let p = position(ids, id);
    if p < at {
        assert(ids[p] == id);
    } else if at < p {
        assert(ids[at] == id);
    }
}

/// Joining keeps a list without repeats so, and makes `id` a member beside
/// those that were.
pub proof fn lemma_with_id<T>(ids: Seq<T>, id: T)
    ensures
        with_id(ids, id).contains(id),
        forall|other: T| ids.contains(other) ==> with_id(ids, id).contains(other),
        forall|other: T| with_id(ids, id).contains(other) ==> other == id || ids.contains(other),
        ids.no_duplicates() ==> with_id(ids, id).no_duplicates(),
{
    let joined = with_id(ids, id);
    if !ids.contains(id) {
        assert(joined[ids.len() as int] == id);
        assert forall|other: T| ids.contains(other) implies joined.contains(other) by {
            let i = choose|i: int| 0 <= i < ids.len() && ids[i] == other;
            assert(joined[i] == other);
        }
    }
}

/// Leaving keeps a list without repeats so, keeps every other member, and in
/// a list without repeats leaves no `id` behind.
pub proof fn lemma_without_id<T>(ids: Seq<T>, id: T)
    ensures
        forall|other: T| other != id && ids.contains(other) ==> without_id(ids, id).contains(other),
        forall|other: T| without_id(ids, id).contains(other) ==> ids.contains(other),
        ids.no_duplicates() ==> without_id(ids, id).no_duplicates(),
        ids.no_duplicates() ==> !without_id(ids, id).contains(id),
        !ids.contains(id) ==> without_id(ids, id) == ids,
{
    lemma_position(ids, id);
    let left = without_id(ids, id);
    if ids.contains(id) {
        let p = position(ids, id);
        assert forall|other: T| other != id && ids.contains(other) implies left.contains(
            other,
        ) by {
            let i = choose|i: int| 0 <= i < ids.len() && ids[i] == other;
            if i < p {
                assert(left[i] == other);
            } else {
                assert(left[i - 1] == other);
            }
        }
        assert forall|other: T| left.contains(other) implies ids.contains(other) by {
            let i = choose|i: int| 0 <= i < left.len() && left[i] == other;
            if i < p {
                assert(ids[i] == other);
            } else {
                assert(ids[i + 1] == other);
            }
        }
        if ids.no_duplicates() {
            assert forall|i: int, j: int| 0 <= i < left.len() && 0 <= j < left.len() && i != j implies left[i] != left[j] by {
                let a = if i < p { i } else { i + 1 };
                let b = if j < p { j } else { j + 1 };
                assert(left[i] == ids[a] && left[j] == ids[b]);
            }
            assert forall|i: int| 0 <= i < left.len() implies left[i] != id by {
                let a = if i < p { i } else { i + 1 };
                assert(left[i] == ids[a]);
            }
        }
    }
}

/// Whether a list holds exactly the identifiers of a set, each once.
pub open spec fn lists(order: Seq<u128>, ids: Set<u128>) -> bool {
    order.no_duplicates() && order.to_set() == ids
}

/// Only the empty list lists the empty set.
pub proof fn lemma_lists_nothing(order: Seq<u128>)
    ensures
        lists(order, Set::empty()) <==> order.len() == 0,
{
    if order.len() > 0 {
        assert(order.to_set().contains(order[0]));
    } else {
        assert(order.to_set() =~= Set::<u128>::empty());
    }
}

/// The members of a set as a list, in the order in which the set is walked.
pub fn listed(members: &HashSet<u128>) -> (list: Vec<u128>)
    ensures
        lists(list@, members@),
{
    let mut list: Vec<u128> = Vec::new();
    for id in it: members.iter()
        invariant
            it.seq() == spec_hash_keys_iter(members).remaining(),
            list@.len() == it.index(),
            forall|j: int| 0 <= j < it.index() ==> list@[j] == *it.seq()[j],
    {
        list.push(*id);
    }
    assert(list@ =~= spec_hash_keys_iter(members).remaining().unref());
    list
}

/// The keys of a map as a list, in the order in which the map is walked.
pub fn keys_listed<V>(map: &HashMap<u128, V>) -> (list: Vec<u128>)
    ensures
        lists(list@, map@.dom()),
{
    let mut list: Vec<u128> = Vec::new();
    for id in it: map.keys()
        invariant
            it.seq() == spec_keys_iter(map).remaining(),
            list@.len() == it.index(),
            forall|j: int| 0 <= j < it.index() ==> list@[j] == *it.seq()[j],
    {
        list.push(*id);
    }
    assert(list@ =~= spec_keys_iter(map).remaining().unref());
    list
}

} // verus!
