//! The store's operations are specified over its abstract value, a map from
//! vehicle identifier to position: `upsert` yields `insert`, `remove` yields
//! `remove`, and `get` reads the map.  These laws state how the operations
//! compose.

use vstd::prelude::*;
use vstd::map::*;
use crate::position::Position;

verus! {

/// Submitting a position for a vehicle, then fetching that vehicle, returns
/// exactly the submitted position, whatever the store held before.
pub proof fn lemma_submit_then_fetch(m: Map<Seq<char>, Position>, id: Seq<char>, p: Position)
    ensures
        m.insert(id, p).contains_key(id),
        m.insert(id, p)[id] == p,
{
}

/// A second submission for the same vehicle overwrites the first without
/// trace: a fetch after both sees only the second position, and the store
/// is as if the first submission had never happened.
pub proof fn lemma_resubmit_overwrites(
    m: Map<Seq<char>, Position>,
    id: Seq<char>,
    p1: Position,
    p2: Position,
)
    ensures
        m.insert(id, p1).insert(id, p2)[id] == p2,
        m.insert(id, p1).insert(id, p2) == m.insert(id, p2),
{
    assert_maps_equal!(m.insert(id, p1).insert(id, p2), m.insert(id, p2), k => {});
}

/// A vehicle that never submitted is not found in an empty store, and a
/// vehicle whose sharing was stopped is not found afterwards.
pub proof fn lemma_unknown_not_found(m: Map<Seq<char>, Position>, id: Seq<char>)
    ensures
        !Map::<Seq<char>, Position>::empty().contains_key(id),
        !m.remove(id).contains_key(id),
{
}

/// Stopping a vehicle that is absent (never submitted, or already removed)
/// leaves the store exactly as it was; that the operation reports not-found
/// on such a vehicle is pinned by `remove`'s own contract.
pub proof fn lemma_stop_absent(m: Map<Seq<char>, Position>, id: Seq<char>)
    requires
        !m.contains_key(id),
    ensures
        m.remove(id) == m,
{
    assert_maps_equal!(m.remove(id), m, k => {});
}

/// Stopping a vehicle removes only that vehicle: every other identifier
/// keeps its position.
pub proof fn lemma_stop_leaves_others(
    m: Map<Seq<char>, Position>,
    id: Seq<char>,
    other: Seq<char>,
)
    requires
        other != id,
    ensures
        m.remove(id).contains_key(other) == m.contains_key(other),
        m.contains_key(other) ==> m.remove(id)[other] == m[other],
{
}

/// The store after a batch of submissions, applied in order.
pub open spec fn submit_all(
    m: Map<Seq<char>, Position>,
    subs: Seq<(Seq<char>, Position)>,
) -> Map<Seq<char>, Position>
    decreases subs.len(),
{
    if subs.len() == 0 {
        m
    } else {
        submit_all(m, subs.drop_last()).insert(subs.last().0, subs.last().1)
    }
}

/// Submissions for distinct vehicles do not contaminate one another: after
/// a batch of submissions whose identifiers are pairwise distinct, in any
/// order, each vehicle's fetch returns exactly the position submitted for
/// it.
pub proof fn lemma_distinct_submissions(
    m: Map<Seq<char>, Position>,
    subs: Seq<(Seq<char>, Position)>,
    k: int,
)
    requires
        forall|a: int, b: int| 0 <= a < b < subs.len() ==> subs[a].0 != subs[b].0,
        0 <= k < subs.len(),
    ensures
        submit_all(m, subs).contains_key(subs[k].0),
        submit_all(m, subs)[subs[k].0] == subs[k].1,
    decreases subs.len(),
{
    if k < subs.len() - 1 {
        assert(subs.drop_last()[k] == subs[k]);
        lemma_distinct_submissions(m, subs.drop_last(), k);
        assert(subs[k].0 != subs[subs.len() - 1].0);
    }
}

} // verus!
