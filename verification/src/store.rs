use vstd::prelude::*;
use vstd::map::*;
use crate::position::Position;

verus! {

/// One vehicle's entry in the store: its identifier and its current position.
struct StoreEntry {
    id: String,
    position: Position,
}

/// No two entries carry the same vehicle identifier.
spec fn distinct_ids(s: Seq<StoreEntry>) -> bool {
    forall|i: int, j: int| 0 <= i < j < s.len() ==> s[i].id@ != s[j].id@
}

/// The mapping a sequence of entries denotes: each identifier present in the
/// sequence maps to the position of the entry that carries it.
spec fn entries_map(s: Seq<StoreEntry>) -> Map<Seq<char>, Position> {
    Map::new(
        |k: Seq<char>| exists|i: int| 0 <= i < s.len() && s[i].id@ == k,
        |k: Seq<char>| s[choose|i: int| 0 <= i < s.len() && s[i].id@ == k].position,
    )
}

proof fn lemma_map_at(s: Seq<StoreEntry>, i: int)
    requires
        distinct_ids(s),
        0 <= i < s.len(),
    ensures
        entries_map(s).contains_key(s[i].id@),
        entries_map(s)[s[i].id@] == s[i].position,
{
    let k = s[i].id@;
    assert(entries_map(s).contains_key(k)) by {
        assert(0 <= i < s.len() && s[i].id@ == k);
    }
    let j = choose|j: int| 0 <= j < s.len() && s[j].id@ == k;
    if j != i {
        if j < i {
            assert(s[j].id@ != s[i].id@);
        } else {
            assert(s[i].id@ != s[j].id@);
        }
    }
}

proof fn lemma_map_absent(s: Seq<StoreEntry>, k: Seq<char>)
    requires
        forall|i: int| 0 <= i < s.len() ==> s[i].id@ != k,
    ensures
        !entries_map(s).contains_key(k),
{
}

proof fn lemma_map_finite(s: Seq<StoreEntry>)
    ensures
        entries_map(s).dom().finite(),
    decreases s.len(),
{
    if s.len() == 0 {
        assert(entries_map(s).dom() =~= Set::<Seq<char>>::empty());
    } else {
        let t = s.drop_last();
        lemma_map_finite(t);
        assert forall|k: Seq<char>| #[trigger] entries_map(s).dom().contains(k)
            implies entries_map(t).dom().contains(k) || k == s.last().id@ by {
            let i = choose|i: int| 0 <= i < s.len() && s[i].id@ == k;
            if i < s.len() - 1 {
                assert(t[i].id@ == k);
            }
        }
        assert forall|k: Seq<char>| #[trigger] entries_map(t).dom().contains(k)
            implies entries_map(s).dom().contains(k) by {
            let i = choose|i: int| 0 <= i < t.len() && t[i].id@ == k;
            assert(s[i].id@ == k);
        }
        assert(s[s.len() - 1].id@ == s.last().id@);
        assert(entries_map(s).dom() =~= entries_map(t).dom().insert(s.last().id@));
    }
}

proof fn lemma_map_update(s: Seq<StoreEntry>, i: int, e: StoreEntry)
    requires
        distinct_ids(s),
        0 <= i < s.len(),
        s[i].id@ == e.id@,
    ensures
        distinct_ids(s.update(i, e)),
        entries_map(s.update(i, e)) == entries_map(s).insert(e.id@, e.position),
{
    let t = s.update(i, e);
    assert(forall|a: int| 0 <= a < t.len() ==> t[a].id@ == s[a].id@);
    assert(distinct_ids(t));
    assert_maps_equal!(entries_map(t), entries_map(s).insert(e.id@, e.position), k => {
        if k == e.id@ {
            lemma_map_at(t, i);
        } else {
            if exists|j: int| 0 <= j < s.len() && s[j].id@ == k {
                let j = choose|j: int| 0 <= j < s.len() && s[j].id@ == k;
                assert(t[j].id@ == k);
                lemma_map_at(s, j);
                lemma_map_at(t, j);
            } else {
                lemma_map_absent(s, k);
                lemma_map_absent(t, k);
            }
        }
    });
}

proof fn lemma_map_push(s: Seq<StoreEntry>, e: StoreEntry)
    requires
        distinct_ids(s),
        forall|j: int| 0 <= j < s.len() ==> s[j].id@ != e.id@,
    ensures
        distinct_ids(s.push(e)),
        entries_map(s.push(e)) == entries_map(s).insert(e.id@, e.position),
{
    let t = s.push(e);
    assert(forall|a: int| 0 <= a < s.len() ==> t[a] == s[a]);
    assert(t[s.len() as int] == e);
    assert(distinct_ids(t));
    assert_maps_equal!(entries_map(t), entries_map(s).insert(e.id@, e.position), k => {
        if k == e.id@ {
            lemma_map_at(t, s.len() as int);
            lemma_map_absent(s, k);
        } else {
            if exists|j: int| 0 <= j < s.len() && s[j].id@ == k {
                let j = choose|j: int| 0 <= j < s.len() && s[j].id@ == k;
                assert(t[j].id@ == k);
                lemma_map_at(s, j);
                lemma_map_at(t, j);
            } else {
                lemma_map_absent(s, k);
                lemma_map_absent(t, k);
            }
        }
    });
}

proof fn lemma_map_remove(s: Seq<StoreEntry>, i: int)
    requires
        distinct_ids(s),
        0 <= i < s.len(),
    ensures
        distinct_ids(s.remove(i)),
        entries_map(s.remove(i)) == entries_map(s).remove(s[i].id@),
{
    let t = s.remove(i);
    assert(forall|a: int| 0 <= a < i ==> t[a] == s[a]);
    assert(forall|a: int| i <= a < t.len() ==> t[a] == s[a + 1]);
    assert(distinct_ids(t)) by {
        assert forall|a: int, b: int| 0 <= a < b < t.len() implies t[a].id@ != t[b].id@ by {
            let sa = if a < i { a } else { a + 1 };
            let sb = if b < i { b } else { b + 1 };
            assert(t[a] == s[sa]);
            assert(t[b] == s[sb]);
            assert(s[sa].id@ != s[sb].id@);
        }
    }
    assert_maps_equal!(entries_map(t), entries_map(s).remove(s[i].id@), k => {
        if k == s[i].id@ {
            assert forall|a: int| 0 <= a < t.len() implies t[a].id@ != k by {
                let sa = if a < i { a } else { a + 1 };
                assert(t[a] == s[sa]);
                if sa < i {
                    assert(s[sa].id@ != s[i].id@);
                } else {
                    assert(s[i].id@ != s[sa].id@);
                }
            }
            lemma_map_absent(t, k);
        } else {
            if exists|j: int| 0 <= j < s.len() && s[j].id@ == k {
                let j = choose|j: int| 0 <= j < s.len() && s[j].id@ == k;
                assert(j != i);
                let tj = if j < i { j } else { j - 1 };
                assert(t[tj] == s[j]);
                lemma_map_at(s, j);
                lemma_map_at(t, tj);
            } else {
                lemma_map_absent(s, k);
                assert forall|a: int| 0 <= a < t.len() implies t[a].id@ != k by {
                    let sa = if a < i { a } else { a + 1 };
                    assert(t[a] == s[sa]);
                }
                lemma_map_absent(t, k);
            }
        }
    });
}

/// The mutable mapping from vehicle identifier to its last reported
/// position.  At most one position is held per identifier at any time; the
/// abstract value is the map from identifier to position.
pub struct PositionStore {
    entries: Vec<StoreEntry>,
}

impl View for PositionStore {
    type V = Map<Seq<char>, Position>;

    closed spec fn view(&self) -> Map<Seq<char>, Position> {
        entries_map(self.entries@)
    }
}

impl PositionStore {
    /// The store's internal invariant: identifiers are unique, so the
    /// abstract map holds finitely many vehicles, one entry each.
    pub closed spec fn wf(&self) -> bool {
        &&& distinct_ids(self.entries@)
        &&& self@.dom().finite()
    }

    /// A well-formed store's abstract map has a finite domain: finitely
    /// many vehicles hold a position, one entry each.
    pub proof fn lemma_wf_finite(&self)
        requires
            self.wf(),
        ensures
            self@.dom().finite(),
    {
    }

    /// An empty store: no vehicle has reported a position.
    pub fn new() -> (s: PositionStore)
        ensures
            s.wf(),
            s@ == Map::<Seq<char>, Position>::empty(),
    {
        let s = PositionStore { entries: Vec::new() };
        proof {
            assert_maps_equal!(s@, Map::<Seq<char>, Position>::empty(), k => {
                lemma_map_absent(s.entries@, k);
            });
            lemma_map_finite(s.entries@);
        }
        s
    }

    /// The index of the entry for `id`, if one is present.
    fn find_index(&self, id: &String) -> (r: Option<usize>)
        ensures
            match r {
                Some(i) => i < self.entries@.len() && self.entries@[i as int].id@ == id@,
                None => forall|j: int| 0 <= j < self.entries@.len() ==> self.entries@[j].id@ != id@,
            },
    {
        let mut i: usize = 0;
        while i < self.entries.len()
            invariant
                i <= self.entries@.len(),
                forall|j: int| 0 <= j < i ==> self.entries@[j].id@ != id@,
            decreases self.entries@.len() - i,
        {
            if self.entries[i].id == *id {
                return Some(i);
            }
            i = i + 1;
        }
        None
    }

    /// Returns a copy of the stored position for `id`, or nothing if that
    /// identifier has never been seen or was removed.
    pub fn get(&self, id: &String) -> (r: Option<Position>)
        requires
            self.wf(),
        ensures
            r == if self@.contains_key(id@) {
                Some(self@[id@])
            } else {
                None::<Position>
            },
    {
        match self.find_index(id) {
            Some(i) => {
                proof {
                    lemma_map_at(self.entries@, i as int);
                }
                Some(self.entries[i].position)
            },
            None => {
                proof {
                    lemma_map_absent(self.entries@, id@);
                }
                None
            },
        }
    }

    /// Stores a position for `id`, overwriting any earlier one without
    /// trace, and returns the position as stored.
    pub fn upsert(&mut self, id: String, latitude_bits: u64, longitude_bits: u64, timestamp_ms: i64) -> (p: Position)
        requires
            old(self).wf(),
        ensures
            final(self).wf(),
            p == (Position { latitude_bits, longitude_bits, timestamp_ms }),
            final(self)@ == old(self)@.insert(id@, p),
    {
        let p = Position::new(latitude_bits, longitude_bits, timestamp_ms);
        let ghost s0 = self.entries@;
        match self.find_index(&id) {
            Some(i) => {
                let e = StoreEntry { id, position: p };
                proof {
                    lemma_map_update(s0, i as int, e);
                }
                self.entries[i] = e;
            },
            None => {
                let e = StoreEntry { id, position: p };
                proof {
                    lemma_map_push(s0, e);
                }
                self.entries.push(e);
            },
        }
        proof {
            lemma_map_finite(self.entries@);
        }
        p
    }

    /// Deletes the entry for `id` if present; the result says whether a
    /// deletion actually occurred.
    pub fn remove(&mut self, id: &String) -> (r: bool)
        requires
            old(self).wf(),
        ensures
            final(self).wf(),
            r == old(self)@.contains_key(id@),
            final(self)@ == old(self)@.remove(id@),
    {
        let ghost s0 = self.entries@;
        match self.find_index(id) {
            Some(i) => {
                proof {
                    lemma_map_at(s0, i as int);
                    lemma_map_remove(s0, i as int);
                }
                self.entries.remove(i);
                proof {
                    lemma_map_finite(self.entries@);
                }
                true
            },
            None => {
                proof {
                    lemma_map_absent(s0, id@);
                    assert(entries_map(s0).remove(id@) =~= entries_map(s0));
                }
                false
            },
        }
    }

}

} // verus!
