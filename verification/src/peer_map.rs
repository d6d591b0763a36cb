//! Maps and sets keyed by endpoint ids.

use crate::keys::EndpointId;
use vstd::prelude::*;

verus! {

/// What entries map ids to; of two entries with one id the later counts.
pub open spec fn entry_map<V>(entries: Seq<(EndpointId, V)>) -> Map<Seq<u8>, V>
    decreases entries.len(),
{
    if entries.len() == 0 {
        Map::empty()
    } else {
        entry_map(entries.drop_last()).insert(entries.last().0@, entries.last().1)
    }
}

/// No two entries have the same id.
pub open spec fn ids_differ<V>(entries: Seq<(EndpointId, V)>) -> bool {
    forall|i: int, j: int|
        0 <= i < j < entries.len() ==> (#[trigger] entries[i]).0@ != (#[trigger] entries[j]).0@
}

proof fn lemma_entry_map<V>(entries: Seq<(EndpointId, V)>)
    requires
        ids_differ(entries),
    ensures
        entry_map(entries).dom().finite(),
        entry_map(entries).dom().len() == entries.len(),
        forall|i: int|
            0 <= i < entries.len() ==> entry_map(entries).contains_key((#[trigger] entries[i]).0@)
                && entry_map(entries)[entries[i].0@] == entries[i].1,
        forall|id: Seq<u8>| #[trigger]
            entry_map(entries).contains_key(id) ==> exists|i: int|
                0 <= i < entries.len() && (#[trigger] entries[i]).0@ == id,
    decreases entries.len(),
{
    if entries.len() > 0 {
        let rest = entries.drop_last();
        let last = entries.last();
        assert(ids_differ(rest)) by {
            assert forall|i: int, j: int| 0 <= i < j < rest.len() implies (#[trigger] rest[i]).0@ != (
            #[trigger] rest[j]).0@ by {
                assert(entries[i].0@ != entries[j].0@);
            }
        }
        lemma_entry_map(rest);
        assert(!entry_map(rest).contains_key(last.0@)) by {
            if entry_map(rest).contains_key(last.0@) {
                let i = choose|i: int| 0 <= i < rest.len() && (#[trigger] rest[i]).0@ == last.0@;
                assert(entries[i].0@ != entries[entries.len() - 1].0@);
            }
        }
        assert(entry_map(entries).dom() =~= entry_map(rest).dom().insert(last.0@));
        assert forall|i: int| 0 <= i < entries.len() implies entry_map(entries).contains_key(
            (#[trigger] entries[i]).0@,
        ) && entry_map(entries)[entries[i].0@] == entries[i].1 by {
            if i < rest.len() {
                assert(rest[i] == entries[i]);
                assert(entry_map(rest).contains_key(rest[i].0@));
            }
        }
        assert forall|id: Seq<u8>| #[trigger] entry_map(entries).contains_key(id) implies exists|
            i: int,
        | 0 <= i < entries.len() && (#[trigger] entries[i]).0@ == id by {
            if id == last.0@ {
                assert(entries[entries.len() - 1].0@ == id);
            } else {
                assert(entry_map(rest).contains_key(id));
                let i = choose|i: int| 0 <= i < rest.len() && (#[trigger] rest[i]).0@ == id;
                assert(entries[i].0@ == id);
            }
        }
    }
}

/// Without one entry, the map is without its id.
proof fn lemma_entry_removed<V>(entries: Seq<(EndpointId, V)>, k: int)
    requires
        ids_differ(entries),
        0 <= k < entries.len(),
    ensures
        ids_differ(entries.remove(k)),
        entry_map(entries.remove(k)) == entry_map(entries).remove(entries[k].0@),
{
    let rest = entries.remove(k);
    assert(ids_differ(rest)) by {
        assert forall|i: int, j: int| 0 <= i < j < rest.len() implies (#[trigger] rest[i]).0@ != (
        #[trigger] rest[j]).0@ by {
            let i0 = if i < k { i } else { i + 1 };
            let j0 = if j < k { j } else { j + 1 };
            assert(entries[i0].0@ != entries[j0].0@);
        }
    }
    lemma_entry_map(entries);
    lemma_entry_map(rest);
    let before = entry_map(entries).remove(entries[k].0@);
    let after = entry_map(rest);
    assert forall|id: Seq<u8>|
        #![trigger before.dom().contains(id)]
        #![trigger after.dom().contains(id)]
        before.dom().contains(id) == after.dom().contains(id) && (before.dom().contains(id)
            ==> before[id] == after[id]) by {
        if before.contains_key(id) {
            assert(entry_map(entries).contains_key(id));
            let i = choose|i: int| 0 <= i < entries.len() && (#[trigger] entries[i]).0@ == id;
            let i0 = if i < k { i } else { i - 1 };
            assert(i != k);
            assert(rest[i0] == entries[i]);
        }
        if after.contains_key(id) {
            let i = choose|i: int| 0 <= i < rest.len() && (#[trigger] rest[i]).0@ == id;
            let i0 = if i < k { i } else { i + 1 };
            assert(entries[i0] == rest[i]);
            if i0 < k {
                assert(entries[i0].0@ != entries[k].0@);
            } else {
                assert(entries[k].0@ != entries[i0].0@);
            }
        }
    }
    assert(before.dom() =~= after.dom());
    assert(before =~= after);
}

/// A map from endpoint ids.
pub struct PeerMap<V> {
    entries: Vec<(EndpointId, V)>,
}

impl<V> View for PeerMap<V> {
    type V = Map<Seq<u8>, V>;

    closed spec fn view(&self) -> Map<Seq<u8>, V> {
        entry_map(self.entries@)
    }
}

impl<V> PeerMap<V> {
    /// No id occurs twice.
    pub closed spec fn wf(&self) -> bool {
        ids_differ(self.entries@)
    }

    /// The empty map.
    pub fn new() -> (r: PeerMap<V>)
        ensures
            r.wf(),
            r@ == Map::<Seq<u8>, V>::empty(),
    {
        PeerMap { entries: Vec::new() }
    }

    fn position(&self, id: &EndpointId) -> (r: Option<usize>)
        requires
            self.wf(),
        ensures
            r is Some <==> self@.contains_key(id@),
            r matches Some(k) ==> k < self.entries.len() && self.entries@[k as int].0@ == id@
                && self@[id@] == self.entries@[k as int].1,
    {
        proof {
            lemma_entry_map(self.entries@);
        }
        let mut k: usize = 0;
        while k < self.entries.len()
            invariant
                k <= self.entries.len(),
                self.wf(),
                forall|j: int| 0 <= j < k ==> (#[trigger] self.entries@[j]).0@ != id@,
            decreases self.entries.len() - k,
        {
            if self.entries[k].0.same(id) {
                proof {
                    lemma_entry_map(self.entries@);
                }
                return Some(k);
            }
            k = k + 1;
        }
        None
    }

    /// How many ids the map has.
    pub fn len(&self) -> (r: usize)
        requires
            self.wf(),
        ensures
            self@.dom().finite(),
            r == self@.dom().len(),
    {
        proof {
            lemma_entry_map(self.entries@);
        }
        self.entries.len()
    }

    /// Whether the map has the id.
    pub fn contains(&self, id: &EndpointId) -> (r: bool)
        requires
            self.wf(),
        ensures
            r == self@.contains_key(id@),
    {
        self.position(id).is_some()
    }

    /// What the id is mapped to.
    pub fn get(&self, id: &EndpointId) -> (r: Option<&V>)
        requires
            self.wf(),
        ensures
            r is Some <==> self@.contains_key(id@),
            r matches Some(v) ==> *v == self@[id@],
    {
        match self.position(id) {
            Some(k) => Some(&self.entries[k].1),
            None => None,
        }
    }

    /// Maps the id to the value; what it was mapped to before is gone.
    pub fn insert(&mut self, id: EndpointId, value: V)
        requires
            old(self).wf(),
        ensures
            final(self).wf(),
            final(self)@ == old(self)@.insert(id@, value),
    {
        self.remove(&id);
        let ghost before = self.entries@;
        self.entries.push((id, value));
        proof {
            lemma_entry_map(before);
            assert(self.entries@.drop_last() =~= before);
            assert forall|i: int, j: int| 0 <= i < j < self.entries.len() implies (
            #[trigger] self.entries@[i]).0@ != (#[trigger] self.entries@[j]).0@ by {
                assert(before[i].0@ != id@) by {
                    assert(entry_map(before).contains_key(before[i].0@));
                }
                if j < before.len() {
                    assert(before[i].0@ != before[j].0@);
                }
            }
            assert(self@ =~= old(self)@.insert(id@, value));
        }
    }

    /// Takes the id out.
    pub fn remove(&mut self, id: &EndpointId)
        requires
            old(self).wf(),
        ensures
            final(self).wf(),
            final(self)@ == old(self)@.remove(id@),
    {
        match self.position(id) {
            Some(k) => {
                proof {
                    lemma_entry_removed(self.entries@, k as int);
                }
                self.entries.remove(k);
            },
            None => {
                assert(self@ =~= self@.remove(id@));
            },
        }
    }

    /// Takes all ids out.
    pub fn clear(&mut self)
        ensures
            final(self).wf(),
            final(self)@ == Map::<Seq<u8>, V>::empty(),
    {
        self.entries = Vec::new();
    }
}

/// A set of endpoint ids.
pub struct PeerSet {
    members: PeerMap<()>,
}

impl View for PeerSet {
    type V = Set<Seq<u8>>;

    closed spec fn view(&self) -> Set<Seq<u8>> {
        self.members@.dom()
    }
}

impl PeerSet {
    /// No id is held twice.
    pub closed spec fn wf(&self) -> bool {
        self.members.wf()
    }

    /// The empty set.
    pub fn new() -> (r: PeerSet)
        ensures
            r.wf(),
            r@ == Set::<Seq<u8>>::empty(),
    {
        let r = PeerSet { members: PeerMap::new() };
        assert(r@ =~= Set::<Seq<u8>>::empty());
        r
    }

    /// Whether the id is in the set.
    pub fn contains(&self, id: &EndpointId) -> (r: bool)
        requires
            self.wf(),
        ensures
            r == self@.contains(id@),
    {
        self.members.contains(id)
    }

    /// Puts the id in, and tells whether it is new.
    pub fn insert(&mut self, id: EndpointId) -> (r: bool)
        requires
            old(self).wf(),
        ensures
            final(self).wf(),
            final(self)@ == old(self)@.insert(id@),
            r == !old(self)@.contains(id@),
    {
        let fresh = !self.members.contains(&id);
        self.members.insert(id, ());
        assert(self@ =~= old(self)@.insert(id@));
        fresh
    }
}

} // verus!
