use vstd::prelude::*;
use crate::error::SessionError;
use crate::ident::{is_session_id, new_session_id};

verus! {

/// Live sessions, each addressed by its identifier.
///
/// Entries are kept in a vector of (identifier, entry) pairs whose
/// identifiers are pairwise distinct, so the registry is a finite map from
/// identifier text to entry.
pub struct SessionRegistry<E> {
    slots: Vec<(String, E)>,
}

/// The map that `slots` stands for.
pub open spec fn slots_map<E>(slots: Seq<(String, E)>) -> Map<Seq<char>, E>
    decreases slots.len(),
{
    if slots.len() == 0 {
        Map::empty()
    } else {
        let last = slots.last();
        slots_map(slots.drop_last()).insert(last.0@, last.1)
    }
}

/// No identifier occurs twice among `slots`.
pub open spec fn ids_distinct<E>(slots: Seq<(String, E)>) -> bool {
    forall|i: int, j: int|
        0 <= i < slots.len() && 0 <= j < slots.len() && i != j ==> slots[i].0@ != slots[j].0@
}

/// Slot `i` holds `id`.
pub open spec fn slot_of<E>(slots: Seq<(String, E)>, id: Seq<char>, i: int) -> bool {
    0 <= i < slots.len() && slots[i].0@ == id
}

proof fn lemma_slots_map<E>(slots: Seq<(String, E)>)
    requires
        ids_distinct(slots),
    ensures
        forall|id: Seq<char>|
            #![trigger slots_map(slots).contains_key(id)]
            slots_map(slots).contains_key(id) <==> exists|i: int| slot_of(slots, id, i),
        forall|i: int|
            #![trigger slots[i]]
            0 <= i < slots.len() ==> slots_map(slots).contains_key(slots[i].0@) && slots_map(
                slots,
            )[slots[i].0@] == slots[i].1,
    decreases slots.len(),
{
    if slots.len() > 0 {
        let init = slots.drop_last();
        assert(ids_distinct(init));
        lemma_slots_map(init);
        assert forall|id: Seq<char>|
            #![trigger slots_map(slots).contains_key(id)]
            slots_map(slots).contains_key(id) <==> exists|i: int| slot_of(slots, id, i) by {
            if id == slots.last().0@ {
                assert(slot_of(slots, id, slots.len() - 1));
            }
            if slots_map(slots).contains_key(id) && id != slots.last().0@ {
                assert(slots_map(init).contains_key(id));
                let i = choose|i: int| slot_of(init, id, i);
                assert(slot_of(slots, id, i));
            }
            if exists|i: int| slot_of(slots, id, i) {
                let i = choose|i: int| slot_of(slots, id, i);
                if i < init.len() {
                    assert(slot_of(init, id, i));
                    assert(slots_map(init).contains_key(id));
                }
            }
        }
        assert forall|i: int|
            #![trigger slots[i]]
            0 <= i < slots.len() implies slots_map(slots).contains_key(slots[i].0@) && slots_map(
                slots,
            )[slots[i].0@] == slots[i].1 by {
            if i < init.len() {
                assert(init[i] == slots[i]);
                assert(slots[i].0@ != slots.last().0@);
            }
        }
    }
}

/// Removing slot `k` removes its identifier from the map.
proof fn lemma_slots_map_remove<E>(slots: Seq<(String, E)>, k: int)
    requires
        ids_distinct(slots),
        0 <= k < slots.len(),
    ensures
        ids_distinct(slots.remove(k)),
        slots_map(slots.remove(k)) == slots_map(slots).remove(slots[k].0@),
{
    let rest = slots.remove(k);
    assert(ids_distinct(rest)) by {
        assert forall|i: int, j: int|
            0 <= i < rest.len() && 0 <= j < rest.len() && i != j implies rest[i].0@
            != rest[j].0@ by {
            let a = if i < k { i } else { i + 1 };
            let b = if j < k { j } else { j + 1 };
            assert(rest[i] == slots[a]);
            assert(rest[j] == slots[b]);
        }
    }
    lemma_slots_map(slots);
    lemma_slots_map(rest);
    let want = slots_map(slots).remove(slots[k].0@);
    assert forall|id: Seq<char>| #[trigger]
        slots_map(rest).contains_key(id) <==> want.contains_key(id) by {
        if slots_map(rest).contains_key(id) {
            let i = choose|i: int| slot_of(rest, id, i);
            let a = if i < k { i } else { i + 1 };
            assert(rest[i] == slots[a]);
            assert(slot_of(slots, id, a));
        }
        if want.contains_key(id) {
            let a = choose|a: int| slot_of(slots, id, a);
            let i = if a < k { a } else { a - 1 };
            assert(rest[i] == slots[a]);
            assert(slot_of(rest, id, i));
        }
    }
    assert forall|id: Seq<char>| #[trigger]
        slots_map(rest).contains_key(id) implies slots_map(rest)[id] == want[id] by {
        let i = choose|i: int| slot_of(rest, id, i);
        let a = if i < k { i } else { i + 1 };
        assert(rest[i] == slots[a]);
    }
    assert(slots_map(rest) =~= want);
}

/// Writing any entry into slot `k`, under its own identifier, updates the map
/// at that identifier.
proof fn lemma_slots_map_update<E>(slots: Seq<(String, E)>, k: int)
    requires
        ids_distinct(slots),
        0 <= k < slots.len(),
    ensures
        forall|x: E|
            #![trigger slots.update(k, (slots[k].0, x))]
            ids_distinct(slots.update(k, (slots[k].0, x))) && slots_map(
                slots.update(k, (slots[k].0, x)),
            ) == slots_map(slots).insert(slots[k].0@, x),
{
    assert forall|x: E|
        #![trigger slots.update(k, (slots[k].0, x))]
        ids_distinct(slots.update(k, (slots[k].0, x))) && slots_map(
            slots.update(k, (slots[k].0, x)),
        ) == slots_map(slots).insert(slots[k].0@, x) by {
        let s = (slots[k].0, x);
        let next = slots.update(k, s);
        assert forall|i: int, j: int|
            0 <= i < next.len() && 0 <= j < next.len() && i != j implies next[i].0@
            != next[j].0@ by {
            assert(next[i].0@ == slots[i].0@);
            assert(next[j].0@ == slots[j].0@);
        }
        lemma_slots_map(slots);
        lemma_slots_map(next);
        let want = slots_map(slots).insert(s.0@, s.1);
        assert forall|id: Seq<char>| #[trigger]
            slots_map(next).contains_key(id) <==> want.contains_key(id) by {
            if slots_map(next).contains_key(id) {
                let i = choose|i: int| slot_of(next, id, i);
                assert(slot_of(slots, id, i));
            }
            if want.contains_key(id) && id != s.0@ {
                let a = choose|a: int| slot_of(slots, id, a);
                assert(slot_of(next, id, a));
            }
            if id == s.0@ {
                assert(slot_of(next, id, k));
            }
        }
        assert forall|id: Seq<char>| #[trigger]
            slots_map(next).contains_key(id) implies slots_map(next)[id] == want[id] by {
            let i = choose|i: int| slot_of(next, id, i);
            if id != s.0@ {
                assert(next[i] == slots[i]);
            } else {
                assert(i == k);
            }
        }
        assert(slots_map(next) =~= want);
    }
}

/// Appending a slot whose identifier is new extends the map by it.
proof fn lemma_slots_map_push<E>(slots: Seq<(String, E)>, s: (String, E))
    requires
        ids_distinct(slots),
        !slots_map(slots).contains_key(s.0@),
    ensures
        ids_distinct(slots.push(s)),
        slots_map(slots.push(s)) == slots_map(slots).insert(s.0@, s.1),
{
    lemma_slots_map(slots);
    let next = slots.push(s);
    assert(next.drop_last() =~= slots);
    assert(ids_distinct(next)) by {
        assert forall|i: int, j: int|
            0 <= i < next.len() && 0 <= j < next.len() && i != j implies next[i].0@
            != next[j].0@ by {
            if i < slots.len() && j < slots.len() {
                assert(next[i] == slots[i] && next[j] == slots[j]);
            } else if i < slots.len() {
                assert(next[i] == slots[i]);
                assert(slots_map(slots).contains_key(slots[i].0@));
            } else if j < slots.len() {
                assert(next[j] == slots[j]);
                assert(slots_map(slots).contains_key(slots[j].0@));
            }
        }
    }
}

impl<E> SessionRegistry<E> {
    /// The registered sessions, by identifier.
    pub closed spec fn view(&self) -> Map<Seq<char>, E> {
        slots_map(self.slots@)
    }

    /// Identifiers are unique.
    pub closed spec fn wf(&self) -> bool {
        ids_distinct(self.slots@)
    }

    /// An empty registry.
    pub fn new() -> (r: Self)
        ensures
            r.wf(),
            r@ == Map::<Seq<char>, E>::empty(),
    {
        SessionRegistry { slots: Vec::new() }
    }

    /// Number of registered sessions.
    pub fn len(&self) -> (r: usize)
        requires
            self.wf(),
        ensures
            r == self@.len(),
    {
        proof {
            lemma_len_of(self.slots@);
        }
        self.slots.len()
    }

    /// Position of the slot holding `id`.
    fn find(&self, id: &str) -> (r: Option<usize>)
        requires
            self.wf(),
        ensures
            r is None <==> !self@.contains_key(id@),
            r matches Some(k) ==> k < self.slots@.len() && self.slots@[k as int].0@ == id@,
    {
        proof {
            lemma_slots_map(self.slots@);
        }
        let wanted = String::from_str(id);
        let mut k: usize = 0;
        while k < self.slots.len()
            invariant
                k <= self.slots@.len(),
                wanted@ == id@,
                ids_distinct(self.slots@),
                forall|i: int| 0 <= i < k ==> self.slots@[i].0@ != id@,
            decreases self.slots@.len() - k,
        {
            let same = self.slots[k].0.eq(&wanted);
            if same {
                proof {
                    lemma_slots_map(self.slots@);
                    assert(self.slots@[k as int].0@ == id@);
                }
                return Some(k);
            }
            k = k + 1;
        }
        proof {
            lemma_slots_map(self.slots@);
            if self@.contains_key(id@) {
                let i = choose|i: int| slot_of(self.slots@, id@, i);
                assert(self.slots@[i].0@ != id@);
            }
        }
        None
    }

    /// Whether `id` names a registered session.
    pub fn contains(&self, id: &str) -> (r: bool)
        requires
            self.wf(),
        ensures
            r == self@.contains_key(id@),
    {
        self.find(id).is_some()
    }
    /// Registers `entry` under `id`, replacing and handing back any entry
    /// that `id` named before.
    pub fn insert(&mut self, id: String, entry: E) -> (r: Option<E>)
        requires
            old(self).wf(),
        ensures
            final(self).wf(),
            final(self)@ == old(self)@.insert(id@, entry),
            r is Some <==> old(self)@.contains_key(id@),
            r matches Some(prev) ==> prev == old(self)@[id@],
    {
        match self.find(id.as_str()) {
            Some(k) => {
                proof {
                    lemma_slots_map(self.slots@);
                    lemma_slots_map_remove(self.slots@, k as int);
                }
                let prev = self.slots.remove(k);
                proof {
                    lemma_slots_map_push(self.slots@, (id, entry));
                    assert(old(self)@.remove(id@).insert(id@, entry) =~= old(self)@.insert(
                        id@,
                        entry,
                    ));
                }
                self.slots.push((id, entry));
                Some(prev.1)
            },
            None => {
                proof {
                    lemma_slots_map_push(self.slots@, (id, entry));
                }
                self.slots.push((id, entry));
                None
            },
        }
    }

    /// The entry registered under `id`.
    pub fn get(&self, id: &str) -> (r: Result<&E, SessionError>)
        requires
            self.wf(),
        ensures
            r is Ok <==> self@.contains_key(id@),
            r matches Ok(e) ==> *e == self@[id@],
            r matches Err(e) ==> e is NotFound,
    {
        match self.find(id) {
            Some(k) => {
                proof {
                    lemma_slots_map(self.slots@);
                }
                Ok(&self.slots[k].1)
            },
            None => Err(SessionError::NotFound),
        }
    }

    /// The entry registered under `id`, to be changed in place.
    pub fn get_mut(&mut self, id: &str) -> (r: Result<&mut E, SessionError>)
        requires
            old(self).wf(),
        ensures
            r is Ok <==> old(self)@.contains_key(id@),
            r matches Ok(e) ==> *e == old(self)@[id@] && final(self).wf() && final(self)@
                == old(self)@.insert(id@, *final(e)),
            r matches Err(e) ==> e is NotFound && *final(self) == *old(self),
    {
        match self.find(id) {
            Some(k) => {
                proof {
                    lemma_slots_map(self.slots@);
                    lemma_slots_map_update(self.slots@, k as int);
                }
                let slot = &mut self.slots[k];
                Ok(&mut slot.1)
            },
            None => Err(SessionError::NotFound),
        }
    }

    /// Registers `entry` under a freshly drawn session identifier and
    /// returns that identifier.
    pub fn register(&mut self, entry: E) -> (id: String)
        requires
            old(self).wf(),
        ensures
            final(self).wf(),
            is_session_id(id@),
            final(self)@ == old(self)@.insert(id@, entry),
    {
        let id = new_session_id();
        let key = id.clone();
        self.insert(key, entry);
        id
    }

    /// Takes the entry registered under `id` out of the registry; an absent
    /// `id` leaves the registry as it was.
    pub fn remove(&mut self, id: &str) -> (r: Option<E>)
        requires
            old(self).wf(),
        ensures
            final(self).wf(),
            final(self)@ == old(self)@.remove(id@),
            r is Some <==> old(self)@.contains_key(id@),
            r matches Some(e) ==> e == old(self)@[id@],
    {
        match self.find(id) {
            Some(k) => {
                proof {
                    lemma_slots_map(self.slots@);
                    lemma_slots_map_remove(self.slots@, k as int);
                }
                let slot = self.slots.remove(k);
                Some(slot.1)
            },
            None => {
                assert(old(self)@.remove(id@) =~= old(self)@);
                None
            },
        }
    }
}

proof fn lemma_len_of<E>(slots: Seq<(String, E)>)
    requires
        ids_distinct(slots),
    ensures
        slots_map(slots).len() == slots.len(),
        slots_map(slots).dom().finite(),
    decreases slots.len(),
{
    if slots.len() > 0 {
        let init = slots.drop_last();
        assert(ids_distinct(init));
        lemma_len_of(init);
        lemma_slots_map(init);
        if slots_map(init).contains_key(slots.last().0@) {
            let i = choose|i: int| slot_of(init, slots.last().0@, i);
            assert(init[i] == slots[i]);
        }
    }
}

} // verus!
