//! A map from identifiers to values.
use vstd::prelude::*;

verus! {

/// An identifier and what is kept under it.
#[derive(Debug)]
pub struct IdEntry<V> {
    pub id: String,
    pub value: V,
}

/// What a list of entries keeps under each identifier: where there are several entries with one
/// identifier, the first counts.
pub open spec fn entries_to_map<V>(entries: Seq<IdEntry<V>>) -> Map<Seq<char>, V>
    decreases entries.len(),
{
    if entries.len() == 0 {
        Map::empty()
    } else {
        entries_to_map(entries.drop_first()).insert(entries[0].id@, entries[0].value)
    }
}

/// The map holds what the first entry with an identifier holds, and nothing else.
proof fn lemma_entries_to_map<V>(entries: Seq<IdEntry<V>>, id: Seq<char>, index: int)
    requires
        0 <= index <= entries.len(),
        forall|i: int| 0 <= i < index ==> (#[trigger] entries[i]).id@ != id,
    ensures
        index < entries.len() && entries[index].id@ == id ==> {
            &&& entries_to_map(entries).contains_key(id)
            &&& entries_to_map(entries)[id] == entries[index].value
        },
        index == entries.len() ==> !entries_to_map(entries).contains_key(id),
    decreases entries.len(),
{
    if index > 0 {
        let rest = entries.drop_first();
        assert forall|i: int| 0 <= i < index - 1 implies (#[trigger] rest[i]).id@ != id by {
            assert(rest[i] == entries[i + 1]);
        }
        lemma_entries_to_map(rest, id, index - 1);
        if index < entries.len() {
            assert(rest[index - 1] == entries[index]);
        }
    }
}

/// An entry added at the end counts if its identifier is new.
proof fn lemma_entries_push<V>(entries: Seq<IdEntry<V>>, entry: IdEntry<V>)
    requires
        !entries_to_map(entries).contains_key(entry.id@),
    ensures
        entries_to_map(entries.push(entry)) == entries_to_map(entries).insert(
            entry.id@,
            entry.value,
        ),
    decreases entries.len(),
{
    let all = entries.push(entry);
    if entries.len() == 0 {
        assert(all.drop_first() == entries);
    } else {
        assert(all.drop_first() == entries.drop_first().push(entry));
        lemma_entries_push(entries.drop_first(), entry);
        assert(entries_to_map(all) == entries_to_map(entries).insert(entry.id@, entry.value));
    }
}

/// Replacing the value of the first entry with an identifier replaces what the map keeps.
proof fn lemma_entries_update<V>(entries: Seq<IdEntry<V>>, index: int, entry: IdEntry<V>)
    requires
        0 <= index < entries.len(),
        entries[index].id@ == entry.id@,
        forall|i: int| 0 <= i < index ==> (#[trigger] entries[i]).id@ != entry.id@,
    ensures
        entries_to_map(entries.update(index, entry)) == entries_to_map(entries).insert(
            entry.id@,
            entry.value,
        ),
    decreases entries.len(),
{
    let all = entries.update(index, entry);
    if index == 0 {
        assert(all.drop_first() == entries.drop_first());
    } else {
        let rest = entries.drop_first();
        assert(all.drop_first() == rest.update(index - 1, entry));
        assert forall|i: int| 0 <= i < index - 1 implies (#[trigger] rest[i]).id@ != entry.id@ by {
            assert(rest[i] == entries[i + 1]);
        }
        lemma_entries_update(rest, index - 1, entry);
    }
    assert(entries_to_map(all) == entries_to_map(entries).insert(entry.id@, entry.value));
}

/// Dropping the first entry with an identifier changes nothing for the other identifiers.
proof fn lemma_entries_remove<V>(entries: Seq<IdEntry<V>>, id: Seq<char>, index: int)
    requires
        0 <= index < entries.len(),
        entries[index].id@ == id,
        forall|i: int| 0 <= i < index ==> (#[trigger] entries[i]).id@ != id,
    ensures
        entries_to_map(entries.remove(index)).remove(id) == entries_to_map(entries).remove(id),
    decreases entries.len(),
{
    let all = entries.remove(index);
    let rest = entries.drop_first();
    if index == 0 {
        assert(all == rest);
    } else {
        assert(all.drop_first() == rest.remove(index - 1));
        assert forall|i: int| 0 <= i < index - 1 implies (#[trigger] rest[i]).id@ != id by {
            assert(rest[i] == entries[i + 1]);
        }
        lemma_entries_remove(rest, id, index - 1);
        let first = entries[0];
        assert(entries_to_map(all).remove(id) == entries_to_map(rest.remove(index - 1)).remove(
            id,
        ).insert(first.id@, first.value));
        assert(entries_to_map(entries).remove(id) == entries_to_map(rest).remove(id).insert(
            first.id@,
            first.value,
        ));
    }
    assert(entries_to_map(all).remove(id) == entries_to_map(entries).remove(id));
}

/// A map from identifiers to values.
#[derive(Debug)]
pub struct IdMap<V> {
    entries: Vec<IdEntry<V>>,
}

impl<V> View for IdMap<V> {
    type V = Map<Seq<char>, V>;

    closed spec fn view(&self) -> Map<Seq<char>, V> {
        entries_to_map(self.entries@)
    }
}

impl<V> IdMap<V> {
    /// Creates an empty map.
    pub fn new() -> (map: Self)
        ensures
            map@ == Map::<Seq<char>, V>::empty(),
    {
        IdMap { entries: Vec::new() }
    }

    /// Finds the first entry with the given identifier.
    fn position(&self, id: &String) -> (res: Option<usize>)
        ensures
            match res {
                Some(index) => {
                    &&& index < self.entries@.len()
                    &&& self.entries@[index as int].id@ == id@
                    &&& forall|i: int| 0 <= i < index ==> (#[trigger] self.entries@[i]).id@ != id@
                },
                None => forall|i: int|
                    0 <= i < self.entries@.len() ==> (#[trigger] self.entries@[i]).id@ != id@,
            },
    {
        let mut index: usize = 0;
        while index < self.entries.len()
            invariant
                index <= self.entries@.len(),
                forall|i: int| 0 <= i < index ==> (#[trigger] self.entries@[i]).id@ != id@,
            decreases self.entries@.len() - index,
        {
            if self.entries[index].id == *id {
                return Some(index);
            }
            index = index + 1;
        }
        None
    }

    /// Keeps a value under an identifier, in place of what was kept there.
    pub fn insert(&mut self, id: String, value: V)
        ensures
            final(self)@ == old(self)@.insert(id@, value),
    {
        match self.position(&id) {
            Some(index) => {
                proof {
                    lemma_entries_update(self.entries@, index as int, IdEntry { id, value });
                }
                self.entries.set(index, IdEntry { id, value });
            },
            None => {
                proof {
                    lemma_entries_to_map(self.entries@, id@, self.entries@.len() as int);
                    lemma_entries_push(self.entries@, IdEntry { id, value });
                }
                self.entries.push(IdEntry { id, value });
            },
        }
    }

    /// Takes out what is kept under an identifier.
    pub fn remove(&mut self, id: &String) -> (value: Option<V>)
        ensures
            final(self)@ == old(self)@.remove(id@),
            value == (if old(self)@.contains_key(id@) {
                Some(old(self)@[id@])
            } else {
                None
            }),
    {
        let ghost before = self.entries@;
        let mut value: Option<V> = None;
        let mut found: Option<usize> = self.position(id);
        while found.is_some()
            invariant
                match found {
                    Some(index) => {
                        &&& index < self.entries@.len()
                        &&& self.entries@[index as int].id@ == id@
                        &&& forall|i: int|
                            0 <= i < index ==> (#[trigger] self.entries@[i]).id@ != id@
                    },
                    None => forall|i: int|
                        0 <= i < self.entries@.len() ==> (#[trigger] self.entries@[i]).id@ != id@,
                },
                entries_to_map(self.entries@).remove(id@) == entries_to_map(before).remove(id@),
                match value {
                    Some(taken) => {
                        &&& entries_to_map(before).contains_key(id@)
                        &&& taken == entries_to_map(before)[id@]
                    },
                    None => self.entries@ == before,
                },
            decreases self.entries@.len(),
        {
            let index: usize = found.unwrap();
            proof {
                lemma_entries_to_map(self.entries@, id@, index as int);
                lemma_entries_remove(self.entries@, id@, index as int);
            }
            let entry = self.entries.remove(index);
            if value.is_none() {
                value = Some(entry.value);
            }
            found = self.position(id);
        }
        proof {
            lemma_entries_to_map(self.entries@, id@, self.entries@.len() as int);
            assert(entries_to_map(self.entries@).remove(id@) == entries_to_map(self.entries@));
        }
        value
    }

    /// Takes out everything.
    pub fn clear(&mut self)
        ensures
            final(self)@ == Map::<Seq<char>, V>::empty(),
    {
        self.entries.clear();
    }
}

/// Lists whose entries match one by one keep matching values under the same identifiers.
proof fn lemma_entries_cloned<V: Clone>(entries: Seq<IdEntry<V>>, copies: Seq<IdEntry<V>>)
    requires
        entries.len() == copies.len(),
        forall|i: int|
            #![trigger copies[i]]
            0 <= i < entries.len() ==> copies[i].id@ == entries[i].id@ && cloned(
                entries[i].value,
                copies[i].value,
            ),
    ensures
        entries_to_map(copies).dom() == entries_to_map(entries).dom(),
        forall|id: Seq<char>| #[trigger]
            entries_to_map(copies).contains_key(id) ==> cloned(
                entries_to_map(entries)[id],
                entries_to_map(copies)[id],
            ),
    decreases entries.len(),
{
    if entries.len() > 0 {
        let rest = entries.drop_first();
        let rest_copies = copies.drop_first();
        assert forall|i: int| #![trigger rest_copies[i]] 0 <= i < rest.len() implies rest_copies[i].id@
            == rest[i].id@ && cloned(rest[i].value, rest_copies[i].value) by {
            assert(rest_copies[i] == copies[i + 1] && rest[i] == entries[i + 1]);
        }
        lemma_entries_cloned(rest, rest_copies);
        assert(copies[0].id@ == entries[0].id@);
        assert(entries_to_map(copies).dom() == entries_to_map(entries).dom());
    }
}

impl<V: Clone> Clone for IdMap<V> {
    fn clone(&self) -> (map: Self)
        ensures
            map@.dom() == self@.dom(),
            forall|id: Seq<char>| #[trigger]
                map@.contains_key(id) ==> cloned(self@[id], map@[id]),
    {
        let mut entries: Vec<IdEntry<V>> = Vec::new();
        let mut index: usize = 0;
        while index < self.entries.len()
            invariant
                index <= self.entries@.len(),
                entries@.len() == index,
                forall|i: int|
                    #![trigger entries@[i]]
                    0 <= i < index ==> entries@[i].id@ == self.entries@[i].id@ && cloned(
                        self.entries@[i].value,
                        entries@[i].value,
                    ),
            decreases self.entries@.len() - index,
        {
            let entry = &self.entries[index];
            entries.push(IdEntry { id: entry.id.clone(), value: entry.value.clone() });
            index = index + 1;
        }
        proof {
            lemma_entries_cloned(self.entries@, entries@);
        }
        IdMap { entries }
    }
}

} // verus!
