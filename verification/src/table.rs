//! A table keyed by text that keeps its entries in the order in which their
//! keys first came in. It stands where a hash map keyed by `String` would:
//! no key occurs twice, and every operation is specified over the map from
//! keys to values that the table holds.

use crate::text::same_text;
use vstd::prelude::*;

verus! {

/// One entry of a table.
pub struct Entry<V> {
    pub key: String,
    pub value: V,
}

/// A table from text keys to values.
pub struct Table<V> {
    entries: Vec<Entry<V>>,
}

/// The keys of a sequence of entries, in order.
pub open spec fn keys_of<V>(entries: Seq<Entry<V>>) -> Seq<Seq<char>> {
    Seq::new(entries.len(), |i: int| entries[i].key@)
}

/// No key occurs at two places.
pub open spec fn distinct(keys: Seq<Seq<char>>) -> bool {
    forall|i: int, j: int| 0 <= i < j < keys.len() ==> keys[i] != keys[j]
}

/// The map that a sequence of entries holds; of two entries under one key the later counts.
pub open spec fn map_of<V>(entries: Seq<Entry<V>>) -> Map<Seq<char>, V>
    decreases entries.len(),
{
    if entries.len() == 0 {
        Map::empty()
    } else {
        map_of(entries.drop_last()).insert(entries.last().key@, entries.last().value)
    }
}

/// The keys of the map are the keys of the entries.
pub proof fn lemma_map_of_domain<V>(entries: Seq<Entry<V>>)
    ensures
        map_of(entries).dom() == keys_of(entries).to_set(),
        map_of(entries).dom().finite(),
    decreases entries.len(),
{
    let keys = keys_of(entries);
    if entries.len() == 0 {
        assert(map_of(entries).dom() =~= keys.to_set());
    } else {
        let front = entries.drop_last();
        lemma_map_of_domain(front);
        assert forall|k: Seq<char>| map_of(entries).dom().contains(k) <==> keys.to_set().contains(
            k,
        ) by {
            if keys.to_set().contains(k) {
                let i = choose|i: int| 0 <= i < keys.len() && keys[i] == k;
                if i < front.len() {
                    assert(keys_of(front)[i] == k);
                }
            }
            if keys_of(front).to_set().contains(k) {
                let i = choose|i: int| 0 <= i < keys_of(front).len() && keys_of(front)[i] == k;
                assert(keys[i] == k);
            }
            if k == entries.last().key@ {
                assert(keys[entries.len() - 1] == k);
            }
        }
        assert(map_of(entries).dom() =~= keys.to_set());
    }
}

/// With distinct keys, each entry's value is what the map holds under its key.
pub proof fn lemma_map_of_entry<V>(entries: Seq<Entry<V>>, i: int)
    requires
        distinct(keys_of(entries)),
        0 <= i < entries.len(),
    ensures
        map_of(entries).contains_key(entries[i].key@),
        map_of(entries)[entries[i].key@] == entries[i].value,
    decreases entries.len(),
{
    let front = entries.drop_last();
    if i < entries.len() - 1 {
        assert(keys_of(entries)[i] != keys_of(entries)[entries.len() - 1]);
        assert forall|a: int, b: int| 0 <= a < b < front.len() implies keys_of(front)[a]
            != keys_of(front)[b] by {
            assert(keys_of(entries)[a] != keys_of(entries)[b]);
        }
        lemma_map_of_entry(front, i);
    }
}

/// A key that no entry has is not in the map.
pub proof fn lemma_map_of_absent<V>(entries: Seq<Entry<V>>, key: Seq<char>)
    requires
        forall|i: int| 0 <= i < entries.len() ==> entries[i].key@ != key,
    ensures
        !map_of(entries).contains_key(key),
    decreases entries.len(),
{
    if entries.len() > 0 {
        lemma_map_of_absent(entries.drop_last(), key);
    }
}

/// With distinct keys, the map has as many keys as there are entries.
pub proof fn lemma_map_of_len<V>(entries: Seq<Entry<V>>)
    requires
        distinct(keys_of(entries)),
    ensures
        map_of(entries).dom().finite(),
        map_of(entries).dom().len() == entries.len(),
    decreases entries.len(),
{
    lemma_map_of_domain(entries);
    if entries.len() > 0 {
        let front = entries.drop_last();
        assert forall|a: int, b: int| 0 <= a < b < front.len() implies keys_of(front)[a]
            != keys_of(front)[b] by {
            assert(keys_of(entries)[a] != keys_of(entries)[b]);
        }
        lemma_map_of_len(front);
        lemma_map_of_domain(front);
        assert forall|i: int| 0 <= i < front.len() implies front[i].key@
            != entries.last().key@ by {
            assert(keys_of(entries)[i] != keys_of(entries)[entries.len() - 1]);
        }
        lemma_map_of_absent(front, entries.last().key@);
    }
}

/// Replacing the value of entry `i` puts the new value under its key.
pub proof fn lemma_map_of_update<V>(entries: Seq<Entry<V>>, i: int, entry: Entry<V>)
    requires
        distinct(keys_of(entries)),
        0 <= i < entries.len(),
        entry.key@ == entries[i].key@,
    ensures
        map_of(entries.update(i, entry)) == map_of(entries).insert(entry.key@, entry.value),
        keys_of(entries.update(i, entry)) == keys_of(entries),
    decreases entries.len(),
{
    let after = entries.update(i, entry);
    let front = entries.drop_last();
    assert(keys_of(after) =~= keys_of(entries));
    if i == entries.len() - 1 {
        assert(after.drop_last() =~= front);
        assert(map_of(after) =~= map_of(entries).insert(entry.key@, entry.value));
    } else {
        assert forall|a: int, b: int| 0 <= a < b < front.len() implies keys_of(front)[a]
            != keys_of(front)[b] by {
            assert(keys_of(entries)[a] != keys_of(entries)[b]);
        }
        lemma_map_of_update(front, i, entry);
        assert(after.drop_last() =~= front.update(i, entry));
        assert(keys_of(entries)[i] != keys_of(entries)[entries.len() - 1]);
        assert(map_of(after) =~= map_of(entries).insert(entry.key@, entry.value));
    }
}

/// Taking entry `i` out takes its key out of the map and leaves the rest.
pub proof fn lemma_map_of_remove<V>(entries: Seq<Entry<V>>, i: int)
    requires
        distinct(keys_of(entries)),
        0 <= i < entries.len(),
    ensures
        map_of(entries.remove(i)) == map_of(entries).remove(entries[i].key@),
        distinct(keys_of(entries.remove(i))),
        keys_of(entries.remove(i)) == keys_of(entries).remove(i),
    decreases entries.len(),
{
    let after = entries.remove(i);
    let front = entries.drop_last();
    assert(keys_of(after) =~= keys_of(entries).remove(i));
    assert forall|a: int, b: int| 0 <= a < b < after.len() implies keys_of(after)[a] != keys_of(
        after,
    )[b] by {
        let a0 = if a < i {
            a
        } else {
            a + 1
        };
        let b0 = if b < i {
            b
        } else {
            b + 1
        };
        assert(keys_of(entries)[a0] != keys_of(entries)[b0]);
    }
    assert forall|a: int, b: int| 0 <= a < b < front.len() implies keys_of(front)[a] != keys_of(
        front,
    )[b] by {
        assert(keys_of(entries)[a] != keys_of(entries)[b]);
    }
    if i == entries.len() - 1 {
        assert(after =~= front);
        assert forall|j: int| 0 <= j < front.len() implies front[j].key@ != entries[i].key@ by {
            assert(keys_of(entries)[j] != keys_of(entries)[i]);
        }
        lemma_map_of_absent(front, entries[i].key@);
        assert(map_of(after) =~= map_of(entries).remove(entries[i].key@));
    } else {
        lemma_map_of_remove(front, i);
        assert(after.drop_last() =~= front.remove(i));
        assert(after.last() == entries.last());
        assert(keys_of(entries)[i] != keys_of(entries)[entries.len() - 1]);
        assert(map_of(after) =~= map_of(entries).remove(entries[i].key@));
    }
}

/// The entry under `key` left the ordered keys and values, and nothing else changed.
pub open spec fn removed_at<V>(
    keys: Seq<Seq<char>>,
    values: Seq<V>,
    keys_after: Seq<Seq<char>>,
    values_after: Seq<V>,
    key: Seq<char>,
) -> bool {
    exists|i: int|
        0 <= i < keys.len() && #[trigger] keys[i] == key && keys_after == keys.remove(i)
            && values_after == values.remove(i)
}

impl<V> View for Table<V> {
    type V = Map<Seq<char>, V>;

    closed spec fn view(&self) -> Map<Seq<char>, V> {
        map_of(self.entries@)
    }
}

impl<V> Table<V> {
    #[verifier::type_invariant]
    spec fn well_formed(self) -> bool {
        distinct(keys_of(self.entries@))
    }

    /// The keys of the table in the order in which they first came in.
    pub closed spec fn order(&self) -> Seq<Seq<char>> {
        keys_of(self.entries@)
    }

    /// The values of the table, in the order of their keys.
    pub closed spec fn values(&self) -> Seq<V> {
        Seq::new(self.entries@.len(), |i: int| self.entries@[i].value)
    }

    /// What ties the ordered keys and values of the table to the map that it
    /// holds: no key occurs twice, the keys are the map's keys, and each value
    /// stands under its key.
    pub open spec fn consistent(&self) -> bool {
        &&& distinct(self.order())
        &&& self.order().len() == self.values().len()
        &&& self@.dom().finite()
        &&& self@.dom() == self.order().to_set()
        &&& self@.dom().len() == self.order().len()
        &&& forall|i: int|
            0 <= i < self.order().len() ==> #[trigger] self@.contains_key(self.order()[i])
                && self@[self.order()[i]] == self.values()[i]
    }

    /// A table whose keys are distinct is consistent.
    proof fn lemma_consistent(self)
        requires
            distinct(keys_of(self.entries@)),
        ensures
            self.consistent(),
    {
        lemma_map_of_domain(self.entries@);
        lemma_map_of_len(self.entries@);
        assert forall|i: int| 0 <= i < self.order().len() implies #[trigger] self@.contains_key(
            self.order()[i],
        ) && self@[self.order()[i]] == self.values()[i] by {
            lemma_map_of_entry(self.entries@, i);
        }
    }

    /// An empty table.
    pub fn new() -> (r: Table<V>)
        ensures
            r@ == Map::<Seq<char>, V>::empty(),
            r.order() == Seq::<Seq<char>>::empty(),
            r.values() == Seq::<V>::empty(),
    {
        let r = Table { entries: Vec::new() };
        proof {
            assert(r.order() =~= Seq::<Seq<char>>::empty());
            assert(r.values() =~= Seq::<V>::empty());
        }
        r
    }

    /// The number of entries.
    pub fn len(&self) -> (r: usize)
        ensures
            r == self@.dom().len(),
            r == self.order().len(),
            self.consistent(),
    {
        proof {
            use_type_invariant(self);
            self.lemma_consistent();
        }
        self.entries.len()
    }

    /// Whether the table has no entry.
    pub fn is_empty(&self) -> (r: bool)
        ensures
            r == (self@.dom().len() == 0),
            r == (self@ == Map::<Seq<char>, V>::empty()),
            self.consistent(),
    {
        proof {
            use_type_invariant(self);
            self.lemma_consistent();
            if self.entries@.len() == 0 {
                assert(self@ =~= Map::<Seq<char>, V>::empty());
            }
        }
        self.entries.len() == 0
    }

    /// The place of `key` among the entries, if it has one.
    fn position(&self, key: &str) -> (r: Option<usize>)
        ensures
            r matches Some(i) ==> i < self.entries@.len() && self.entries@[i as int].key@ == key@,
            r is None ==> forall|i: int|
                0 <= i < self.entries@.len() ==> self.entries@[i].key@ != key@,
    {
        let mut i: usize = 0;
        while i < self.entries.len()
            invariant
                0 <= i <= self.entries@.len(),
                forall|j: int| 0 <= j < i ==> self.entries@[j].key@ != key@,
            decreases self.entries@.len() - i,
        {
            if same_text(self.entries[i].key.as_str(), key) {
                return Some(i);
            }
            i = i + 1;
        }
        None
    }

    /// Whether `key` has an entry.
    pub fn contains_key(&self, key: &str) -> (r: bool)
        ensures
            r == self@.contains_key(key@),
    {
        let found = self.position(key);
        proof {
            use_type_invariant(self);
            match found {
                Some(i) => lemma_map_of_entry(self.entries@, i as int),
                None => lemma_map_of_absent(self.entries@, key@),
            }
        }
        found.is_some()
    }

    /// The value under `key`.
    pub fn get(&self, key: &str) -> (r: Option<&V>)
        ensures
            r matches Some(v) ==> self@.contains_key(key@) && *v == self@[key@],
            r is None ==> !self@.contains_key(key@),
    {
        let found = self.position(key);
        proof {
            use_type_invariant(self);
            match found {
                Some(i) => lemma_map_of_entry(self.entries@, i as int),
                None => lemma_map_of_absent(self.entries@, key@),
            }
        }
        match found {
            Some(i) => Some(&self.entries[i].value),
            None => None,
        }
    }

    /// The key at place `i` of the order.
    pub fn key_at(&self, i: usize) -> (r: &String)
        requires
            i < self.order().len(),
        ensures
            r@ == self.order()[i as int],
    {
        &self.entries[i].key
    }

    /// The value at place `i` of the order.
    pub fn value_at(&self, i: usize) -> (r: &V)
        requires
            i < self.order().len(),
        ensures
            *r == self.values()[i as int],
            self.consistent(),
    {
        proof {
            use_type_invariant(self);
            self.lemma_consistent();
        }
        &self.entries[i].value
    }

    /// Puts `value` under `key` and hands back the value that stood there.
    /// A key that is already in the table keeps its place in the order; a new
    /// key goes to the end.
    pub fn insert(&mut self, key: String, value: V) -> (r: Option<V>)
        ensures
            final(self)@ == old(self)@.insert(key@, value),
            r == if old(self)@.contains_key(key@) {
                Some(old(self)@[key@])
            } else {
                None::<V>
            },
            final(self).order() == if old(self)@.contains_key(key@) {
                old(self).order()
            } else {
                old(self).order().push(key@)
            },
    {
        let found = self.position(key.as_str());
        proof {
            use_type_invariant(&*self);
        }
        let ghost before = self.entries@;
        let entry = Entry { key, value };
        let mut entries: Vec<Entry<V>> = Vec::new();
        core::mem::swap(&mut self.entries, &mut entries);
        let previous = match found {
            Some(i) => {
                proof {
                    lemma_map_of_entry(before, i as int);
                    lemma_map_of_update(before, i as int, entry);
                    assert(before.remove(i as int).insert(i as int, entry) =~= before.update(
                        i as int,
                        entry,
                    ));
                }
                let replaced = entries.remove(i);
                entries.insert(i, entry);
                Some(replaced.value)
            },
            None => {
                proof {
                    lemma_map_of_absent(before, key@);
                    let after = before.push(entry);
                    assert(after.drop_last() =~= before);
                    assert(keys_of(after) =~= keys_of(before).push(key@));
                    assert forall|a: int, b: int| 0 <= a < b < after.len() implies keys_of(
                        after,
                    )[a] != keys_of(after)[b] by {
                        if b < before.len() {
                            assert(keys_of(before)[a] != keys_of(before)[b]);
                        }
                    }
                }
                entries.push(entry);
                None
            },
        };
        core::mem::swap(&mut self.entries, &mut entries);
        previous
    }

    /// Takes the entry at place `i` of the order out and hands it back. The
    /// other entries stay as they are, in their order.
    pub fn remove_at(&mut self, i: usize) -> (r: Entry<V>)
        requires
            i < old(self).order().len(),
        ensures
            r.key@ == old(self).order()[i as int],
            r.value == old(self).values()[i as int],
            final(self)@ == old(self)@.remove(r.key@),
            final(self).order() == old(self).order().remove(i as int),
            final(self).values() == old(self).values().remove(i as int),
            old(self).consistent(),
            final(self).consistent(),
    {
        proof {
            use_type_invariant(&*self);
            self.lemma_consistent();
        }
        let ghost before = self.entries@;
        let ghost values_before = self.values();
        proof {
            lemma_map_of_entry(before, i as int);
            lemma_map_of_remove(before, i as int);
        }
        let mut entries: Vec<Entry<V>> = Vec::new();
        core::mem::swap(&mut self.entries, &mut entries);
        let entry = entries.remove(i);
        core::mem::swap(&mut self.entries, &mut entries);
        proof {
            assert(self.values() =~= values_before.remove(i as int));
            self.lemma_consistent();
        }
        entry
    }

    /// Takes the entry under `key` out and hands its value back. The other
    /// entries stay as they are, in their order.
    pub fn remove(&mut self, key: &str) -> (r: Option<V>)
        ensures
            final(self)@ == old(self)@.remove(key@),
            r == if old(self)@.contains_key(key@) {
                Some(old(self)@[key@])
            } else {
                None::<V>
            },
            !old(self)@.contains_key(key@) ==> final(self).order() == old(self).order()
                && final(self).values() == old(self).values(),
            old(self)@.contains_key(key@) ==> removed_at(
                old(self).order(),
                old(self).values(),
                final(self).order(),
                final(self).values(),
                key@,
            ),
    {
        let found = self.position(key);
        proof {
            use_type_invariant(&*self);
        }
        let ghost before = self.entries@;
        let ghost values_before = self.values();
        match found {
            Some(i) => {
                proof {
                    lemma_map_of_entry(before, i as int);
                    lemma_map_of_remove(before, i as int);
                }
                let mut entries: Vec<Entry<V>> = Vec::new();
                core::mem::swap(&mut self.entries, &mut entries);
                let entry = entries.remove(i);
                core::mem::swap(&mut self.entries, &mut entries);
                proof {
                    assert(self.values() =~= values_before.remove(i as int));
                    assert(keys_of(before)[i as int] == key@);
                }
                Some(entry.value)
            },
            None => {
                proof {
                    lemma_map_of_absent(before, key@);
                    assert(self@ =~= self@.remove(key@));
                }
                None
            },
        }
    }
}

} // verus!
