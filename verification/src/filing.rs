//! Filing entries under keys, where a later entry of a key replaces the
//! earlier one: what that means for a list of entries, and the table that
//! the registries of this crate keep their entries in.

use vstd::prelude::*;

verus! {

/// The map that results from filing the entries one by one, from the first
/// on: each entry is put under its key, in place of what was there.
pub open spec fn filed<K, V>(entries: Seq<(K, V)>) -> Map<K, V>
    decreases entries.len(),
{
    if entries.len() == 0 {
        Map::empty()
    } else {
        filed(entries.drop_last()).insert(entries.last().0, entries.last().1)
    }
}

/// Entry `index` is the last one of its key.
pub open spec fn is_last_of_key<K, V>(entries: Seq<(K, V)>, index: int) -> bool {
    &&& 0 <= index < entries.len()
    &&& forall|later: int| index < later < entries.len() ==> (#[trigger] entries[later]).0 != entries[index].0
}

/// Some entry has the key `key`.
pub open spec fn has_key<K, V>(entries: Seq<(K, V)>, key: K) -> bool {
    exists|index: int| 0 <= index < entries.len() && (#[trigger] entries[index]).0 == key
}

/// Last write wins: a key is filed exactly when some entry has it, and
/// what is filed under it is the value of the last entry that has it.
pub proof fn lemma_last_entry_stands<K, V>(entries: Seq<(K, V)>)
    ensures
        forall|key: K| #[trigger] filed(entries).contains_key(key) <==> has_key(entries, key),
        forall|index: int| #[trigger]
            is_last_of_key(entries, index) ==> filed(entries)[entries[index].0] == entries[index].1,
    decreases entries.len(),
{
    if entries.len() > 0 {
        let front = entries.drop_last();
        lemma_last_entry_stands(front);
        let last = entries.len() - 1;
        assert(filed(entries) == filed(front).insert(entries[last].0, entries[last].1));
        assert forall|key: K| #[trigger] filed(entries).contains_key(key) <==> has_key(
            entries,
            key,
        ) by {
            assert(filed(front).contains_key(key) <==> has_key(front, key));
            if has_key(front, key) {
                let index = choose|index: int|
                    0 <= index < front.len() && (#[trigger] front[index]).0 == key;
                assert(entries[index] == front[index]);
                assert(has_key(entries, key));
            }
            if entries[last].0 == key {
                assert(has_key(entries, key));
            }
            if has_key(entries, key) && entries[last].0 != key {
                let index = choose|index: int|
                    0 <= index < entries.len() && (#[trigger] entries[index]).0 == key;
                assert(front[index] == entries[index]);
                assert(has_key(front, key));
            }
        }
        assert forall|index: int| #[trigger] is_last_of_key(entries, index) implies filed(
            entries,
        )[entries[index].0] == entries[index].1 by {
            if index < last {
                assert(entries[last].0 != entries[index].0);
                assert(front[index] == entries[index]);
                assert(is_last_of_key(front, index)) by {
                    assert forall|later: int| index < later < front.len() implies (
                    #[trigger] front[later]).0 != front[index].0 by {
                        assert(front[later] == entries[later]);
                    }
                }
            }
        }
    }
}

/// Isolation: filing an entry leaves what is filed under every other key
/// as it was.
pub proof fn lemma_other_keys_stay<K, V>(entries: Seq<(K, V)>, entry: (K, V), key: K)
    requires
        key != entry.0,
    ensures
        filed(entries.push(entry)).contains_key(key) == filed(entries).contains_key(key),
        filed(entries.push(entry))[key] == filed(entries)[key],
{
    assert(entries.push(entry).drop_last() =~= entries);
}


/// What a table can be keyed by. A key has an identity, and two keys are
/// the same key where their identities are equal.
pub trait TableKey {
    /// What the identity of a key is.
    type Id;

    /// The identity of this key.
    spec fn id(&self) -> Self::Id;

    /// Whether `other` is the same key.
    fn same(&self, other: &Self) -> (same: bool)
        ensures
            same == (self.id() == other.id()),
    ;
}

impl TableKey for String {
    type Id = Seq<char>;

    open spec fn id(&self) -> Seq<char> {
        self@
    }

    fn same(&self, other: &Self) -> (same: bool) {
        *self == *other
    }
}

/// One entry of a table: a value under its key.
struct Entry<K, V> {
    key: K,
    value: V,
}

/// A table with at most one value under each key. A value that is put
/// under a key that is taken replaces the one that was there and keeps
/// its place; a key that is new comes last.
pub struct Table<K: TableKey, V> {
    entries: Vec<Entry<K, V>>,
}

impl<K: TableKey, V> Table<K, V> {
    /// No two entries have the same key.
    #[verifier::type_invariant]
    spec fn inv(self) -> bool {
        forall|i: int, j: int|
            0 <= i < j < self.entries@.len() ==> (#[trigger] self.entries@[i]).key.id() != (
            #[trigger] self.entries@[j]).key.id()
    }

    spec fn holds(self, id: K::Id) -> bool {
        exists|i: int| 0 <= i < self.entries@.len() && (#[trigger] self.entries@[i]).key.id() == id
    }

    spec fn place_of(self, id: K::Id) -> int {
        choose|i: int| 0 <= i < self.entries@.len() && (#[trigger] self.entries@[i]).key.id() == id
    }

    /// The values of the table, each under the identity of its key.
    pub closed spec fn contents(self) -> Map<K::Id, V> {
        Map::new(|id: K::Id| self.holds(id), |id: K::Id| self.entries@[self.place_of(id)].value)
    }

    /// The identities of the keys, in the order in which they were first
    /// put in.
    pub closed spec fn order(self) -> Seq<K::Id> {
        Seq::new(self.entries@.len(), |i: int| self.entries@[i].key.id())
    }

    /// What the table holds once `value` is put under the key of identity
    /// `id`.
    pub open spec fn contents_with(self, id: K::Id, value: V) -> Map<K::Id, V> {
        self.contents().insert(id, value)
    }

    /// The order of the keys once a value is put under the key of
    /// identity `id`.
    pub open spec fn order_with(self, id: K::Id) -> Seq<K::Id> {
        if self.contents().contains_key(id) {
            self.order()
        } else {
            self.order().push(id)
        }
    }

    /// The order lists each key of the table once, and nothing else.
    pub open spec fn well_ordered(self) -> bool {
        &&& self.order().no_duplicates()
        &&& forall|id: K::Id| self.contents().contains_key(id) <==> self.order().contains(id)
    }

    /// Under the invariant, the entry at `i` is the one its key leads to.
    proof fn lemma_entry(self, i: int)
        requires
            self.inv(),
            0 <= i < self.entries@.len(),
        ensures
            self.place_of(self.entries@[i].key.id()) == i,
            self.contents().contains_key(self.entries@[i].key.id()),
            self.contents()[self.entries@[i].key.id()] == self.entries@[i].value,
            self.order()[i] == self.entries@[i].key.id(),
    {
        let id = self.entries@[i].key.id();
        assert(self.holds(id));
        let j = self.place_of(id);
        assert(self.entries@[j].key.id() == id);
        if j < i {
            assert(self.entries@[j].key.id() != self.entries@[i].key.id());
        }
        if i < j {
            assert(self.entries@[i].key.id() != self.entries@[j].key.id());
        }
    }

    /// Under the invariant, the order lists each key once.
    proof fn lemma_well_ordered(self)
        requires
            self.inv(),
        ensures
            self.well_ordered(),
            self.order().len() == self.entries@.len(),
    {
        let order = self.order();
        assert forall|id: K::Id| self.contents().contains_key(id) <==> order.contains(id) by {
            if self.contents().contains_key(id) {
                let i = self.place_of(id);
                assert(order[i] == id);
            }
            if order.contains(id) {
                let i = choose|i: int| 0 <= i < order.len() && order[i] == id;
                assert(self.entries@[i].key.id() == id);
            }
        }
        assert forall|i: int, j: int|
            0 <= i < order.len() && 0 <= j < order.len() && i != j implies order[i] != order[j] by {
            if i < j {
                assert(self.entries@[i].key.id() != self.entries@[j].key.id());
            } else {
                assert(self.entries@[j].key.id() != self.entries@[i].key.id());
            }
        }
    }

    /// The empty table.
    pub fn new() -> (table: Self)
        ensures
            table.contents() == Map::<K::Id, V>::empty(),
            table.order() == Seq::<K::Id>::empty(),
            table.well_ordered(),
    {
        let table = Table { entries: Vec::new() };
        proof {
            table.lemma_well_ordered();
            assert(table.contents() =~= Map::<K::Id, V>::empty());
            assert(table.order() =~= Seq::<K::Id>::empty());
        }
        table
    }

    /// The number of keys.
    pub fn len(&self) -> (count: usize)
        ensures
            count == self.order().len(),
            self.well_ordered(),
    {
        proof {
            use_type_invariant(self);
            self.lemma_well_ordered();
        }
        self.entries.len()
    }

    /// The place of `key` in the order, if the table has it.
    pub fn position(&self, key: &K) -> (found: Option<usize>)
        ensures
            self.well_ordered(),
            match found {
                Some(index) => index < self.order().len() && self.order()[index as int] == key.id()
                    && self.contents().contains_key(key.id()),
                None => !self.contents().contains_key(key.id()),
            },
    {
        proof {
            use_type_invariant(self);
            self.lemma_well_ordered();
        }
        let mut index: usize = 0;
        while index < self.entries.len()
            invariant
                self.inv(),
                self.well_ordered(),
                index <= self.entries@.len(),
                forall|i: int| 0 <= i < index ==> (#[trigger] self.entries@[i]).key.id() != key.id(),
            decreases self.entries@.len() - index,
        {
            if self.entries[index].key.same(key) {
                proof {
                    self.lemma_entry(index as int);
                }
                return Some(index);
            }
            index += 1;
        }
        proof {
            if self.contents().contains_key(key.id()) {
                assert(self.entries@[self.place_of(key.id())].key.id() == key.id());
            }
        }
        None
    }

    /// The key and the value at place `index` of the order.
    pub fn entry_at(&self, index: usize) -> (entry: Option<(&K, &V)>)
        ensures
            self.well_ordered(),
            match entry {
                Some((key, value)) => index < self.order().len() && key.id()
                    == self.order()[index as int] && self.contents().contains_key(key.id())
                    && *value == self.contents()[key.id()],
                None => index >= self.order().len(),
            },
    {
        proof {
            use_type_invariant(self);
            self.lemma_well_ordered();
        }
        if index < self.entries.len() {
            proof {
                self.lemma_entry(index as int);
            }
            Some((&self.entries[index].key, &self.entries[index].value))
        } else {
            None
        }
    }

    /// The value under `key`, if the table has the key.
    pub fn get(&self, key: &K) -> (found: Option<&V>)
        ensures
            match found {
                Some(value) => self.contents().contains_key(key.id()) && *value
                    == self.contents()[key.id()],
                None => !self.contents().contains_key(key.id()),
            },
    {
        match self.position(key) {
            Some(index) => {
                proof {
                    use_type_invariant(self);
                    self.lemma_entry(index as int);
                }
                Some(&self.entries[index].value)
            },
            None => None,
        }
    }

    /// Puts `value` under `key`, in place of what was there.
    pub fn put(&mut self, key: K, value: V)
        ensures
            final(self).contents() == old(self).contents_with(key.id(), value),
            final(self).order() == old(self).order_with(key.id()),
            final(self).well_ordered(),
    {
        proof {
            use_type_invariant(&*self);
        }
        let ghost before = *self;
        let found = self.position(&key);
        let entry = Entry { key, value };
        let mut entries: Vec<Entry<K, V>> = Vec::new();
        std::mem::swap(&mut self.entries, &mut entries);
        match found {
            Some(index) => {
                proof {
                    before.lemma_entry(index as int);
                }
                entries[index] = entry;
            },
            None => {
                entries.push(entry);
            },
        }
        let ghost after = Table { entries };
        proof {
            let id = entry.key.id();
            assert forall|i: int, j: int| 0 <= i < j < after.entries@.len() implies (
            #[trigger] after.entries@[i]).key.id() != (#[trigger] after.entries@[j]).key.id() by {
                if i < before.entries@.len() {
                    before.lemma_entry(i);
                }
                if j < before.entries@.len() {
                    before.lemma_entry(j);
                    assert(before.entries@[i].key.id() != before.entries@[j].key.id());
                }
            }
            assert(after.inv());
            after.lemma_well_ordered();
            let expected = before.contents_with(id, entry.value);
            assert(after.contents() =~= expected) by {
                assert forall|other: K::Id| #[trigger]
                    after.contents().contains_key(other) == expected.contains_key(other) by {
                    if before.contents().contains_key(other) {
                        let i = before.place_of(other);
                        assert(after.entries@[i].key.id() == other);
                    }
                    if after.contents().contains_key(other) && other != id {
                        let i = after.place_of(other);
                        assert(before.entries@[i].key.id() == other);
                    }
                    if other == id {
                        let i = match found {
                            Some(index) => index as int,
                            None => before.entries@.len() as int,
                        };
                        assert(after.entries@[i].key.id() == id);
                    }
                }
                assert forall|other: K::Id| after.contents().contains_key(other) implies #[trigger]
                    after.contents()[other] == expected[other] by {
                    let i = after.place_of(other);
                    after.lemma_entry(i);
                    if other != id {
                        assert(before.entries@[i].key.id() == other);
                        before.lemma_entry(i);
                    }
                }
            }
            assert(after.order() =~= before.order_with(id));
        }
        std::mem::swap(&mut self.entries, &mut entries);
    }
}

} // verus!
