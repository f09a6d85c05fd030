//! A table of rows keyed by identifier, in the order in which the rows came.

use crate::ids::Uuid;
use vstd::prelude::*;

verus! {

/// Rows keyed by identifier.
pub struct IdTable<V> {
    entries: Vec<(Uuid, V)>,
}

/// Whether a row has the key.
pub open spec fn holds_id<V>(entries: Seq<(Uuid, V)>, key: Uuid) -> bool {
    exists|i: int| 0 <= i < entries.len() && #[trigger] entries[i].0 == key
}

/// Where the row with the key stands.
pub open spec fn id_index<V>(entries: Seq<(Uuid, V)>, key: Uuid) -> int {
    choose|i: int| 0 <= i < entries.len() && #[trigger] entries[i].0 == key
}

/// No two rows have the same key.
pub open spec fn distinct_ids<V>(entries: Seq<(Uuid, V)>) -> bool {
    forall|i: int, j: int|
        0 <= i < j < entries.len() ==> #[trigger] entries[i].0 != #[trigger] entries[j].0
}

/// The map that rows with distinct keys stand for.
pub open spec fn id_map<V>(entries: Seq<(Uuid, V)>) -> Map<Uuid, V> {
    Map::new(|key: Uuid| holds_id(entries, key), |key: Uuid| entries[id_index(entries, key)].1)
}

/// With distinct keys, a row is the value of its key.
proof fn lemma_row<V>(entries: Seq<(Uuid, V)>, i: int)
    requires
        distinct_ids(entries),
        0 <= i < entries.len(),
    ensures
        id_map(entries).dom().contains(entries[i].0),
        id_map(entries)[entries[i].0] == entries[i].1,
{
    let key = entries[i].0;
    assert(holds_id(entries, key));
    let k = id_index(entries, key);
    assert(0 <= k < entries.len() && entries[k].0 == key);
    if k < i {
        assert(entries[k].0 != entries[i].0);
    }
    if i < k {
        assert(entries[i].0 != entries[k].0);
    }
}

/// Changing the value of one row changes the map at its key alone.
proof fn lemma_update<V>(before: Seq<(Uuid, V)>, at: int, value: V)
    requires
        distinct_ids(before),
        0 <= at < before.len(),
    ensures
        distinct_ids(before.update(at, (before[at].0, value))),
        id_map(before.update(at, (before[at].0, value))) == id_map(before).insert(
            before[at].0,
            value,
        ),
{
    let key = before[at].0;
    let after = before.update(at, (key, value));
    assert forall|i: int, j: int| 0 <= i < j < after.len() implies #[trigger] after[i].0
        != #[trigger] after[j].0 by {
        assert(after[i].0 == before[i].0 && after[j].0 == before[j].0);
    }
    let was = id_map(before).insert(key, value);
    let is = id_map(after);
    assert forall|k: Uuid| is.dom().contains(k) implies was.dom().contains(k) && #[trigger] is[k]
        == was[k] by {
        let i = id_index(after, k);
        assert(0 <= i < after.len() && after[i].0 == k);
        assert(before[i].0 == k);
        lemma_row(after, i);
        lemma_row(before, i);
        if k == key {
            lemma_row(after, at);
            lemma_row(before, at);
        }
    }
    assert forall|k: Uuid| was.dom().contains(k) implies is.dom().contains(k) by {
        if k == key {
            assert(after[at].0 == key);
        } else {
            let i = id_index(before, k);
            assert(0 <= i < before.len() && before[i].0 == k);
            assert(after[i].0 == k);
        }
        assert(holds_id(after, k));
    }
    assert(is =~= was);
}

/// Adding a row with a new key adds it to the map.
proof fn lemma_push<V>(before: Seq<(Uuid, V)>, key: Uuid, value: V)
    requires
        distinct_ids(before),
        !holds_id(before, key),
    ensures
        distinct_ids(before.push((key, value))),
        id_map(before.push((key, value))) == id_map(before).insert(key, value),
{
    let after = before.push((key, value));
    let last = before.len() as int;
    assert forall|i: int, j: int| 0 <= i < j < after.len() implies #[trigger] after[i].0
        != #[trigger] after[j].0 by {
        assert(after[i] == before[i]);
        if j == last {
            if before[i].0 == key {
                assert(holds_id(before, key));
            }
        } else {
            assert(after[j] == before[j]);
        }
    }
    let was = id_map(before).insert(key, value);
    let is = id_map(after);
    assert forall|k: Uuid| is.dom().contains(k) implies was.dom().contains(k) && #[trigger] is[k]
        == was[k] by {
        let i = id_index(after, k);
        assert(0 <= i < after.len() && after[i].0 == k);
        lemma_row(after, i);
        if i < last {
            assert(after[i] == before[i]);
            lemma_row(before, i);
            if k == key {
                assert(holds_id(before, key));
            }
        }
    }
    assert forall|k: Uuid| was.dom().contains(k) implies is.dom().contains(k) by {
        if k == key {
            assert(after[last].0 == key);
        } else {
            let i = id_index(before, k);
            assert(0 <= i < before.len() && before[i].0 == k);
            assert(after[i].0 == k);
        }
        assert(holds_id(after, k));
    }
    assert(is =~= was);
}

impl<V> View for IdTable<V> {
    type V = Map<Uuid, V>;

    closed spec fn view(&self) -> Map<Uuid, V> {
        id_map(self.entries@)
    }
}

impl<V> IdTable<V> {
    /// No two rows have the same key.
    pub closed spec fn well_formed(self) -> bool {
        distinct_ids(self.entries@)
    }

    /// The keys in the order in which their rows came.
    pub closed spec fn keys(self) -> Seq<Uuid> {
        self.entries@.map_values(|entry: (Uuid, V)| entry.0)
    }

    /// A table without rows.
    pub fn new() -> (table: Self)
        ensures
            table.well_formed(),
            table@ == Map::<Uuid, V>::empty(),
            table.keys() == Seq::<Uuid>::empty(),
    {
        let table = IdTable { entries: Vec::new() };
        proof {
            assert(table@ =~= Map::<Uuid, V>::empty());
            assert(table.keys() =~= Seq::<Uuid>::empty());
        }
        table
    }

    /// The number of rows.
    pub fn len(&self) -> (count: usize)
        ensures
            count == self.keys().len(),
    {
        self.entries.len()
    }

    /// Whether there are no rows.
    pub fn is_empty(&self) -> (empty: bool)
        requires
            self.well_formed(),
        ensures
            empty == (self@ == Map::<Uuid, V>::empty()),
    {
        let empty: bool = self.entries.len() == 0;
        proof {
            if empty {
                assert(self@ =~= Map::<Uuid, V>::empty());
            } else {
                lemma_row(self.entries@, 0);
            }
        }
        empty
    }

    /// The key of a row.
    pub fn key_at(&self, i: usize) -> (key: Uuid)
        requires
            self.well_formed(),
            i < self.keys().len(),
        ensures
            key == self.keys()[i as int],
            self@.dom().contains(key),
    {
        proof {
            lemma_row(self.entries@, i as int);
        }
        self.entries[i].0
    }

    /// Where the row with the key stands.
    fn position(&self, key: Uuid) -> (found: Option<usize>)
        requires
            self.well_formed(),
        ensures
            found is Some == self@.dom().contains(key),
            found matches Some(i) ==> i < self.entries@.len() && self.entries@[i as int].0 == key
                && self@[key] == self.entries@[i as int].1,
    {
        let mut i: usize = 0;
        while i < self.entries.len()
            invariant
                i <= self.entries@.len(),
                forall|j: int| 0 <= j < i ==> #[trigger] self.entries@[j].0 != key,
                distinct_ids(self.entries@),
            decreases self.entries@.len() - i,
        {
            if self.entries[i].0 == key {
                proof {
                    lemma_row(self.entries@, i as int);
                }
                return Some(i);
            }
            i += 1;
        }
        proof {
            assert(!holds_id(self.entries@, key));
        }
        None
    }

    /// The row with a key.
    pub fn get(&self, key: Uuid) -> (row: Option<&V>)
        requires
            self.well_formed(),
        ensures
            row is Some == self@.dom().contains(key),
            row matches Some(found) ==> *found == self@[key],
    {
        match self.position(key) {
            Some(i) => Some(&self.entries[i].1),
            None => None,
        }
    }

    /// The row with a key, to be changed in place.
    pub fn get_mut(&mut self, key: Uuid) -> (row: Option<&mut V>)
        requires
            old(self).well_formed(),
        ensures
            row is Some == old(self)@.dom().contains(key),
            match row {
                Some(found) => {
                    &&& *found == old(self)@[key]
                    &&& final(self).well_formed()
                    &&& final(self)@ == old(self)@.insert(key, *final(found))
                    &&& final(self).keys() == old(self).keys()
                },
                None => *final(self) == *old(self),
            },
    {
        match self.position(key) {
            Some(i) => {
                let ghost before = self.entries@;
                proof {
                    assert forall|value: V| #![trigger before.update(i as int, (key, value))]
                        distinct_ids(before.update(i as int, (key, value))) && id_map(
                            before.update(i as int, (key, value)),
                        ) == id_map(before).insert(key, value) by {
                        lemma_update(before, i as int, value);
                    }
                    assert forall|value: V| #![trigger before.update(i as int, (key, value))]
                        before.update(i as int, (key, value)).map_values(
                            |entry: (Uuid, V)| entry.0,
                        ) == before.map_values(|entry: (Uuid, V)| entry.0) by {
                        assert(before.update(i as int, (key, value)).map_values(
                            |entry: (Uuid, V)| entry.0,
                        ) =~= before.map_values(|entry: (Uuid, V)| entry.0));
                    }
                }
                Some(&mut self.entries[i].1)
            },
            None => None,
        }
    }

    /// Adds a row under a new key.
    pub fn add_row(&mut self, key: Uuid, row: V)
        requires
            old(self).well_formed(),
            !old(self)@.dom().contains(key),
        ensures
            final(self).well_formed(),
            final(self)@ == old(self)@.insert(key, row),
            final(self).keys() == old(self).keys().push(key),
    {
        proof {
            lemma_push(self.entries@, key, row);
        }
        self.entries.push((key, row));
        proof {
            assert(self.keys() =~= old(self).keys().push(key));
        }
    }
}

} // verus!
