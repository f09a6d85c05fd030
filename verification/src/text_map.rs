//! A map from text to values.

use crate::text::same_text;
use vstd::prelude::*;

verus! {

/// No two entries have the same key.
pub open spec fn distinct_keys<V>(entries: Seq<(String, V)>) -> bool {
    forall|i: int, j: int|
        0 <= i < j < entries.len() ==> #[trigger] entries[i].0@ != #[trigger] entries[j].0@
}

/// Whether an entry has the key.
pub open spec fn holds_key<V>(entries: Seq<(String, V)>, key: Seq<char>) -> bool {
    exists|i: int| 0 <= i < entries.len() && #[trigger] entries[i].0@ == key
}

/// Where the entry with the key stands.
pub open spec fn key_index<V>(entries: Seq<(String, V)>, key: Seq<char>) -> int {
    choose|i: int| 0 <= i < entries.len() && #[trigger] entries[i].0@ == key
}

/// The map that entries with distinct keys stand for.
pub open spec fn entries_map<V>(entries: Seq<(String, V)>) -> Map<Seq<char>, V> {
    Map::new(
        |key: Seq<char>| holds_key(entries, key),
        |key: Seq<char>| entries[key_index(entries, key)].1,
    )
}

/// With distinct keys, an entry is the value of its key.
proof fn lemma_entry<V>(entries: Seq<(String, V)>, i: int)
    requires
        distinct_keys(entries),
        0 <= i < entries.len(),
    ensures
        entries_map(entries).dom().contains(entries[i].0@),
        entries_map(entries)[entries[i].0@] == entries[i].1,
{
    let key = entries[i].0@;
    assert(holds_key(entries, key));
    let k = key_index(entries, key);
    assert(0 <= k < entries.len() && entries[k].0@ == key);
    if k < i {
        assert(entries[k].0@ != entries[i].0@);
    }
    if i < k {
        assert(entries[i].0@ != entries[k].0@);
    }
}

/// A map with text keys.
pub struct TextMap<V> {
    entries: Vec<(String, V)>,
}

impl<V> View for TextMap<V> {
    type V = Map<Seq<char>, V>;

    closed spec fn view(&self) -> Map<Seq<char>, V> {
        entries_map(self.entries@)
    }
}

impl<V> TextMap<V> {
    #[verifier::type_invariant]
    spec fn well_formed(self) -> bool {
        distinct_keys(self.entries@)
    }

    /// A map without entries.
    pub fn new() -> (map: Self)
        ensures
            map@ == Map::<Seq<char>, V>::empty(),
    {
        let map = TextMap { entries: Vec::new() };
        proof {
            assert(map@ =~= Map::<Seq<char>, V>::empty());
        }
        map
    }

    /// Where the entry with the key stands.
    fn position(&self, key: &str) -> (found: Option<usize>)
        ensures
            found is Some == self@.dom().contains(key@),
            found matches Some(i) ==> i < self.entries@.len() && self.entries@[i as int].0@ == key@
                && self@[key@] == self.entries@[i as int].1,
    {
        proof {
            use_type_invariant(self);
        }
        let mut i: usize = 0;
        while i < self.entries.len()
            invariant
                i <= self.entries@.len(),
                forall|j: int| 0 <= j < i ==> #[trigger] self.entries@[j].0@ != key@,
                distinct_keys(self.entries@),
            decreases self.entries@.len() - i,
        {
            if same_text(self.entries[i].0.as_str(), key) {
                proof {
                    lemma_entry(self.entries@, i as int);
                }
                return Some(i);
            }
            i += 1;
        }
        proof {
            assert(!holds_key(self.entries@, key@));
        }
        None
    }

    /// Whether the map has no entries.
    pub fn is_empty(&self) -> (empty: bool)
        ensures
            empty == (self@ == Map::<Seq<char>, V>::empty()),
    {
        let empty: bool = self.entries.len() == 0;
        proof {
            use_type_invariant(self);
            if empty {
                assert(self@ =~= Map::<Seq<char>, V>::empty());
            } else {
                lemma_entry(self.entries@, 0);
            }
        }
        empty
    }

    /// The value of a key.
    pub fn get(&self, key: &str) -> (value: Option<&V>)
        ensures
            value is Some == self@.dom().contains(key@),
            value matches Some(found) ==> *found == self@[key@],
    {
        match self.position(key) {
            Some(i) => Some(&self.entries[i].1),
            None => None,
        }
    }

    /// Takes the entry with the key out.
    pub fn remove(&mut self, key: &str) -> (value: Option<V>)
        ensures
            value is Some == old(self)@.dom().contains(key@),
            value matches Some(found) ==> found == old(self)@[key@],
            final(self)@ == old(self)@.remove(key@),
    {
        proof {
            use_type_invariant(&*self);
        }
        let at: usize = match self.position(key) {
            Some(i) => i,
            None => {
                proof {
                    assert(self@ =~= self@.remove(key@));
                }
                return None;
            },
        };
        let ghost before = self.entries@;
        let mut entries: Vec<(String, V)> = Vec::new();
        std::mem::swap(&mut entries, &mut self.entries);
        let (_, value) = entries.remove(at);
        proof {
            let after = entries@;
            assert(after =~= before.remove(at as int));
            assert forall|i: int, j: int| 0 <= i < j < after.len() implies
                #[trigger] after[i].0@ != #[trigger] after[j].0@ by {
                let bi = if i < at { i } else { i + 1 };
                let bj = if j < at { j } else { j + 1 };
                assert(after[i] == before[bi] && after[j] == before[bj]);
            }
            let was = entries_map(before);
            let is = entries_map(after);
            assert forall|k: Seq<char>| is.dom().contains(k) implies was.remove(
                key@,
            ).dom().contains(k) && #[trigger] is[k] == was.remove(key@)[k] by {
                let i = key_index(after, k);
                assert(0 <= i < after.len() && after[i].0@ == k);
                let bi = if i < at { i } else { i + 1 };
                assert(after[i] == before[bi]);
                lemma_entry(before, bi);
                lemma_entry(after, i);
                assert(k != key@) by {
                    if bi < at {
                        assert(before[bi].0@ != before[at as int].0@);
                    } else {
                        assert(before[at as int].0@ != before[bi].0@);
                    }
                }
            }
            assert forall|k: Seq<char>| was.remove(key@).dom().contains(k) implies is.dom().contains(
                k,
            ) by {
                let bi = key_index(before, k);
                assert(0 <= bi < before.len() && before[bi].0@ == k);
                let i = if bi < at { bi } else { bi - 1 };
                assert(after[i] == before[bi]);
                assert(holds_key(after, k));
            }
            assert(is =~= was.remove(key@));
        }
        self.entries = entries;
        Some(value)
    }

    /// Gives a key a value and hands back the one that it had.
    pub fn insert(&mut self, key: String, value: V) -> (previous: Option<V>)
        ensures
            previous is Some == old(self)@.dom().contains(key@),
            previous matches Some(found) ==> found == old(self)@[key@],
            final(self)@ == old(self)@.insert(key@, value),
    {
        let previous: Option<V> = self.remove(key.as_str());
        proof {
            use_type_invariant(&*self);
        }
        let ghost before = self.entries@;
        let mut entries: Vec<(String, V)> = Vec::new();
        std::mem::swap(&mut entries, &mut self.entries);
        let ghost name = key@;
        entries.push((key, value));
        proof {
            let after = entries@;
            let was = entries_map(before);
            let is = entries_map(after);
            let last = before.len() as int;
            assert(!was.dom().contains(name));
            assert forall|i: int, j: int| 0 <= i < j < after.len() implies
                #[trigger] after[i].0@ != #[trigger] after[j].0@ by {
                assert(after[i] == before[i]);
                if j == last {
                    if before[i].0@ == name {
                        assert(holds_key(before, name));
                    }
                } else {
                    assert(after[j] == before[j]);
                }
            }
            assert forall|k: Seq<char>| is.dom().contains(k) implies was.insert(
                name,
                value,
            ).dom().contains(k) && #[trigger] is[k] == was.insert(name, value)[k] by {
                let i = key_index(after, k);
                assert(0 <= i < after.len() && after[i].0@ == k);
                lemma_entry(after, i);
                if i < last {
                    assert(after[i] == before[i]);
                    lemma_entry(before, i);
                }
            }
            assert forall|k: Seq<char>| was.insert(name, value).dom().contains(k) implies is.dom().contains(
                k,
            ) by {
                if k == name {
                    assert(after[last].0@ == name);
                } else {
                    let i = key_index(before, k);
                    assert(0 <= i < before.len() && before[i].0@ == k);
                    assert(after[i].0@ == k);
                }
                assert(holds_key(after, k));
            }
            assert(is =~= was.insert(name, value));
        }
        self.entries = entries;
        proof {
            assert(old(self)@.remove(name).insert(name, value) =~= old(self)@.insert(name, value));
        }
        previous
    }
}

} // verus!
