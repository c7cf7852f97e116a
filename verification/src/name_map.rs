//! An ordered map from names to values.
//!
//! Keys are kept in strictly increasing order, so walking a map yields its
//! entries sorted by name and a map has exactly one representation.

use vstd::prelude::*;
use crate::name_set::{
    is_slot, lemma_insert_keeps_sorted, lemma_slot_decides_membership,
    lemma_sorted_no_duplicates, name_views, strictly_sorted,
};
use crate::text::{lemma_name_lt_transitive, name_lt, name_order, NameOrder};

verus! {

/// The map that pairs each key with the value at the same position.
pub open spec fn assoc<V>(keys: Seq<Seq<char>>, values: Seq<V>) -> Map<Seq<char>, V> {
    Map::new(|k: Seq<char>| keys.contains(k), |k: Seq<char>| values[keys.index_of(k)])
}

/// Where keys are distinct, the key at a position maps to the value there.
pub proof fn lemma_assoc_at<V>(keys: Seq<Seq<char>>, values: Seq<V>, i: int)
    requires
        keys.no_duplicates(),
        keys.len() == values.len(),
        0 <= i < keys.len(),
    ensures
        assoc(keys, values).contains_key(keys[i]),
        assoc(keys, values)[keys[i]] == values[i],
{
    assert(keys.contains(keys[i]));
    assert(keys.index_of(keys[i]) == i);
}

/// Putting a fresh key and its value at one position adds that entry and
/// changes no other.
pub proof fn lemma_assoc_insert<V>(
    keys: Seq<Seq<char>>,
    values: Seq<V>,
    slot: int,
    key: Seq<char>,
    value: V,
)
    requires
        keys.no_duplicates(),
        keys.len() == values.len(),
        0 <= slot <= keys.len(),
        !keys.contains(key),
        keys.insert(slot, key).no_duplicates(),
    ensures
        assoc(keys.insert(slot, key), values.insert(slot, value)) == assoc(keys, values).insert(
            key,
            value,
        ),
{
    let keys2 = keys.insert(slot, key);
    let values2 = values.insert(slot, value);
    let before = assoc(keys, values);
    let after = assoc(keys2, values2);
    assert forall|x: Seq<char>| after.contains_key(x) <==> before.insert(key, value).contains_key(
        x,
    ) by {
        if keys2.contains(x) {
            let k = keys2.index_of(x);
            if k < slot {
                assert(keys[k] == x);
            } else if k > slot {
                assert(keys[k - 1] == x);
            }
        }
        if keys.contains(x) {
            let k = keys.index_of(x);
            if k < slot {
                assert(keys2[k] == x);
            } else {
                assert(keys2[k + 1] == x);
            }
        }
        if x == key {
            assert(keys2[slot] == x);
        }
    }
    assert forall|x: Seq<char>| after.contains_key(x) implies after[x] == before.insert(
        key,
        value,
    )[x] by {
        if x == key {
            assert(keys2[slot] == key);
            lemma_assoc_at(keys2, values2, slot);
        } else {
            let k = keys.index_of(x);
            lemma_assoc_at(keys, values, k);
            if k < slot {
                assert(keys2[k] == x);
                lemma_assoc_at(keys2, values2, k);
            } else {
                assert(keys2[k + 1] == x);
                lemma_assoc_at(keys2, values2, k + 1);
            }
        }
    }
    assert(after =~= before.insert(key, value));
}

/// Replacing the value at one position changes the entry of the key there
/// and no other.
pub proof fn lemma_assoc_update<V>(keys: Seq<Seq<char>>, values: Seq<V>, slot: int, value: V)
    requires
        keys.no_duplicates(),
        keys.len() == values.len(),
        0 <= slot < keys.len(),
    ensures
        assoc(keys, values.update(slot, value)) == assoc(keys, values).insert(keys[slot], value),
{
    let values2 = values.update(slot, value);
    let before = assoc(keys, values);
    let after = assoc(keys, values2);
    assert(keys.contains(keys[slot]));
    assert forall|x: Seq<char>| after.contains_key(x) implies after[x] == before.insert(
        keys[slot],
        value,
    )[x] by {
        let k = keys.index_of(x);
        lemma_assoc_at(keys, values, k);
        lemma_assoc_at(keys, values2, k);
    }
    assert(after =~= before.insert(keys[slot], value));
}

/// A finite map keyed by name, kept sorted by key.
#[derive(Debug)]
pub struct NameMap<V> {
    entries: Vec<(String, V)>,
}

impl<V> View for NameMap<V> {
    type V = Map<Seq<char>, V>;

    closed spec fn view(&self) -> Map<Seq<char>, V> {
        assoc(self.key_seq(), self.value_seq())
    }
}

/// The keys of a sequence of entries, in the same order.
pub open spec fn entry_keys<V>(entries: Seq<(String, V)>) -> Seq<Seq<char>> {
    Seq::new(entries.len(), |i: int| entries[i].0@)
}

/// The values of a sequence of entries, in the same order.
pub open spec fn entry_values<V>(entries: Seq<(String, V)>) -> Seq<V> {
    Seq::new(entries.len(), |i: int| entries[i].1)
}

/// Finds where `key` stands among the entries, which are sorted by key, by
/// halving.
fn find_entry<V>(entries: &Vec<(String, V)>, key: &str) -> (r: (usize, bool))
    requires
        strictly_sorted(entry_keys(entries@)),
    ensures
        is_slot(entry_keys(entries@), key@, r.0 as int, r.1),
{
    let ghost keys = entry_keys(entries@);
    let mut low: usize = 0;
    let mut high: usize = entries.len();
    while low < high
        invariant
            low <= high <= entries.len(),
            keys == entry_keys(entries@),
            strictly_sorted(keys),
            forall|k: int| 0 <= k < low ==> name_lt(#[trigger] keys[k], key@),
            forall|k: int| high <= k < keys.len() ==> name_lt(key@, #[trigger] keys[k]),
        decreases high - low,
    {
        let middle = low + (high - low) / 2;
        match name_order(entries[middle].0.as_str(), key) {
            NameOrder::Before => {
                proof {
                    assert forall|k: int| 0 <= k < middle + 1 implies name_lt(
                        #[trigger] keys[k],
                        key@,
                    ) by {
                        if k < middle {
                            lemma_name_lt_transitive(keys[k], keys[middle as int], key@);
                        }
                    }
                }
                low = middle + 1;
            },
            NameOrder::Same => {
                proof {
                    assert(keys[middle as int] == key@);
                    assert forall|k: int| 0 <= k < middle implies name_lt(
                        #[trigger] keys[k],
                        key@,
                    ) by {
                        assert(name_lt(keys[k], keys[middle as int]));
                    }
                }
                return (middle, true);
            },
            NameOrder::After => {
                proof {
                    assert forall|k: int| middle <= k < keys.len() implies name_lt(
                        key@,
                        #[trigger] keys[k],
                    ) by {
                        if k > middle {
                            lemma_name_lt_transitive(key@, keys[middle as int], keys[k]);
                        }
                    }
                }
                high = middle;
            },
        }
    }
    (low, false)
}

impl<V> NameMap<V> {
    /// The keys in the order in which the map holds them.
    pub closed spec fn key_seq(&self) -> Seq<Seq<char>> {
        entry_keys(self.entries@)
    }

    /// The values, each at the position of its key.
    pub closed spec fn value_seq(&self) -> Seq<V> {
        entry_values(self.entries@)
    }

    /// Keys stand in strictly increasing order. This holds of every map
    /// that a program can hold.
    #[verifier::type_invariant]
    pub open spec fn wf(&self) -> bool {
        strictly_sorted(self.key_seq())
    }

    /// The map pairs each key of the sequence with the value at its
    /// position, and has no other entry.
    pub proof fn lemma_view(&self)
        requires
            self.wf(),
        ensures
            self@ == assoc(self.key_seq(), self.value_seq()),
            self@.dom() == self.key_seq().to_set(),
            self@.dom().finite(),
            self@.dom().len() == self.key_seq().len(),
            self.key_seq().no_duplicates(),
            self.key_seq().len() == self.value_seq().len(),
            forall|k: Seq<char>| self@.contains_key(k) <==> self.key_seq().contains(k),
            forall|i: int|
                0 <= i < self.key_seq().len() ==> self@.contains_key(#[trigger] self.key_seq()[i])
                    && self@[self.key_seq()[i]] == self.value_seq()[i],
    {
        lemma_sorted_no_duplicates(self.key_seq());
        assert(self@.dom() =~= self.key_seq().to_set());
        self.key_seq().unique_seq_to_set();
        assert forall|i: int| 0 <= i < self.key_seq().len() implies self@.contains_key(
            #[trigger] self.key_seq()[i],
        ) && self@[self.key_seq()[i]] == self.value_seq()[i] by {
            lemma_assoc_at(self.key_seq(), self.value_seq(), i);
        }
    }

    /// Two maps with the same entries hold them in the same order: a map
    /// has one representation.
    pub proof fn lemma_one_representation(&self, other: &NameMap<V>)
        requires
            self.wf(),
            other.wf(),
            self@ == other@,
        ensures
            self.key_seq() == other.key_seq(),
            self.value_seq() == other.value_seq(),
    {
        self.lemma_view();
        other.lemma_view();
        crate::name_set::lemma_sorted_is_canonical(self.key_seq(), other.key_seq());
        assert forall|i: int| 0 <= i < self.value_seq().len() implies self.value_seq()[i]
            == other.value_seq()[i] by {
            assert(self@[self.key_seq()[i]] == self.value_seq()[i]);
            assert(other@[other.key_seq()[i]] == other.value_seq()[i]);
        }
        assert(self.value_seq() =~= other.value_seq());
    }

    /// The empty map.
    pub fn new() -> (m: NameMap<V>)
        ensures
            m@ == Map::<Seq<char>, V>::empty(),
            m.key_seq().len() == 0,
    {
        let m = NameMap { entries: Vec::new() };
        assert(m@ =~= Map::<Seq<char>, V>::empty());
        m
    }

    /// The number of entries.
    pub fn len(&self) -> (n: usize)
        ensures
            n == self.key_seq().len(),
            n == self@.dom().len(),
    {
        proof {
            use_type_invariant(self);
            self.lemma_view();
        }
        self.entries.len()
    }

    /// Whether the map has no entry.
    pub fn is_empty(&self) -> (b: bool)
        ensures
            b <==> self@ == Map::<Seq<char>, V>::empty(),
            b <==> self.key_seq().len() == 0,
    {
        proof {
            use_type_invariant(self);
            self.lemma_view();
            if self.key_seq().len() == 0 {
                assert(self@ =~= Map::<Seq<char>, V>::empty());
            } else {
                assert(self@.contains_key(self.key_seq()[0]));
            }
        }
        self.entries.len() == 0
    }

    /// The key at position `i` of the sorted order.
    pub fn key_at(&self, i: usize) -> (key: &String)
        requires
            i < self.key_seq().len(),
        ensures
            key@ == self.key_seq()[i as int],
            self@.contains_key(key@),
    {
        proof {
            use_type_invariant(self);
            self.lemma_view();
        }
        &self.entries[i].0
    }

    /// The value at position `i` of the sorted order.
    pub fn value_at(&self, i: usize) -> (value: &V)
        requires
            i < self.key_seq().len(),
        ensures
            *value == self.value_seq()[i as int],
            *value == self@[self.key_seq()[i as int]],
    {
        proof {
            use_type_invariant(self);
            self.lemma_view();
        }
        &self.entries[i].1
    }

    /// Puts `value` in the place of the value at position `i` of the sorted
    /// order, and returns the value that stood there. The keys stay as they
    /// are.
    pub fn replace_at(&mut self, i: usize, value: V) -> (previous: V)
        requires
            i < old(self).key_seq().len(),
        ensures
            previous == old(self)@[old(self).key_seq()[i as int]],
            final(self).key_seq() == old(self).key_seq(),
            final(self)@ == old(self)@.insert(old(self).key_seq()[i as int], value),
    {
        let ghost keys0 = self.key_seq();
        let ghost values0 = self.value_seq();
        proof {
            use_type_invariant(&*self);
            self.lemma_view();
        }
        let mut entries: Vec<(String, V)> = Vec::new();
        core::mem::swap(&mut self.entries, &mut entries);
        let mut previous = value;
        core::mem::swap(&mut entries[i].1, &mut previous);
        proof {
            assert(entry_keys(entries@) =~= keys0);
            assert(entry_values(entries@) =~= values0.update(i as int, value));
        }
        self.entries = entries;
        proof {
            lemma_assoc_update(keys0, values0, i as int, value);
        }
        previous
    }

    /// The keys of the map, sorted.
    pub fn keys(&self) -> (keys: Vec<String>)
        ensures
            name_views(keys@) == self.key_seq(),
    {
        let mut keys: Vec<String> = Vec::new();
        let mut i: usize = 0;
        while i < self.entries.len()
            invariant
                i <= self.entries.len(),
                keys@.len() == i,
                forall|k: int| 0 <= k < i ==> keys@[k]@ == self.entries@[k].0@,
            decreases self.entries.len() - i,
        {
            keys.push(self.entries[i].0.clone());
            i += 1;
        }
        assert(name_views(keys@) =~= self.key_seq());
        keys
    }

    /// Whether the map has an entry for `key`.
    pub fn contains_key(&self, key: &str) -> (b: bool)
        ensures
            b <==> self@.contains_key(key@),
    {
        proof {
            use_type_invariant(&*self);
        }
        let (slot, found) = find_entry(&self.entries, key);
        proof {
            use_type_invariant(self);
            lemma_slot_decides_membership(self.key_seq(), key@, slot as int, found);
        }
        found
    }

    /// The position of `key` in the sorted order, if the map has it.
    pub fn position(&self, key: &str) -> (r: Option<usize>)
        ensures
            r is Some <==> self@.contains_key(key@),
            r is Some ==> r->0 < self.key_seq().len() && self.key_seq()[r->0 as int] == key@,
    {
        proof {
            use_type_invariant(&*self);
        }
        let (slot, found) = find_entry(&self.entries, key);
        proof {
            use_type_invariant(self);
            lemma_slot_decides_membership(self.key_seq(), key@, slot as int, found);
        }
        if found {
            Some(slot)
        } else {
            None
        }
    }

    /// The value that the map holds for `key`.
    pub fn get(&self, key: &str) -> (r: Option<&V>)
        ensures
            r is Some <==> self@.contains_key(key@),
            r is Some ==> *r->0 == self@[key@],
    {
        proof {
            use_type_invariant(&*self);
        }
        let (slot, found) = find_entry(&self.entries, key);
        proof {
            use_type_invariant(self);
            lemma_slot_decides_membership(self.key_seq(), key@, slot as int, found);
            self.lemma_view();
        }
        if found {
            Some(&self.entries[slot].1)
        } else {
            None
        }
    }

    /// Sets the value for `key`, replacing the one that the map held.
    pub fn insert(&mut self, key: String, value: V)
        ensures
            final(self)@ == old(self)@.insert(key@, value),
    {
        proof {
            use_type_invariant(&*self);
        }
        let (slot, found) = find_entry(&self.entries, key.as_str());
        let ghost keys0 = self.key_seq();
        let ghost values0 = self.value_seq();
        proof {
            use_type_invariant(&*self);
            lemma_slot_decides_membership(keys0, key@, slot as int, found);
            lemma_sorted_no_duplicates(keys0);
        }
        let mut entries: Vec<(String, V)> = Vec::new();
        core::mem::swap(&mut self.entries, &mut entries);
        if found {
            entries.set(slot, (key, value));
            proof {
                assert(entry_keys(entries@) =~= keys0);
                assert(entry_values(entries@) =~= values0.update(slot as int, value));
            }
            self.entries = entries;
            proof {
                lemma_assoc_update(keys0, values0, slot as int, value);
            }
        } else {
            entries.insert(slot, (key, value));
            proof {
                assert(entry_keys(entries@) =~= keys0.insert(slot as int, key@));
                assert(entry_values(entries@) =~= values0.insert(slot as int, value));
                lemma_insert_keeps_sorted(keys0, key@, slot as int);
                lemma_sorted_no_duplicates(keys0.insert(slot as int, key@));
            }
            self.entries = entries;
            proof {
                lemma_assoc_insert(keys0, values0, slot as int, key@, value);
            }
        }
    }
}

} // verus!
