//! An ordered set of names.
//!
//! The names are kept in strictly increasing order, so a set has exactly one
//! representation and walking it yields the names sorted.

use vstd::prelude::*;
use crate::text::{
    name_lt, name_order, NameOrder, lemma_name_lt_irreflexive, lemma_name_lt_transitive,
};

verus! {

/// The names that a sequence of strings holds, in the same order.
pub open spec fn name_views(keys: Seq<String>) -> Seq<Seq<char>> {
    Seq::new(keys.len(), |i: int| keys[i]@)
}

/// Every name is smaller than all the names after it.
pub open spec fn strictly_sorted(names: Seq<Seq<char>>) -> bool {
    forall|i: int, j: int|
        0 <= i < j < names.len() ==> name_lt(#[trigger] names[i], #[trigger] names[j])
}

/// `slot` is where `name` stands in the sorted sequence `names`: everything
/// before it is smaller, and the name at `slot`, if there is one, is `name`
/// itself (`found`) or greater.
pub open spec fn is_slot(names: Seq<Seq<char>>, name: Seq<char>, slot: int, found: bool) -> bool {
    &&& 0 <= slot <= names.len()
    &&& forall|i: int| 0 <= i < slot ==> name_lt(#[trigger] names[i], name)
    &&& found ==> slot < names.len() && names[slot] == name
    &&& !found ==> slot == names.len() || name_lt(name, names[slot])
}

/// In a sorted sequence the slot of a name tells whether the sequence holds
/// it.
pub proof fn lemma_slot_decides_membership(
    names: Seq<Seq<char>>,
    name: Seq<char>,
    slot: int,
    found: bool,
)
    requires
        strictly_sorted(names),
        is_slot(names, name, slot, found),
    ensures
        found <==> names.contains(name),
{
    if !found {
        assert forall|i: int| 0 <= i < names.len() implies names[i] != name by {
            if i < slot {
                lemma_name_lt_irreflexive(name);
            } else {
                if i > slot {
                    lemma_name_lt_transitive(name, names[slot], names[i]);
                }
                lemma_name_lt_irreflexive(name);
            }
        }
    }
}

/// Putting a name that the sequence lacks into its slot keeps the sequence
/// sorted.
pub proof fn lemma_insert_keeps_sorted(names: Seq<Seq<char>>, name: Seq<char>, slot: int)
    requires
        strictly_sorted(names),
        is_slot(names, name, slot, false),
    ensures
        strictly_sorted(names.insert(slot, name)),
{
    let after = names.insert(slot, name);
    assert forall|i: int, j: int| 0 <= i < j < after.len() implies name_lt(
        #[trigger] after[i],
        #[trigger] after[j],
    ) by {
        if j < slot {
            assert(after[i] == names[i] && after[j] == names[j]);
        } else if j == slot {
            assert(after[i] == names[i]);
        } else if i == slot {
            assert(after[j] == names[j - 1]);
            if j - 1 > slot {
                lemma_name_lt_transitive(name, names[slot], names[j - 1]);
            }
        } else if i < slot {
            assert(after[i] == names[i] && after[j] == names[j - 1]);
        } else {
            assert(after[i] == names[i - 1] && after[j] == names[j - 1]);
        }
    }
}

/// The names of a sorted sequence are pairwise distinct.
pub proof fn lemma_sorted_no_duplicates(names: Seq<Seq<char>>)
    requires
        strictly_sorted(names),
    ensures
        names.no_duplicates(),
{
    assert forall|i: int, j: int|
        0 <= i < names.len() && 0 <= j < names.len() && i != j implies names[i] != names[j] by {
        lemma_name_lt_irreflexive(names[i]);
        if i < j {
            assert(name_lt(names[i], names[j]));
        } else {
            assert(name_lt(names[j], names[i]));
        }
    }
}

/// A set of names has one sorted sequence: two sorted sequences that hold
/// the same names are the same sequence.
pub proof fn lemma_sorted_is_canonical(a: Seq<Seq<char>>, b: Seq<Seq<char>>)
    requires
        strictly_sorted(a),
        strictly_sorted(b),
        a.to_set() == b.to_set(),
    ensures
        a == b,
    decreases a.len(),
{
    lemma_sorted_no_duplicates(a);
    lemma_sorted_no_duplicates(b);
    a.unique_seq_to_set();
    b.unique_seq_to_set();
    if a.len() == 0 {
        assert(a =~= b);
    } else {
        assert(a.to_set().contains(a[0]));
        assert(b.contains(a[0]));
        let k = b.index_of(a[0]);
        assert(b.to_set().contains(b[0]));
        assert(a.contains(b[0]));
        let j = a.index_of(b[0]);
        if k > 0 {
            assert(name_lt(b[0], b[k]));
            if j > 0 {
                assert(name_lt(a[0], a[j]));
                lemma_name_lt_transitive(a[0], b[0], a[0]);
            }
            lemma_name_lt_irreflexive(a[0]);
        }
        let a1 = a.drop_first();
        let b1 = b.drop_first();
        assert forall|i: int, j: int| 0 <= i < j < a1.len() implies name_lt(
            #[trigger] a1[i],
            #[trigger] a1[j],
        ) by {
            assert(a1[i] == a[i + 1] && a1[j] == a[j + 1]);
        }
        assert forall|i: int, j: int| 0 <= i < j < b1.len() implies name_lt(
            #[trigger] b1[i],
            #[trigger] b1[j],
        ) by {
            assert(b1[i] == b[i + 1] && b1[j] == b[j + 1]);
        }
        assert forall|x: Seq<char>| a1.contains(x) <==> b1.contains(x) by {
            if a1.contains(x) {
                let i = a1.index_of(x);
                assert(a[i + 1] == x);
                assert(a.to_set().contains(x));
                assert(b.contains(x));
                let m = b.index_of(x);
                assert(m > 0);
                assert(b1[m - 1] == x);
            }
            if b1.contains(x) {
                let i = b1.index_of(x);
                assert(b[i + 1] == x);
                assert(b.to_set().contains(x));
                assert(a.contains(x));
                let m = a.index_of(x);
                assert(m > 0);
                assert(a1[m - 1] == x);
            }
        }
        assert(a1.to_set() =~= b1.to_set());
        lemma_sorted_is_canonical(a1, b1);
        assert forall|i: int| 0 <= i < a.len() implies a[i] == b[i] by {
            if i > 0 {
                assert(a1[i - 1] == a[i] && b1[i - 1] == b[i]);
            }
        }
        assert(a =~= b);
    }
}

/// One more element of a sequence taken adds that element to the set of
/// those taken so far.
pub proof fn lemma_take_next(names: Seq<Seq<char>>, i: int)
    requires
        0 <= i < names.len(),
    ensures
        names.take(i + 1).to_set() == names.take(i).to_set().insert(names[i]),
        forall|d: Seq<char>|
            names.take(i + 1).contains(d) <==> (names.take(i).contains(d) || d == names[i]),
{
    assert(names.take(i + 1) =~= names.take(i).push(names[i]));
    names.take(i).lemma_push_to_set_commute(names[i]);
    assert forall|d: Seq<char>| names.take(i + 1).contains(d) <==> (names.take(i).contains(d) || d
        == names[i]) by {
        assert(names.take(i + 1).to_set().contains(d) <==> names.take(i + 1).contains(d));
        assert(names.take(i).to_set().contains(d) <==> names.take(i).contains(d));
    }
}

/// Finds where `name` stands among the sorted `keys`, by halving.
fn find_slot(keys: &Vec<String>, name: &str) -> (r: (usize, bool))
    requires
        strictly_sorted(name_views(keys@)),
    ensures
        is_slot(name_views(keys@), name@, r.0 as int, r.1),
{
    let ghost names = name_views(keys@);
    let mut low: usize = 0;
    let mut high: usize = keys.len();
    while low < high
        invariant
            low <= high <= keys.len(),
            names == name_views(keys@),
            strictly_sorted(names),
            forall|k: int| 0 <= k < low ==> name_lt(#[trigger] names[k], name@),
            forall|k: int| high <= k < names.len() ==> name_lt(name@, #[trigger] names[k]),
        decreases high - low,
    {
        let middle = low + (high - low) / 2;
        match name_order(keys[middle].as_str(), name) {
            NameOrder::Before => {
                proof {
                    assert forall|k: int| 0 <= k < middle + 1 implies name_lt(
                        #[trigger] names[k],
                        name@,
                    ) by {
                        if k < middle {
                            lemma_name_lt_transitive(names[k], names[middle as int], name@);
                        }
                    }
                }
                low = middle + 1;
            },
            NameOrder::Same => {
                proof {
                    assert(names[middle as int] == name@);
                    assert forall|k: int| 0 <= k < middle implies name_lt(
                        #[trigger] names[k],
                        name@,
                    ) by {
                        assert(name_lt(names[k], names[middle as int]));
                    }
                }
                return (middle, true);
            },
            NameOrder::After => {
                proof {
                    assert forall|k: int| middle <= k < names.len() implies name_lt(
                        name@,
                        #[trigger] names[k],
                    ) by {
                        if k > middle {
                            lemma_name_lt_transitive(name@, names[middle as int], names[k]);
                        }
                    }
                }
                high = middle;
            },
        }
    }
    (low, false)
}

/// A finite set of names, kept sorted.
#[derive(Debug)]
pub struct NameSet {
    names: Vec<String>,
}

impl View for NameSet {
    type V = Set<Seq<char>>;

    closed spec fn view(&self) -> Set<Seq<char>> {
        self.seq().to_set()
    }
}

impl Clone for NameSet {
    /// A copy that holds the same names.
    fn clone(&self) -> (copy: NameSet)
        ensures
            copy.seq() == self.seq(),
            copy@ == self@,
    {
        proof {
            use_type_invariant(self);
        }
        NameSet { names: self.to_vec() }
    }
}

impl NameSet {
    /// The names in the order in which the set holds them.
    pub closed spec fn seq(&self) -> Seq<Seq<char>> {
        name_views(self.names@)
    }

    /// The names stand in strictly increasing order. This holds of every
    /// set that a program can hold.
    #[verifier::type_invariant]
    pub open spec fn wf(&self) -> bool {
        strictly_sorted(self.seq())
    }

    /// The set holds exactly the names of its sequence.
    pub proof fn lemma_view_is_seq(&self)
        ensures
            self@ == self.seq().to_set(),
    {
    }

    /// Two sets that hold the same names hold them as the same sequence: a
    /// set has one representation.
    pub proof fn lemma_one_representation(&self, other: &NameSet)
        requires
            self.wf(),
            other.wf(),
            self@ == other@,
        ensures
            self.seq() == other.seq(),
    {
        lemma_sorted_is_canonical(self.seq(), other.seq());
    }

    /// The empty set.
    pub fn new() -> (s: NameSet)
        ensures
            s@ == Set::<Seq<char>>::empty(),
            s.seq() == Seq::<Seq<char>>::empty(),
    {
        let names: Vec<String> = Vec::new();
        assert(name_views(names@) =~= Seq::<Seq<char>>::empty());
        let s = NameSet { names };
        assert(s@ =~= Set::<Seq<char>>::empty());
        s
    }

    /// The number of names in the set.
    pub fn len(&self) -> (n: usize)
        ensures
            n == self.seq().len(),
            n == self@.len(),
    {
        proof {
            use_type_invariant(self);
            lemma_sorted_no_duplicates(self.seq());
            self.seq().unique_seq_to_set();
        }
        self.names.len()
    }

    /// Whether the set holds no name.
    pub fn is_empty(&self) -> (b: bool)
        ensures
            b <==> self@ == Set::<Seq<char>>::empty(),
            b <==> self.seq().len() == 0,
    {
        proof {
            if self.seq().len() == 0 {
                assert(self@ =~= Set::<Seq<char>>::empty());
            } else {
                assert(self.seq().contains(self.seq()[0]));
                assert(self@.contains(self.seq()[0]));
            }
        }
        self.names.len() == 0
    }

    /// The name at position `i` of the sorted order.
    pub fn get(&self, i: usize) -> (name: &String)
        requires
            i < self.seq().len(),
        ensures
            name@ == self.seq()[i as int],
            self@.contains(name@),
    {
        assert(self.seq().contains(self.seq()[i as int]));
        &self.names[i]
    }

    /// Whether the set holds `name`.
    pub fn contains(&self, name: &str) -> (b: bool)
        ensures
            b <==> self@.contains(name@),
    {
        proof {
            use_type_invariant(self);
        }
        let (slot, found) = find_slot(&self.names, name);
        proof {
            lemma_slot_decides_membership(self.seq(), name@, slot as int, found);
        }
        found
    }

    /// Adds `name` to the set. Returns whether the name is new to it.
    pub fn insert(&mut self, name: String) -> (added: bool)
        ensures
            final(self)@ == old(self)@.insert(name@),
            added <==> !old(self)@.contains(name@),
    {
        proof {
            use_type_invariant(&*self);
        }
        let (slot, found) = find_slot(&self.names, name.as_str());
        proof {
            lemma_slot_decides_membership(self.seq(), name@, slot as int, found);
        }
        if found {
            assert(self@.insert(name@) =~= self@);
            false
        } else {
            let ghost before = self.seq();
            let mut names: Vec<String> = Vec::new();
            proof {
                assert(name_views(names@) =~= Seq::<Seq<char>>::empty());
            }
            core::mem::swap(&mut self.names, &mut names);
            names.insert(slot, name);
            proof {
                assert(name_views(names@) =~= before.insert(slot as int, name@));
                lemma_insert_keeps_sorted(before, name@, slot as int);
            }
            self.names = names;
            proof {
                assert(self.seq() =~= before.insert(slot as int, name@));
                assert(self@ =~= before.to_set().insert(name@)) by {
                    assert forall|x: Seq<char>|
                        self.seq().contains(x) <==> (before.contains(x) || x == name@) by {
                        if self.seq().contains(x) {
                            let k = self.seq().index_of(x);
                            if k < slot {
                                assert(before[k] == x);
                            } else if k > slot {
                                assert(before[k - 1] == x);
                            }
                        }
                        if before.contains(x) {
                            let k = before.index_of(x);
                            if k < slot {
                                assert(self.seq()[k] == x);
                            } else {
                                assert(self.seq()[k + 1] == x);
                            }
                        }
                        if x == name@ {
                            assert(self.seq()[slot as int] == x);
                        }
                    }
                }
            }
            true
        }
    }

    /// The names of the set, sorted.
    pub fn to_vec(&self) -> (v: Vec<String>)
        ensures
            name_views(v@) == self.seq(),
    {
        let mut v: Vec<String> = Vec::new();
        let mut i: usize = 0;
        while i < self.names.len()
            invariant
                i <= self.names.len(),
                v@.len() == i,
                forall|k: int| 0 <= k < i ==> v@[k]@ == self.names@[k]@,
            decreases self.names.len() - i,
        {
            v.push(self.names[i].clone());
            i += 1;
        }
        assert(name_views(v@) =~= self.seq());
        v
    }
}

} // verus!
