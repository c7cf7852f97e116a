//! The usage map: for each package name, the files that import it.
//!
//! Files are recorded one at a time, each with the set of names it uses.
//! Recording is a union per name, so the map does not depend on the order in
//! which files arrive, nor on how often one arrives.

use vstd::prelude::*;
use crate::name_map::NameMap;
use crate::name_set::{lemma_take_next, name_views, strictly_sorted, NameSet};

verus! {

/// The files recorded for `dependency`; none where the map lacks the name.
pub open spec fn files_of(usage: Map<Seq<char>, Set<Seq<char>>>, dependency: Seq<char>) -> Set<
    Seq<char>,
> {
    if usage.contains_key(dependency) {
        usage[dependency]
    } else {
        Set::empty()
    }
}

/// The usage map after `file` was seen to use `dependency`.
pub open spec fn recorded(
    usage: Map<Seq<char>, Set<Seq<char>>>,
    dependency: Seq<char>,
    file: Seq<char>,
) -> Map<Seq<char>, Set<Seq<char>>> {
    usage.insert(dependency, files_of(usage, dependency).insert(file))
}

/// The usage map after `file` was seen to use each of `dependencies`.
pub open spec fn merged(
    usage: Map<Seq<char>, Set<Seq<char>>>,
    file: Seq<char>,
    dependencies: Set<Seq<char>>,
) -> Map<Seq<char>, Set<Seq<char>>> {
    Map::new(
        |d: Seq<char>| usage.contains_key(d) || dependencies.contains(d),
        |d: Seq<char>|
            if dependencies.contains(d) {
                files_of(usage, d).insert(file)
            } else {
                usage[d]
            },
    )
}

/// Merging one more dependency of a file is recording it.
pub proof fn lemma_merged_insert(
    usage: Map<Seq<char>, Set<Seq<char>>>,
    file: Seq<char>,
    dependencies: Set<Seq<char>>,
    dependency: Seq<char>,
)
    ensures
        merged(usage, file, dependencies.insert(dependency)) == recorded(
            merged(usage, file, dependencies),
            dependency,
            file,
        ),
{
    let left = merged(usage, file, dependencies.insert(dependency));
    let right = recorded(merged(usage, file, dependencies), dependency, file);
    assert forall|d: Seq<char>| left.contains_key(d) implies #[trigger] left[d] =~= right[d] by {}
    assert(left =~= right);
}

/// Merging no dependency changes nothing.
pub proof fn lemma_merged_nothing(usage: Map<Seq<char>, Set<Seq<char>>>, file: Seq<char>)
    ensures
        merged(usage, file, Set::empty()) == usage,
{
    assert(merged(usage, file, Set::empty()) =~= usage);
}

/// Recording the same file with the same names a second time changes
/// nothing: nothing is counted twice.
pub proof fn lemma_merge_idempotent(
    usage: Map<Seq<char>, Set<Seq<char>>>,
    file: Seq<char>,
    dependencies: Set<Seq<char>>,
)
    ensures
        merged(merged(usage, file, dependencies), file, dependencies) == merged(
            usage,
            file,
            dependencies,
        ),
{
    let once = merged(usage, file, dependencies);
    let twice = merged(once, file, dependencies);
    assert forall|d: Seq<char>| once.contains_key(d) implies #[trigger] once[d] =~= twice[d] by {}
    assert(once =~= twice);
}

/// Two files can be recorded in either order: the usage map is the same.
pub proof fn lemma_merge_commutes(
    usage: Map<Seq<char>, Set<Seq<char>>>,
    file1: Seq<char>,
    dependencies1: Set<Seq<char>>,
    file2: Seq<char>,
    dependencies2: Set<Seq<char>>,
)
    ensures
        merged(merged(usage, file1, dependencies1), file2, dependencies2) == merged(
            merged(usage, file2, dependencies2),
            file1,
            dependencies1,
        ),
{
    let left = merged(merged(usage, file1, dependencies1), file2, dependencies2);
    let right = merged(merged(usage, file2, dependencies2), file1, dependencies1);
    assert forall|d: Seq<char>| left.contains_key(d) implies #[trigger] left[d] =~= right[d] by {}
    assert(left =~= right);
}

/// For each package name in use, the files that import it. Names and files
/// are kept sorted.
#[derive(Debug)]
pub struct UsageMap {
    entries: NameMap<NameSet>,
}

impl View for UsageMap {
    type V = Map<Seq<char>, Set<Seq<char>>>;

    closed spec fn view(&self) -> Map<Seq<char>, Set<Seq<char>>> {
        Map::new(
            |d: Seq<char>| self.entries@.contains_key(d),
            |d: Seq<char>| self.entries@[d]@,
        )
    }
}

impl UsageMap {
    /// The names stand in strictly increasing order. This holds of every
    /// usage map that a program can hold.
    #[verifier::type_invariant]
    pub open spec fn wf(&self) -> bool {
        strictly_sorted(self.names())
    }

    /// The names in use, in sorted order.
    pub closed spec fn names(&self) -> Seq<Seq<char>> {
        self.entries.key_seq()
    }

    /// The names of the sequence are exactly the names that the map has an
    /// entry for, each once.
    pub proof fn lemma_names(&self)
        requires
            self.wf(),
        ensures
            self@.dom() == self.names().to_set(),
            self.names().no_duplicates(),
            forall|d: Seq<char>| self@.contains_key(d) <==> self.names().contains(d),
            forall|i: int|
                0 <= i < self.names().len() ==> self@.contains_key(#[trigger] self.names()[i]),
    {
        self.entries.lemma_view();
        assert(self@.dom() =~= self.names().to_set());
    }

    /// Two usage maps with the same entries list their names in the same
    /// order.
    pub proof fn lemma_one_order(&self, other: &UsageMap)
        requires
            self.wf(),
            other.wf(),
            self@ == other@,
        ensures
            self.names() == other.names(),
    {
        self.lemma_names();
        other.lemma_names();
        crate::name_set::lemma_sorted_is_canonical(self.names(), other.names());
    }

    /// A usage map without entries.
    pub fn new() -> (usage: UsageMap)
        ensures
            usage@ == Map::<Seq<char>, Set<Seq<char>>>::empty(),
    {
        let entries: NameMap<NameSet> = NameMap::new();
        proof {
            use_type_invariant(&entries);
        }
        let usage = UsageMap { entries };
        assert(usage@ =~= Map::<Seq<char>, Set<Seq<char>>>::empty());
        usage
    }

    /// The number of names in use.
    pub fn len(&self) -> (n: usize)
        ensures
            n == self.names().len(),
            n == self@.dom().len(),
    {
        proof {
            use_type_invariant(self);
            self.entries.lemma_view();
            assert(self@.dom() =~= self.entries@.dom());
        }
        self.entries.len()
    }

    /// The names in use, sorted.
    pub fn name_list(&self) -> (names: Vec<String>)
        ensures
            name_views(names@) == self.names(),
            strictly_sorted(name_views(names@)),
    {
        proof {
            use_type_invariant(self);
        }
        self.entries.keys()
    }

    /// The name at position `i` of the sorted order.
    pub fn name_at(&self, i: usize) -> (name: &String)
        requires
            i < self.names().len(),
        ensures
            name@ == self.names()[i as int],
            self@.contains_key(name@),
    {
        self.entries.key_at(i)
    }

    /// The files recorded for the name at position `i` of the sorted order.
    pub fn files_at(&self, i: usize) -> (files: &NameSet)
        requires
            i < self.names().len(),
        ensures
            files@ == self@[self.names()[i as int]],
    {
        proof {
            use_type_invariant(self);
            self.entries.lemma_view();
        }
        self.entries.value_at(i)
    }

    /// Whether some file uses `dependency`.
    pub fn contains_key(&self, dependency: &str) -> (b: bool)
        ensures
            b == self@.contains_key(dependency@),
    {
        self.entries.contains_key(dependency)
    }

    /// The files that use `dependency`, if any does.
    pub fn get(&self, dependency: &str) -> (r: Option<&NameSet>)
        ensures
            r is Some <==> self@.contains_key(dependency@),
            r is Some ==> r->0@ == self@[dependency@],
    {
        self.entries.get(dependency)
    }

    /// Sets the files recorded for `dependency`, replacing those recorded
    /// before.
    pub fn put(&mut self, dependency: String, files: NameSet)
        ensures
            final(self)@ == old(self)@.insert(dependency@, files@),
    {
        let ghost before = self@;
        let mut entries: NameMap<NameSet> = NameMap::new();
        proof {
            use_type_invariant(&entries);
        }
        core::mem::swap(&mut self.entries, &mut entries);
        entries.insert(dependency, files);
        proof {
            use_type_invariant(&entries);
        }
        self.entries = entries;
        assert(self@ =~= before.insert(dependency@, files@));
    }

    /// Records that `file` uses `dependency`.
    pub fn record(&mut self, dependency: String, file: String)
        ensures
            final(self)@ == recorded(old(self)@, dependency@, file@),
    {
        let ghost before = self@;
        let mut entries: NameMap<NameSet> = NameMap::new();
        proof {
            use_type_invariant(&entries);
        }
        core::mem::swap(&mut self.entries, &mut entries);
        match entries.position(dependency.as_str()) {
            Some(i) => {
                let mut files = entries.replace_at(i, NameSet::new());
                files.insert(file);
                entries.replace_at(i, files);
            },
            None => {
                let mut files = NameSet::new();
                files.insert(file);
                entries.insert(dependency, files);
            },
        }
        proof {
            use_type_invariant(&entries);
        }
        self.entries = entries;
        proof {
            let after = recorded(before, dependency@, file@);
            assert forall|d: Seq<char>| self@.contains_key(d) implies #[trigger] self@[d]
                =~= after[d] by {}
            assert(self@ =~= after);
        }
    }

    /// Records that `file` uses each of `dependencies`.
    pub fn record_file(&mut self, file: &str, dependencies: &NameSet)
        ensures
            final(self)@ == merged(old(self)@, file@, dependencies@),
    {
        let ghost before = self@;
        let ghost names = dependencies.seq();
        proof {
            lemma_merged_nothing(before, file@);
            assert(names.take(0).to_set() =~= Set::<Seq<char>>::empty());
            dependencies.lemma_view_is_seq();
        }
        let mut i: usize = 0;
        while i < dependencies.len()
            invariant
                names == dependencies.seq(),
                i <= names.len(),
                self@ == merged(before, file@, names.take(i as int).to_set()),
            decreases names.len() - i,
        {
            let dependency = dependencies.get(i);
            proof {
                lemma_take_next(names, i as int);
                lemma_merged_insert(
                    before,
                    file@,
                    names.take(i as int).to_set(),
                    names[i as int],
                );
            }
            self.record(dependency.clone(), file.to_owned());
            i += 1;
        }
        proof {
            assert(names.take(i as int) =~= names);
        }
    }
}

} // verus!
