//! The manifests of the packages installed under the project, by package
//! name. A package without an entry counts as one whose manifest could not
//! be found or read.

use vstd::prelude::*;
use crate::name_map::NameMap;
use crate::package::{decoded_text, Package};

verus! {

/// The manifests of the installed packages that could be loaded.
#[derive(Debug)]
pub struct InstalledModules {
    modules: NameMap<Package>,
}

impl View for InstalledModules {
    type V = Map<Seq<char>, Package>;

    closed spec fn view(&self) -> Map<Seq<char>, Package> {
        self.modules@
    }
}

impl InstalledModules {
    /// `name` is installed and its manifest offers at least one executable.
    pub open spec fn is_bin(&self, name: Seq<char>) -> bool {
        self@.contains_key(name) && self@[name].offers_bin()
    }

    /// A store without manifests.
    pub fn new() -> (installed: InstalledModules)
        ensures
            installed@ == Map::<Seq<char>, Package>::empty(),
    {
        InstalledModules { modules: NameMap::new() }
    }

    /// Records the manifest of the installed package `name`, replacing the
    /// one recorded before.
    pub fn insert(&mut self, name: String, package: Package)
        ensures
            final(self)@ == old(self)@.insert(name@, package),
    {
        self.modules.insert(name, package);
    }

    /// Records the manifest of the installed package `name` from the text of
    /// its manifest file. A text that spells no manifest is passed over and
    /// leaves the store as it was; the answer says whether the manifest was
    /// recorded.
    pub fn load(&mut self, name: String, text: &[u8]) -> (recorded: bool)
        ensures
            recorded <==> decoded_text(text@) is Ok,
            !recorded ==> final(self)@ == old(self)@,
            recorded ==> final(self)@.contains_key(name@) && final(self)@[name@]@
                == decoded_text(text@)->Ok_0 && final(self)@ == old(self)@.insert(
                name@,
                final(self)@[name@],
            ),
    {
        match Package::from_slice(text) {
            Ok(package) => {
                self.modules.insert(name, package);
                true
            },
            Err(_) => false,
        }
    }

    /// The manifest of the installed package `name`, if one was recorded.
    pub fn get(&self, name: &str) -> (r: Option<&Package>)
        ensures
            r is Some <==> self@.contains_key(name@),
            r is Some ==> *r->0 == self@[name@],
    {
        self.modules.get(name)
    }

    /// Whether a manifest was recorded for `name`.
    pub fn contains(&self, name: &str) -> (b: bool)
        ensures
            b == self@.contains_key(name@),
    {
        self.modules.contains_key(name)
    }
}

/// Whether `dependency` is a bin package: it is installed and its manifest
/// declares a non-empty `bin` table. A package whose manifest could not be
/// loaded is no bin package.
pub fn is_bin_dependency(installed: &InstalledModules, dependency: &str) -> (b: bool)
    ensures
        b == installed.is_bin(dependency@),
{
    match installed.get(dependency) {
        Some(module) => module.has_bin(),
        None => false,
    }
}

} // verus!
