//! The package manifest: a package's name and version, the tables of the
//! packages it depends on, and the executables it offers.

use vstd::prelude::*;
use crate::json::{find_member, member, parsed_json, Json};
use crate::name_map::NameMap;

verus! {

/// An ordered map for `dependencies` entries: package name to version
/// range.
pub type DepsSet = NameMap<String>;

/// An ordered map for `bin` entries: executable name to path.
pub type BinSet = NameMap<String>;

/// A package manifest.
#[derive(Debug)]
pub struct Package {
    /// The package name.
    pub name: String,
    /// The package version.
    pub version: String,
    /// The packages needed at run time.
    pub dependencies: DepsSet,
    /// The packages needed for development only.
    pub dev_dependencies: DepsSet,
    /// The packages that the host project is expected to provide.
    pub peer_dependencies: DepsSet,
    /// The packages shipped inside this one.
    pub bundled_dependencies: DepsSet,
    /// The packages used when they are present.
    pub optional_dependencies: DepsSet,
    /// The executables that the package offers, where it declares any.
    pub bin: Option<BinSet>,
}

/// What a manifest holds, as plain values.
pub struct PackageView {
    pub name: Seq<char>,
    pub version: Seq<char>,
    pub dependencies: Map<Seq<char>, Seq<char>>,
    pub dev_dependencies: Map<Seq<char>, Seq<char>>,
    pub peer_dependencies: Map<Seq<char>, Seq<char>>,
    pub bundled_dependencies: Map<Seq<char>, Seq<char>>,
    pub optional_dependencies: Map<Seq<char>, Seq<char>>,
    pub bin: Option<Map<Seq<char>, Seq<char>>>,
}

/// The fields that a manifest is read from.
#[derive(Clone, Copy, Debug, PartialEq, Eq)]
pub enum ManifestField {
    Name,
    Version,
    Dependencies,
    DevDependencies,
    PeerDependencies,
    BundledDependencies,
    OptionalDependencies,
    Bin,
}

/// Why a text is no manifest.
#[derive(Clone, Copy, Debug, PartialEq, Eq)]
pub enum ManifestError {
    /// The text is no JSON document.
    Syntax,
    /// The document is no JSON object.
    NotAnObject,
    /// The field is there, but holds a value of the wrong shape.
    InvalidField(ManifestField),
}

/// What a table holds, as plain values.
pub open spec fn table_view(table: NameMap<String>) -> Map<Seq<char>, Seq<char>> {
    Map::new(|k: Seq<char>| table@.contains_key(k), |k: Seq<char>| table@[k]@)
}

/// The text of a JSON string; empty for any other value.
pub open spec fn text_of(json: Json) -> Seq<char> {
    match json {
        Json::Text(text) => text@,
        _ => Seq::empty(),
    }
}

/// Every member holds a string.
pub open spec fn is_table(members: Seq<(String, Json)>) -> bool {
    forall|i: int| 0 <= i < members.len() ==> (#[trigger] members[i]).1 is Text
}

/// The table that the members of an object spell: each key with its text.
/// Where a key occurs twice, the later member counts.
pub open spec fn table_of(members: Seq<(String, Json)>) -> Map<Seq<char>, Seq<char>>
    decreases members.len(),
{
    if members.len() == 0 {
        Map::empty()
    } else {
        table_of(members.drop_last()).insert(members.last().0@, text_of(members.last().1))
    }
}

/// The text under `key`: empty where the object has no such member, `None`
/// where the member holds no string.
pub open spec fn text_member(members: Seq<(String, Json)>, key: Seq<char>) -> Option<Seq<char>> {
    match member(members, key) {
        None => Some(Seq::empty()),
        Some(Json::Text(text)) => Some(text@),
        Some(_) => None,
    }
}

/// The table under `key`: empty where the object has no such member, `None`
/// where the member is no object of strings.
pub open spec fn table_member(members: Seq<(String, Json)>, key: Seq<char>) -> Option<
    Map<Seq<char>, Seq<char>>,
> {
    match member(members, key) {
        None => Some(Map::empty()),
        Some(Json::Object(items)) => if is_table(items@) {
            Some(table_of(items@))
        } else {
            None
        },
        Some(_) => None,
    }
}

/// The executables under `bin`: none where the member is absent or null; a
/// bare path counts as one executable named like the package; an object of
/// strings counts as it stands; anything else is `None`, an error.
pub open spec fn bin_member(members: Seq<(String, Json)>, name: Seq<char>) -> Option<
    Option<Map<Seq<char>, Seq<char>>>,
> {
    match member(members, "bin"@) {
        None => Some(None),
        Some(Json::Null) => Some(None),
        Some(Json::Text(path)) => Some(Some(Map::empty().insert(name, path@))),
        Some(Json::Object(items)) => if is_table(items@) {
            Some(Some(table_of(items@)))
        } else {
            None
        },
        Some(_) => None,
    }
}

/// The manifest that a JSON document spells, or why it spells none. Every
/// field may be missing; the first field of the wrong shape, in the order
/// of `ManifestField`, is the one reported.
pub open spec fn decoded(json: Json) -> Result<PackageView, ManifestError> {
    match json {
        Json::Object(members) => {
            let m = members@;
            if text_member(m, "name"@) is None {
                Err(ManifestError::InvalidField(ManifestField::Name))
            } else if text_member(m, "version"@) is None {
                Err(ManifestError::InvalidField(ManifestField::Version))
            } else if table_member(m, "dependencies"@) is None {
                Err(ManifestError::InvalidField(ManifestField::Dependencies))
            } else if table_member(m, "devDependencies"@) is None {
                Err(ManifestError::InvalidField(ManifestField::DevDependencies))
            } else if table_member(m, "peerDependencies"@) is None {
                Err(ManifestError::InvalidField(ManifestField::PeerDependencies))
            } else if table_member(m, "bundledDependencies"@) is None {
                Err(ManifestError::InvalidField(ManifestField::BundledDependencies))
            } else if table_member(m, "optionalDependencies"@) is None {
                Err(ManifestError::InvalidField(ManifestField::OptionalDependencies))
            } else if bin_member(m, text_member(m, "name"@)->0) is None {
                Err(ManifestError::InvalidField(ManifestField::Bin))
            } else {
                Ok(
                    PackageView {
                        name: text_member(m, "name"@)->0,
                        version: text_member(m, "version"@)->0,
                        dependencies: table_member(m, "dependencies"@)->0,
                        dev_dependencies: table_member(m, "devDependencies"@)->0,
                        peer_dependencies: table_member(m, "peerDependencies"@)->0,
                        bundled_dependencies: table_member(m, "bundledDependencies"@)->0,
                        optional_dependencies: table_member(m, "optionalDependencies"@)->0,
                        bin: bin_member(m, text_member(m, "name"@)->0)->0,
                    },
                )
            }
        },
        _ => Err(ManifestError::NotAnObject),
    }
}

/// The manifest that a text spells, or why it spells none.
pub open spec fn decoded_text(bytes: Seq<u8>) -> Result<PackageView, ManifestError> {
    match parsed_json(bytes) {
        None => Err(ManifestError::Syntax),
        Some(json) => decoded(json),
    }
}

impl View for Package {
    type V = PackageView;

    open spec fn view(&self) -> PackageView {
        PackageView {
            name: self.name@,
            version: self.version@,
            dependencies: table_view(self.dependencies),
            dev_dependencies: table_view(self.dev_dependencies),
            peer_dependencies: table_view(self.peer_dependencies),
            bundled_dependencies: table_view(self.bundled_dependencies),
            optional_dependencies: table_view(self.optional_dependencies),
            bin: match self.bin {
                Some(bin) => Some(table_view(bin)),
                None => None,
            },
        }
    }
}

/// Reads the text under `key`.
fn read_text(members: &Vec<(String, Json)>, key: &str) -> (r: Option<String>)
    ensures
        r is Some <==> text_member(members@, key@) is Some,
        r is Some ==> r->0@ == text_member(members@, key@)->0,
{
    match find_member(members, key) {
        None => Some(String::new()),
        Some(Json::Text(text)) => Some(text.clone()),
        Some(_) => None,
    }
}

/// Builds the table that the members of an object spell.
fn read_members(items: &Vec<(String, Json)>) -> (r: Option<NameMap<String>>)
    ensures
        r is Some <==> is_table(items@),
        r is Some ==> table_view(r->0) == table_of(items@),
{
    let mut table: NameMap<String> = NameMap::new();
    proof {
        assert(table_view(table) =~= table_of(items@.take(0)));
    }
    let mut i: usize = 0;
    while i < items.len()
        invariant
            i <= items.len(),
            is_table(items@.take(i as int)),
            table_view(table) == table_of(items@.take(i as int)),
        decreases items.len() - i,
    {
        match &items[i].1 {
            Json::Text(text) => {
                let ghost before = table_view(table);
                table.insert(items[i].0.clone(), text.clone());
                proof {
                    let next = items@.take(i + 1);
                    assert(next.drop_last() =~= items@.take(i as int));
                    assert(next.last() == items@[i as int]);
                    assert(table_view(table) =~= before.insert(
                        items@[i as int].0@,
                        text_of(items@[i as int].1),
                    ));
                    assert forall|j: int| 0 <= j < next.len() implies (#[trigger] next[j]).1
                        is Text by {
                        if j < i {
                            assert(items@.take(i as int)[j] == next[j]);
                        }
                    }
                }
            },
            _ => {
                assert(!(items@[i as int].1 is Text));
                return None;
            },
        }
        i += 1;
    }
    proof {
        assert(items@.take(i as int) =~= items@);
    }
    Some(table)
}

/// Reads the table under `key`.
fn read_table(members: &Vec<(String, Json)>, key: &str) -> (r: Option<NameMap<String>>)
    ensures
        r is Some <==> table_member(members@, key@) is Some,
        r is Some ==> table_view(r->0) == table_member(members@, key@)->0,
{
    match find_member(members, key) {
        None => {
            let table: NameMap<String> = NameMap::new();
            assert(table_view(table) =~= Map::<Seq<char>, Seq<char>>::empty());
            Some(table)
        },
        Some(Json::Object(items)) => read_members(items),
        Some(_) => None,
    }
}

/// Reads the executables under `bin` of the package called `name`.
fn read_bin(members: &Vec<(String, Json)>, name: &String) -> (r: Option<Option<NameMap<String>>>)
    ensures
        r is Some <==> bin_member(members@, name@) is Some,
        r is Some ==> match (r->0, bin_member(members@, name@)->0) {
            (Some(bin), Some(spelled)) => table_view(bin) == spelled,
            (None, None) => true,
            _ => false,
        },
{
    match find_member(members, "bin") {
        None => Some(None),
        Some(Json::Null) => Some(None),
        Some(Json::Text(path)) => {
            let mut bin: NameMap<String> = NameMap::new();
            bin.insert(name.clone(), path.clone());
            assert(table_view(bin) =~= Map::<Seq<char>, Seq<char>>::empty().insert(
                name@,
                path@,
            ));
            Some(Some(bin))
        },
        Some(Json::Object(items)) => match read_members(items) {
            Some(bin) => Some(Some(bin)),
            None => None,
        },
        Some(_) => None,
    }
}

impl Package {
    /// The manifest lists `name` under `dependencies` or under
    /// `devDependencies`: the project itself declares the package.
    pub open spec fn declares(&self, name: Seq<char>) -> bool {
        self.dependencies@.contains_key(name) || self.dev_dependencies@.contains_key(name)
    }

    /// The manifest lists `name` under one of the four tables that satisfy
    /// an import: `dependencies`, `devDependencies`, `peerDependencies`,
    /// `optionalDependencies`.
    pub open spec fn satisfies(&self, name: Seq<char>) -> bool {
        ||| self.dependencies@.contains_key(name)
        ||| self.dev_dependencies@.contains_key(name)
        ||| self.peer_dependencies@.contains_key(name)
        ||| self.optional_dependencies@.contains_key(name)
    }

    /// The manifest declares a non-empty `bin` table.
    pub open spec fn offers_bin(&self) -> bool {
        self.bin is Some && self.bin->0@.dom().len() > 0
    }

    /// Creates an empty manifest: no name, no version, no dependency, no
    /// `bin`.
    pub fn new() -> (p: Package)
        ensures
            p.name@.len() == 0,
            p.version@.len() == 0,
            p.dependencies@ == Map::<Seq<char>, String>::empty(),
            p.dev_dependencies@ == Map::<Seq<char>, String>::empty(),
            p.peer_dependencies@ == Map::<Seq<char>, String>::empty(),
            p.bundled_dependencies@ == Map::<Seq<char>, String>::empty(),
            p.optional_dependencies@ == Map::<Seq<char>, String>::empty(),
            p.bin is None,
    {
        Package {
            name: String::new(),
            version: String::new(),
            dependencies: NameMap::new(),
            dev_dependencies: NameMap::new(),
            peer_dependencies: NameMap::new(),
            bundled_dependencies: NameMap::new(),
            optional_dependencies: NameMap::new(),
            bin: None,
        }
    }

    /// Reads a manifest out of a JSON document.
    ///
    /// The document must be an object. Each field may be missing, and then
    /// counts as empty; a field of the wrong shape is an error. A `bin` that
    /// is a bare path becomes a table of one executable named like the
    /// package.
    pub fn from_json(json: &Json) -> (r: Result<Package, ManifestError>)
        ensures
            match (r, decoded(*json)) {
                (Ok(package), Ok(spelled)) => package@ == spelled,
                (Err(error), Err(reason)) => error == reason,
                _ => false,
            },
    {
        let members = match json {
            Json::Object(members) => members,
            _ => {
                return Err(ManifestError::NotAnObject);
            },
        };
        let name = match read_text(members, "name") {
            Some(name) => name,
            None => {
                return Err(ManifestError::InvalidField(ManifestField::Name));
            },
        };
        let version = match read_text(members, "version") {
            Some(version) => version,
            None => {
                return Err(ManifestError::InvalidField(ManifestField::Version));
            },
        };
        let dependencies = match read_table(members, "dependencies") {
            Some(table) => table,
            None => {
                return Err(ManifestError::InvalidField(ManifestField::Dependencies));
            },
        };
        let dev_dependencies = match read_table(members, "devDependencies") {
            Some(table) => table,
            None => {
                return Err(ManifestError::InvalidField(ManifestField::DevDependencies));
            },
        };
        let peer_dependencies = match read_table(members, "peerDependencies") {
            Some(table) => table,
            None => {
                return Err(ManifestError::InvalidField(ManifestField::PeerDependencies));
            },
        };
        let bundled_dependencies = match read_table(members, "bundledDependencies") {
            Some(table) => table,
            None => {
                return Err(ManifestError::InvalidField(ManifestField::BundledDependencies));
            },
        };
        let optional_dependencies = match read_table(members, "optionalDependencies") {
            Some(table) => table,
            None => {
                return Err(ManifestError::InvalidField(ManifestField::OptionalDependencies));
            },
        };
        let bin = match read_bin(members, &name) {
            Some(bin) => bin,
            None => {
                return Err(ManifestError::InvalidField(ManifestField::Bin));
            },
        };
        Ok(
            Package {
                name,
                version,
                dependencies,
                dev_dependencies,
                peer_dependencies,
                bundled_dependencies,
                optional_dependencies,
                bin,
            },
        )
    }

    /// Reads a manifest out of the bytes of a JSON text.
    pub fn from_slice(v: &[u8]) -> (r: Result<Package, ManifestError>)
        ensures
            match (r, decoded_text(v@)) {
                (Ok(package), Ok(spelled)) => package@ == spelled,
                (Err(error), Err(reason)) => error == reason,
                _ => false,
            },
    {
        match Json::parse(v) {
            None => Err(ManifestError::Syntax),
            Some(json) => Package::from_json(&json),
        }
    }

    /// Whether `dependency` is listed under `dependencies`.
    pub fn is_dependency(&self, dependency: &str) -> (b: bool)
        ensures
            b == self.dependencies@.contains_key(dependency@),
    {
        self.dependencies.contains_key(dependency)
    }

    /// Whether `dependency` is listed under `devDependencies`.
    pub fn is_dev_dependency(&self, dependency: &str) -> (b: bool)
        ensures
            b == self.dev_dependencies@.contains_key(dependency@),
    {
        self.dev_dependencies.contains_key(dependency)
    }

    /// Whether `dependency` is listed under `peerDependencies`.
    pub fn is_peer_dependency(&self, dependency: &str) -> (b: bool)
        ensures
            b == self.peer_dependencies@.contains_key(dependency@),
    {
        self.peer_dependencies.contains_key(dependency)
    }

    /// Whether `dependency` is listed under `optionalDependencies`.
    pub fn is_optional_dependency(&self, dependency: &str) -> (b: bool)
        ensures
            b == self.optional_dependencies@.contains_key(dependency@),
    {
        self.optional_dependencies.contains_key(dependency)
    }

    /// Whether `dependency` is listed under any of the four tables that
    /// satisfy an import. `bundledDependencies` is not among them.
    pub fn is_any_dependency(&self, dependency: &str) -> (b: bool)
        ensures
            b == self.satisfies(dependency@),
    {
        self.is_dependency(dependency) || self.is_dev_dependency(dependency)
            || self.is_peer_dependency(dependency) || self.is_optional_dependency(dependency)
    }

    /// Whether the project itself declares `dependency`, under
    /// `dependencies` or `devDependencies`.
    pub fn is_declared(&self, dependency: &str) -> (b: bool)
        ensures
            b == self.declares(dependency@),
    {
        self.is_dependency(dependency) || self.is_dev_dependency(dependency)
    }

    /// Whether the package offers at least one executable.
    pub fn has_bin(&self) -> (b: bool)
        ensures
            b == self.offers_bin(),
    {
        match &self.bin {
            Some(bin) => bin.len() > 0,
            None => false,
        }
    }
}

} // verus!
