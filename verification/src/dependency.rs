//! Classification of one import: which package names a specifier found in a
//! source file counts as using.

use vstd::prelude::*;
use crate::config::Config;
use crate::installed::{is_bin_dependency, InstalledModules};
use crate::name_set::{lemma_take_next, NameSet};
use crate::package::{DepsSet, Package};
use crate::specifier::{
    extract_package_name, extract_type_name, is_core_module, is_core_module_name,
    is_external, is_external_specifier, package_name, types_package_name,
};

verus! {

/// How a specifier is imported.
#[derive(Clone, Copy, Debug, PartialEq, Eq)]
pub enum ImportKind {
    /// An ordinary import, `require` or re-export.
    Value,
    /// An import of types only.
    TypeOnly,
}

/// One specifier found in a source file, with the way it is imported.
#[derive(Debug)]
pub struct Dependency {
    pub specifier: String,
    pub kind: ImportKind,
}

/// The names that a specifier stands for before installed packages are
/// looked at.
///
/// A specifier that names no package stands for nothing. A type-only import
/// stands for the types package of the package it names, and only where the
/// project declares that types package. An ordinary import stands for the
/// package it names, and for its types package too where the project
/// declares that.
pub open spec fn attributable(specifier: Seq<char>, kind: ImportKind, package: Package) -> Set<
    Seq<char>,
> {
    match package_name(specifier) {
        None => Set::empty(),
        Some(base) => {
            let types = types_package_name(base);
            match kind {
                ImportKind::TypeOnly => if package.declares(types) {
                    set![types]
                } else {
                    Set::empty()
                },
                ImportKind::Value => if package.declares(types) {
                    set![base, types]
                } else {
                    set![base]
                },
            }
        },
    }
}

/// What using `name` amounts to: `name` itself and, where its installed
/// manifest is at hand, each of its peer and optional dependencies that the
/// project declares.
pub open spec fn promoted(name: Seq<char>, package: Package, installed: InstalledModules) -> Set<
    Seq<char>,
> {
    Set::new(
        |d: Seq<char>|
            d == name || (installed@.contains_key(name) && package.declares(d) && (
            installed@[name].peer_dependencies@.contains_key(d)
                || installed@[name].optional_dependencies@.contains_key(d))),
    )
}

/// Whether a name stays in the result: it is no module of the runtime, and
/// no bin package where those are to be ignored.
pub open spec fn survives(
    name: Seq<char>,
    ignore_bin_package: bool,
    installed: InstalledModules,
) -> bool {
    !is_core_module_name(name) && !(ignore_bin_package && installed.is_bin(name))
}

/// The package names that one import counts as using.
pub open spec fn classified(
    specifier: Seq<char>,
    kind: ImportKind,
    package: Package,
    ignore_bin_package: bool,
    installed: InstalledModules,
) -> Set<Seq<char>> {
    Set::new(
        |d: Seq<char>|
            survives(d, ignore_bin_package, installed) && exists|root: Seq<char>|
                #[trigger] attributable(specifier, kind, package).contains(root) && promoted(
                    root,
                    package,
                    installed,
                ).contains(d),
    )
}

/// An ordinary import of a package counts as using that package and each
/// of its peer dependencies that the project declares, as long as neither is
/// a module of the runtime or an ignored bin package.
pub proof fn lemma_peer_is_promoted(
    specifier: Seq<char>,
    package: Package,
    ignore_bin_package: bool,
    installed: InstalledModules,
    host: Seq<char>,
    peer: Seq<char>,
)
    requires
        package_name(specifier) == Some(host),
        package.dependencies@.contains_key(host),
        package.dependencies@.contains_key(peer),
        installed@.contains_key(host),
        installed@[host].peer_dependencies@.contains_key(peer),
        survives(host, ignore_bin_package, installed),
        survives(peer, ignore_bin_package, installed),
    ensures
        classified(specifier, ImportKind::Value, package, ignore_bin_package, installed).contains(
            host,
        ),
        classified(specifier, ImportKind::Value, package, ignore_bin_package, installed).contains(
            peer,
        ),
{
    let roots = attributable(specifier, ImportKind::Value, package);
    assert(roots.contains(host));
    assert(promoted(host, package, installed).contains(host));
    assert(promoted(host, package, installed).contains(peer));
}

/// An ordinary import of a package counts as using each of its optional
/// dependencies that the project declares, as long as that is no module of
/// the runtime and no ignored bin package.
pub proof fn lemma_optional_is_promoted(
    specifier: Seq<char>,
    package: Package,
    ignore_bin_package: bool,
    installed: InstalledModules,
    host: Seq<char>,
    optional: Seq<char>,
)
    requires
        package_name(specifier) == Some(host),
        package.declares(optional),
        installed@.contains_key(host),
        installed@[host].optional_dependencies@.contains_key(optional),
        survives(optional, ignore_bin_package, installed),
    ensures
        classified(specifier, ImportKind::Value, package, ignore_bin_package, installed).contains(
            optional,
        ),
{
    let roots = attributable(specifier, ImportKind::Value, package);
    assert(roots.contains(host));
    assert(promoted(host, package, installed).contains(optional));
}

/// A specifier that names no package counts as using nothing, and so does
/// a type-only import whose types package the project does not declare.
pub proof fn lemma_nothing_attributed(
    specifier: Seq<char>,
    kind: ImportKind,
    package: Package,
    ignore_bin_package: bool,
    installed: InstalledModules,
)
    requires
        package_name(specifier) is None || (kind == ImportKind::TypeOnly && !package.declares(
            types_package_name(package_name(specifier)->0),
        )),
    ensures
        classified(specifier, kind, package, ignore_bin_package, installed) == Set::<
            Seq<char>,
        >::empty(),
{
    assert(classified(specifier, kind, package, ignore_bin_package, installed) =~= Set::<
        Seq<char>,
    >::empty());
}

/// No module of the runtime is ever counted as used, and no bin package
/// where those are ignored.
pub proof fn lemma_classified_survives(
    specifier: Seq<char>,
    kind: ImportKind,
    package: Package,
    ignore_bin_package: bool,
    installed: InstalledModules,
    name: Seq<char>,
)
    requires
        classified(specifier, kind, package, ignore_bin_package, installed).contains(name),
    ensures
        !is_core_module_name(name),
        ignore_bin_package ==> !installed.is_bin(name),
{
}

/// The names of `table` that the project declares and that stay in the
/// result.
pub open spec fn declared_survivors(
    table: DepsSet,
    package: Package,
    ignore_bin_package: bool,
    installed: InstalledModules,
) -> Set<Seq<char>> {
    Set::new(
        |d: Seq<char>|
            table@.contains_key(d) && package.declares(d) && survives(
                d,
                ignore_bin_package,
                installed,
            ),
    )
}

/// The names that using `name` amounts to and that stay in the result.
pub open spec fn promoted_survivors(
    name: Seq<char>,
    package: Package,
    ignore_bin_package: bool,
    installed: InstalledModules,
) -> Set<Seq<char>> {
    Set::new(
        |d: Seq<char>|
            promoted(name, package, installed).contains(d) && survives(
                d,
                ignore_bin_package,
                installed,
            ),
    )
}

/// Adds `name` to `out` if it stays in the result.
fn keep(out: &mut NameSet, name: &str, ignore_bin_package: bool, installed: &InstalledModules)
    ensures
        final(out)@ == if survives(name@, ignore_bin_package, *installed) {
            old(out)@.insert(name@)
        } else {
            old(out)@
        },
{
    if is_core_module(name) {
        return ;
    }
    if ignore_bin_package && is_bin_dependency(installed, name) {
        return ;
    }
    out.insert(name.to_owned());
}

/// Adds to `out` every name of `table` that the project declares and that
/// stays in the result.
fn keep_declared(
    out: &mut NameSet,
    table: &DepsSet,
    package: &Package,
    ignore_bin_package: bool,
    installed: &InstalledModules,
)
    ensures
        final(out)@ == old(out)@.union(
            declared_survivors(*table, *package, ignore_bin_package, *installed),
        ),
{
    let ghost start = out@;
    let ghost keys = table.key_seq();
    proof {
        use_type_invariant(table);
        table.lemma_view();
    }
    let mut i: usize = 0;
    while i < table.len()
        invariant
            keys == table.key_seq(),
            table@.dom() == keys.to_set(),
            i <= keys.len(),
            out@ == start.union(
                Set::new(
                    |d: Seq<char>|
                        keys.take(i as int).contains(d) && package.declares(d) && survives(
                            d,
                            ignore_bin_package,
                            *installed,
                        ),
                ),
            ),
        decreases keys.len() - i,
    {
        let key = table.key_at(i);
        let ghost before = out@;
        if package.is_declared(key.as_str()) {
            keep(out, key.as_str(), ignore_bin_package, installed);
        }
        proof {
            lemma_take_next(keys, i as int);
            let next = Set::new(
                |d: Seq<char>|
                    keys.take(i + 1).contains(d) && package.declares(d) && survives(
                        d,
                        ignore_bin_package,
                        *installed,
                    ),
            );
            let prev = Set::new(
                |d: Seq<char>|
                    keys.take(i as int).contains(d) && package.declares(d) && survives(
                        d,
                        ignore_bin_package,
                        *installed,
                    ),
            );
            assert(before == start.union(prev));
            assert(key@ == keys[i as int]);
            assert forall|d: Seq<char>| out@.contains(d) <==> start.union(next).contains(d) by {
                assert(keys.take(i + 1).contains(d) <==> (keys.take(i as int).contains(d) || d
                    == keys[i as int]));
                assert(next.contains(d) <==> (prev.contains(d) || (d == key@ && package.declares(d)
                    && survives(d, ignore_bin_package, *installed))));
                assert(before.contains(d) <==> (start.contains(d) || prev.contains(d)));
            }
            assert(out@ =~= start.union(next));
        }
        i += 1;
    }
    proof {
        assert(keys.take(i as int) =~= keys);
        assert forall|d: Seq<char>| keys.contains(d) <==> table@.contains_key(d) by {
            assert(keys.to_set().contains(d) <==> keys.contains(d));
            assert(table@.dom().contains(d) <==> table@.contains_key(d));
        }
        assert(out@ =~= start.union(
            declared_survivors(*table, *package, ignore_bin_package, *installed),
        ));
    }
}

/// Adds to `out` what using `name` amounts to, as far as it stays in the
/// result.
fn keep_promoted(
    out: &mut NameSet,
    name: &str,
    package: &Package,
    ignore_bin_package: bool,
    installed: &InstalledModules,
)
    ensures
        final(out)@ == old(out)@.union(
            promoted_survivors(name@, *package, ignore_bin_package, *installed),
        ),
{
    let ghost start = out@;
    keep(out, name, ignore_bin_package, installed);
    match installed.get(name) {
        Some(module) => {
            keep_declared(out, &module.peer_dependencies, package, ignore_bin_package, installed);
            keep_declared(
                out,
                &module.optional_dependencies,
                package,
                ignore_bin_package,
                installed,
            );
        },
        None => {},
    }
    assert(out@ =~= start.union(
        promoted_survivors(name@, *package, ignore_bin_package, *installed),
    ));
}

impl Dependency {
    /// A specifier with the way it is imported.
    pub fn new(specifier: String, kind: ImportKind) -> (dependency: Dependency)
        ensures
            dependency.specifier == specifier,
            dependency.kind == kind,
    {
        Dependency { specifier, kind }
    }

    /// Whether the specifier names something outside the project.
    pub fn is_external(&self) -> (b: bool)
        ensures
            b == is_external_specifier(self.specifier@),
    {
        is_external(self.specifier.as_str())
    }

    /// The package names that this import counts as using, given the
    /// project's manifest, the settings and the manifests of the installed
    /// packages.
    pub fn extract_dependencies(
        &self,
        package: &Package,
        config: &Config,
        installed: &InstalledModules,
    ) -> (names: NameSet)
        ensures
            names@ == classified(
                self.specifier@,
                self.kind,
                *package,
                config@.ignore_bin_package,
                *installed,
            ),
    {
        let ignore_bin_package = config.ignore_bin_package();
        let mut names = NameSet::new();
        match extract_package_name(self.specifier.as_str()) {
            None => {},
            Some(base) => {
                let types = extract_type_name(base.as_str());
                let declared = package.is_declared(types.as_str());
                match self.kind {
                    ImportKind::TypeOnly => {
                        if declared {
                            keep_promoted(
                                &mut names,
                                types.as_str(),
                                package,
                                ignore_bin_package,
                                installed,
                            );
                        }
                    },
                    ImportKind::Value => {
                        keep_promoted(
                            &mut names,
                            base.as_str(),
                            package,
                            ignore_bin_package,
                            installed,
                        );
                        if declared {
                            keep_promoted(
                                &mut names,
                                types.as_str(),
                                package,
                                ignore_bin_package,
                                installed,
                            );
                        }
                    },
                }
            },
        }
        proof {
            let roots = attributable(self.specifier@, self.kind, *package);
            let goal = classified(
                self.specifier@,
                self.kind,
                *package,
                ignore_bin_package,
                *installed,
            );
            assert forall|d: Seq<char>| names@.contains(d) <==> goal.contains(d) by {
                if names@.contains(d) {
                    match package_name(self.specifier@) {
                        None => {},
                        Some(base) => {
                            let types = types_package_name(base);
                            if promoted_survivors(
                                base,
                                *package,
                                ignore_bin_package,
                                *installed,
                            ).contains(d) && self.kind == ImportKind::Value {
                                assert(roots.contains(base));
                            } else {
                                assert(roots.contains(types));
                            }
                        },
                    }
                }
                if goal.contains(d) {
                    let root = choose|root: Seq<char>| #[trigger]
                        roots.contains(root) && promoted(root, *package, *installed).contains(d);
                    assert(promoted_survivors(
                        root,
                        *package,
                        ignore_bin_package,
                        *installed,
                    ).contains(d));
                }
            }
            assert(names@ =~= goal);
        }
        names
    }
}

} // verus!
