//! Which installed packages a check can ask about.
//!
//! A check consults the manifest of an installed package only for the names
//! that the project declares and for the packages that its files import,
//! with their types packages. The manifests of all other packages are
//! without influence on the result, so loading those of the consulted names
//! is enough.

use vstd::prelude::*;
use crate::checker::{usage_of, uses};
use crate::checker_result::{missing_of, unused_of};
use crate::dependency::{attributable, classified, promoted, survives, Dependency, ImportKind};
use crate::installed::InstalledModules;
use crate::name_set::{lemma_take_next, name_views, NameSet};
use crate::package::Package;
use crate::source_file::SourceFile;
use crate::specifier::{extract_package_name, extract_type_name, package_name, types_package_name};

verus! {

/// The names that one import may ask the installed packages about: the
/// package that the specifier names, and its types package.
pub open spec fn import_names(specifier: Seq<char>) -> Set<Seq<char>> {
    match package_name(specifier) {
        None => Set::empty(),
        Some(base) => set![base, types_package_name(base)],
    }
}

/// The names that the imports of one file may ask the installed packages
/// about.
pub open spec fn file_names(imports: Seq<Dependency>) -> Set<Seq<char>> {
    Set::new(
        |name: Seq<char>|
            exists|j: int|
                0 <= j < imports.len() && import_names((#[trigger] imports[j]).specifier@).contains(
                    name,
                ),
    )
}

/// The names whose installed manifests a check of these files can consult:
/// every name that the project declares, and for every import the package
/// it names and that package's types package.
pub open spec fn consulted(files: Seq<SourceFile>, package: Package) -> Set<Seq<char>> {
    Set::new(
        |name: Seq<char>|
            package.declares(name) || exists|i: int|
                0 <= i < files.len() && file_names((#[trigger] files[i]).imports@).contains(name),
    )
}

/// Two stores hold the same manifest, or none, for each of the names.
pub open spec fn agree_on(
    first: InstalledModules,
    second: InstalledModules,
    names: Set<Seq<char>>,
) -> bool {
    forall|name: Seq<char>| #[trigger]
        names.contains(name) ==> (first@.contains_key(name) <==> second@.contains_key(name)) && (
        first@.contains_key(name) ==> first@[name] == second@[name])
}

/// What one import counts as using depends on the installed manifests of
/// the names it may ask about and of the names that the project declares,
/// and on no other.
pub proof fn lemma_classified_reads_locally(
    specifier: Seq<char>,
    kind: ImportKind,
    package: Package,
    ignore_bin_package: bool,
    first: InstalledModules,
    second: InstalledModules,
    names: Set<Seq<char>>,
)
    requires
        agree_on(first, second, names),
        forall|name: Seq<char>| package.declares(name) ==> names.contains(name),
        forall|name: Seq<char>| import_names(specifier).contains(name) ==> names.contains(name),
    ensures
        classified(specifier, kind, package, ignore_bin_package, first) == classified(
            specifier,
            kind,
            package,
            ignore_bin_package,
            second,
        ),
{
    lemma_classified_covered(specifier, kind, package, ignore_bin_package, first, second, names);
    lemma_classified_covered(specifier, kind, package, ignore_bin_package, second, first, names);
    assert(classified(specifier, kind, package, ignore_bin_package, first) =~= classified(
        specifier,
        kind,
        package,
        ignore_bin_package,
        second,
    ));
}

/// One half of `lemma_classified_reads_locally`: what the import counts as
/// using with the first store, it counts as using with the second.
proof fn lemma_classified_covered(
    specifier: Seq<char>,
    kind: ImportKind,
    package: Package,
    ignore_bin_package: bool,
    first: InstalledModules,
    second: InstalledModules,
    names: Set<Seq<char>>,
)
    requires
        agree_on(first, second, names) || agree_on(second, first, names),
        forall|name: Seq<char>| package.declares(name) ==> names.contains(name),
        forall|name: Seq<char>| import_names(specifier).contains(name) ==> names.contains(name),
    ensures
        forall|d: Seq<char>|
            classified(specifier, kind, package, ignore_bin_package, first).contains(d)
                ==> classified(specifier, kind, package, ignore_bin_package, second).contains(d),
{
    let roots = attributable(specifier, kind, package);
    assert forall|d: Seq<char>|
        classified(specifier, kind, package, ignore_bin_package, first).contains(
            d,
        ) implies classified(specifier, kind, package, ignore_bin_package, second).contains(d) by {
        let root = choose|root: Seq<char>| #[trigger]
            roots.contains(root) && promoted(root, package, first).contains(d);
        assert(import_names(specifier).contains(root));
        assert(names.contains(root));
        assert(promoted(root, package, second).contains(d));
        assert(d == root || package.declares(d));
        assert(names.contains(d));
        assert(survives(d, ignore_bin_package, second));
    }
}

/// The usage map of a set of files depends on the installed manifests of
/// the consulted names alone: two stores that agree on them give the same
/// usage map.
pub proof fn lemma_usage_reads_consulted_manifests(
    files: Seq<SourceFile>,
    package: Package,
    ignore_bin_package: bool,
    first: InstalledModules,
    second: InstalledModules,
)
    requires
        agree_on(first, second, consulted(files, package)),
    ensures
        usage_of(files, package, ignore_bin_package, first) == usage_of(
            files,
            package,
            ignore_bin_package,
            second,
        ),
{
    let names = consulted(files, package);
    assert forall|i: int, d: Seq<char>| 0 <= i < files.len() implies (uses(
        #[trigger] files[i],
        d,
        package,
        ignore_bin_package,
        first,
    ) <==> #[trigger] uses(files[i], d, package, ignore_bin_package, second)) by {
        let imports = files[i].imports@;
        assert forall|j: int| 0 <= j < imports.len() implies classified(
            (#[trigger] imports[j]).specifier@,
            imports[j].kind,
            package,
            ignore_bin_package,
            first,
        ) == classified(
            imports[j].specifier@,
            imports[j].kind,
            package,
            ignore_bin_package,
            second,
        ) by {
            assert forall|name: Seq<char>|
                import_names(imports[j].specifier@).contains(name) implies names.contains(
                name,
            ) by {
                assert(file_names(files[i].imports@).contains(name));
            }
            lemma_classified_reads_locally(
                imports[j].specifier@,
                imports[j].kind,
                package,
                ignore_bin_package,
                first,
                second,
                names,
            );
        }
    }
    let a = usage_of(files, package, ignore_bin_package, first);
    let b = usage_of(files, package, ignore_bin_package, second);
    assert forall|d: Seq<char>| a.contains_key(d) <==> b.contains_key(d) by {
        if a.contains_key(d) {
            let i = choose|i: int|
                0 <= i < files.len() && uses(
                    #[trigger] files[i],
                    d,
                    package,
                    ignore_bin_package,
                    first,
                );
            assert(uses(files[i], d, package, ignore_bin_package, second));
        }
        if b.contains_key(d) {
            let i = choose|i: int|
                0 <= i < files.len() && uses(
                    #[trigger] files[i],
                    d,
                    package,
                    ignore_bin_package,
                    second,
                );
            assert(uses(files[i], d, package, ignore_bin_package, first));
        }
    }
    assert forall|d: Seq<char>| a.contains_key(d) implies #[trigger] a[d] =~= b[d] by {
        assert forall|path: Seq<char>| a[d].contains(path) <==> b[d].contains(path) by {
            if a[d].contains(path) {
                let i = choose|i: int|
                    0 <= i < files.len() && (#[trigger] files[i]).path@ == path && uses(
                        files[i],
                        d,
                        package,
                        ignore_bin_package,
                        first,
                    );
                assert(uses(files[i], d, package, ignore_bin_package, second));
            }
            if b[d].contains(path) {
                let i = choose|i: int|
                    0 <= i < files.len() && (#[trigger] files[i]).path@ == path && uses(
                        files[i],
                        d,
                        package,
                        ignore_bin_package,
                        second,
                    );
                assert(uses(files[i], d, package, ignore_bin_package, first));
            }
        }
    }
    assert(a =~= b);
}

/// Every name in use is a consulted name.
pub proof fn lemma_used_names_are_consulted(
    files: Seq<SourceFile>,
    package: Package,
    ignore_bin_package: bool,
    installed: InstalledModules,
    name: Seq<char>,
)
    requires
        usage_of(files, package, ignore_bin_package, installed).contains_key(name),
    ensures
        consulted(files, package).contains(name),
{
    let i = choose|i: int|
        0 <= i < files.len() && uses(
            #[trigger] files[i],
            name,
            package,
            ignore_bin_package,
            installed,
        );
    let imports = files[i].imports@;
    let j = choose|j: int|
        0 <= j < imports.len() && classified(
            (#[trigger] imports[j]).specifier@,
            imports[j].kind,
            package,
            ignore_bin_package,
            installed,
        ).contains(name);
    let roots = attributable(imports[j].specifier@, imports[j].kind, package);
    let root = choose|root: Seq<char>| #[trigger]
        roots.contains(root) && promoted(root, package, installed).contains(name);
    if name == root {
        assert(import_names(imports[j].specifier@).contains(name));
        assert(file_names(files[i].imports@).contains(name));
    }
}

/// The missing and unused names of a check depend on the installed
/// manifests of the consulted names alone.
pub proof fn lemma_report_reads_consulted_manifests(
    files: Seq<SourceFile>,
    package: Package,
    skip_missing: bool,
    ignored: Set<Seq<char>>,
    ignore_bin_package: bool,
    first: InstalledModules,
    second: InstalledModules,
)
    requires
        agree_on(first, second, consulted(files, package)),
    ensures
        missing_of(
            usage_of(files, package, ignore_bin_package, first),
            package,
            skip_missing,
            ignored,
            ignore_bin_package,
            first,
        ) == missing_of(
            usage_of(files, package, ignore_bin_package, second),
            package,
            skip_missing,
            ignored,
            ignore_bin_package,
            second,
        ),
        unused_of(
            package.dependencies,
            usage_of(files, package, ignore_bin_package, first),
            ignored,
            ignore_bin_package,
            first,
        ) == unused_of(
            package.dependencies,
            usage_of(files, package, ignore_bin_package, second),
            ignored,
            ignore_bin_package,
            second,
        ),
        unused_of(
            package.dev_dependencies,
            usage_of(files, package, ignore_bin_package, first),
            ignored,
            ignore_bin_package,
            first,
        ) == unused_of(
            package.dev_dependencies,
            usage_of(files, package, ignore_bin_package, second),
            ignored,
            ignore_bin_package,
            second,
        ),
{
    lemma_usage_reads_consulted_manifests(files, package, ignore_bin_package, first, second);
    let usage = usage_of(files, package, ignore_bin_package, first);
    let names = consulted(files, package);
    assert forall|name: Seq<char>| usage.contains_key(name) implies names.contains(name) by {
        lemma_used_names_are_consulted(files, package, ignore_bin_package, first, name);
    }
    assert(missing_of(usage, package, skip_missing, ignored, ignore_bin_package, first)
        =~= missing_of(usage, package, skip_missing, ignored, ignore_bin_package, second));
    assert forall|name: Seq<char>| package.declares(name) implies (first.is_bin(name)
        <==> second.is_bin(name)) by {
        assert(names.contains(name));
    }
    assert forall|name: Seq<char>|
        unused_of(package.dependencies, usage, ignored, ignore_bin_package, first).contains(name)
            <==> unused_of(
            package.dependencies,
            usage,
            ignored,
            ignore_bin_package,
            second,
        ).contains(name) by {
        if package.dependencies@.contains_key(name) {
            assert(package.declares(name));
        }
    }
    assert forall|name: Seq<char>|
        unused_of(package.dev_dependencies, usage, ignored, ignore_bin_package, first).contains(
            name,
        ) <==> unused_of(
            package.dev_dependencies,
            usage,
            ignored,
            ignore_bin_package,
            second,
        ).contains(name) by {
        if package.dev_dependencies@.contains_key(name) {
            assert(package.declares(name));
        }
    }
    assert(unused_of(package.dependencies, usage, ignored, ignore_bin_package, first)
        =~= unused_of(package.dependencies, usage, ignored, ignore_bin_package, second));
    assert(unused_of(package.dev_dependencies, usage, ignored, ignore_bin_package, first)
        =~= unused_of(package.dev_dependencies, usage, ignored, ignore_bin_package, second));
}

/// Adds to `names` every name of the sequence.
fn add_all(names: &mut NameSet, more: &Vec<String>)
    ensures
        final(names)@ == old(names)@.union(name_views(more@).to_set()),
{
    let ghost start = names@;
    let ghost all = name_views(more@);
    let mut i: usize = 0;
    while i < more.len()
        invariant
            i <= more.len(),
            all == name_views(more@),
            names@ == start.union(all.take(i as int).to_set()),
        decreases more.len() - i,
    {
        proof {
            lemma_take_next(all, i as int);
        }
        names.insert(more[i].clone());
        assert(names@ =~= start.union(all.take(i + 1).to_set()));
        i += 1;
    }
    proof {
        assert(all.take(i as int) =~= all);
    }
}

/// The names whose installed manifests a check of these files can consult.
/// Loading the manifests of these names, as far as they are installed, is
/// enough for the check.
pub fn consulted_names(package: &Package, files: &Vec<SourceFile>) -> (names: NameSet)
    ensures
        names@ == consulted(files@, *package),
{
    let mut names = NameSet::new();
    let declared = package.dependencies.keys();
    let declared_dev = package.dev_dependencies.keys();
    add_all(&mut names, &declared);
    add_all(&mut names, &declared_dev);
    proof {
        use_type_invariant(&package.dependencies);
        use_type_invariant(&package.dev_dependencies);
        package.dependencies.lemma_view();
        package.dev_dependencies.lemma_view();
        assert forall|name: Seq<char>| names@.contains(name) <==> package.declares(name) by {
            assert(package.dependencies@.dom().contains(name)
                <==> package.dependencies.key_seq().contains(name));
            assert(package.dev_dependencies@.dom().contains(name)
                <==> package.dev_dependencies.key_seq().contains(name));
        }
        assert(names@ =~= consulted(files@.take(0), *package));
    }
    let mut i: usize = 0;
    while i < files.len()
        invariant
            i <= files.len(),
            names@ == consulted(files@.take(i as int), *package),
        decreases files.len() - i,
    {
        let ghost before = names@;
        let imports = &files[i].imports;
        let mut j: usize = 0;
        while j < imports.len()
            invariant
                j <= imports.len(),
                names@ == before.union(file_names(imports@.take(j as int))),
            decreases imports.len() - j,
        {
            let ghost prev = names@;
            match extract_package_name(imports[j].specifier.as_str()) {
                None => {},
                Some(base) => {
                    let types = extract_type_name(base.as_str());
                    names.insert(base);
                    names.insert(types);
                },
            }
            proof {
                let taken = imports@.take(j + 1);
                assert(names@ =~= prev.union(import_names(imports@[j as int].specifier@)));
                assert forall|name: Seq<char>| file_names(taken).contains(name) <==> (file_names(
                    imports@.take(j as int),
                ).contains(name) || import_names(imports@[j as int].specifier@).contains(
                    name,
                )) by {
                    if file_names(taken).contains(name) {
                        let x = choose|x: int|
                            0 <= x < taken.len() && import_names(
                                (#[trigger] taken[x]).specifier@,
                            ).contains(name);
                        if x < j {
                            assert(imports@.take(j as int)[x] == taken[x]);
                        }
                    }
                    if file_names(imports@.take(j as int)).contains(name) {
                        let x = choose|x: int|
                            0 <= x < imports@.take(j as int).len() && import_names(
                                (#[trigger] imports@.take(j as int)[x]).specifier@,
                            ).contains(name);
                        assert(taken[x] == imports@.take(j as int)[x]);
                    }
                    if import_names(imports@[j as int].specifier@).contains(name) {
                        assert(taken[j as int] == imports@[j as int]);
                    }
                }
                assert(names@ =~= before.union(file_names(taken)));
            }
            j += 1;
        }
        proof {
            assert(imports@.take(j as int) =~= imports@);
            let taken = files@.take(i + 1);
            assert forall|name: Seq<char>| names@.contains(name) <==> consulted(
                taken,
                *package,
            ).contains(name) by {
                if before.contains(name) && !package.declares(name) {
                    let x = choose|x: int|
                        0 <= x < files@.take(i as int).len() && file_names(
                            (#[trigger] files@.take(i as int)[x]).imports@,
                        ).contains(name);
                    assert(taken[x] == files@.take(i as int)[x]);
                }
                if file_names(imports@).contains(name) {
                    assert(taken[i as int] == files@[i as int]);
                }
                if consulted(taken, *package).contains(name) && !package.declares(name) {
                    let x = choose|x: int|
                        0 <= x < taken.len() && file_names((#[trigger] taken[x]).imports@).contains(
                            name,
                        );
                    if x < i {
                        assert(files@.take(i as int)[x] == taken[x]);
                    }
                }
            }
            assert(names@ =~= consulted(taken, *package));
        }
        i += 1;
    }
    proof {
        assert(files@.take(i as int) =~= files@);
    }
    names
}

} // verus!
