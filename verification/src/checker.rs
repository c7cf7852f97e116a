//! The check itself: every import of every source file is classified, the
//! names are gathered into the usage map, and the verdict is derived from
//! it.
//!
//! Reading the project from disk is the caller's part. The checker works on
//! what was read: the manifest, the manifests of the installed packages,
//! and the source files with the specifiers found in them.

use vstd::prelude::*;
use crate::checker_result::{is_ordered, is_verdict, matched_names, CheckerResult};
use crate::config::{is_refusal, is_usable, Config, ConfigError};
use crate::dependency::{classified, Dependency};
use crate::installed::InstalledModules;
use crate::name_set::{lemma_take_next, strictly_sorted, NameSet};
use crate::package::Package;
use crate::source_file::SourceFile;
use crate::usage::{merged, UsageMap};

verus! {

/// Dependencies checker.
#[derive(Debug)]
pub struct Checker {
    config: Config,
}

/// The package names that the imports of one file count as using.
pub open spec fn file_uses(
    imports: Seq<Dependency>,
    package: Package,
    ignore_bin_package: bool,
    installed: InstalledModules,
) -> Set<Seq<char>> {
    Set::new(
        |d: Seq<char>|
            exists|j: int|
                0 <= j < imports.len() && classified(
                    (#[trigger] imports[j]).specifier@,
                    imports[j].kind,
                    package,
                    ignore_bin_package,
                    installed,
                ).contains(d),
    )
}

/// Whether `file` uses `dependency`.
pub open spec fn uses(
    file: SourceFile,
    dependency: Seq<char>,
    package: Package,
    ignore_bin_package: bool,
    installed: InstalledModules,
) -> bool {
    file_uses(file.imports@, package, ignore_bin_package, installed).contains(dependency)
}

/// The usage map of a set of files: a name has an entry when some file uses
/// it, and the entry holds the paths of the files that do.
pub open spec fn usage_of(
    files: Seq<SourceFile>,
    package: Package,
    ignore_bin_package: bool,
    installed: InstalledModules,
) -> Map<Seq<char>, Set<Seq<char>>> {
    Map::new(
        |d: Seq<char>|
            exists|i: int|
                0 <= i < files.len() && uses(
                    #[trigger] files[i],
                    d,
                    package,
                    ignore_bin_package,
                    installed,
                ),
        |d: Seq<char>|
            Set::new(
                |path: Seq<char>|
                    exists|i: int|
                        0 <= i < files.len() && (#[trigger] files[i]).path@ == path && uses(
                            files[i],
                            d,
                            package,
                            ignore_bin_package,
                            installed,
                        ),
            ),
    )
}

/// The usage map depends on which files there are, not on the order in
/// which they are listed nor on how often one is listed: two listings that
/// hold the same files give the same usage map.
pub proof fn lemma_usage_ignores_order_and_repeats(
    first: Seq<SourceFile>,
    second: Seq<SourceFile>,
    package: Package,
    ignore_bin_package: bool,
    installed: InstalledModules,
)
    requires
        forall|file: SourceFile| first.contains(file) <==> second.contains(file),
    ensures
        usage_of(first, package, ignore_bin_package, installed) == usage_of(
            second,
            package,
            ignore_bin_package,
            installed,
        ),
{
    lemma_usage_covers(first, second, package, ignore_bin_package, installed);
    lemma_usage_covers(second, first, package, ignore_bin_package, installed);
    let a = usage_of(first, package, ignore_bin_package, installed);
    let b = usage_of(second, package, ignore_bin_package, installed);
    assert forall|d: Seq<char>| a.contains_key(d) implies #[trigger] a[d] =~= b[d] by {}
    assert(a =~= b);
}

/// Where every file of `first` is among those of `second`, each entry of the
/// usage map of `first` is covered by that of `second`.
proof fn lemma_usage_covers(
    first: Seq<SourceFile>,
    second: Seq<SourceFile>,
    package: Package,
    ignore_bin_package: bool,
    installed: InstalledModules,
)
    requires
        forall|file: SourceFile| first.contains(file) ==> second.contains(file),
    ensures
        forall|d: Seq<char>| #[trigger]
            usage_of(first, package, ignore_bin_package, installed).contains_key(d) ==> usage_of(
                second,
                package,
                ignore_bin_package,
                installed,
            ).contains_key(d),
        forall|d: Seq<char>, path: Seq<char>|
            usage_of(first, package, ignore_bin_package, installed).contains_key(d) && (
            #[trigger] usage_of(first, package, ignore_bin_package, installed)[d].contains(path))
                ==> usage_of(second, package, ignore_bin_package, installed)[d].contains(path),
{
    let a = usage_of(first, package, ignore_bin_package, installed);
    let b = usage_of(second, package, ignore_bin_package, installed);
    assert forall|d: Seq<char>| #[trigger] a.contains_key(d) implies b.contains_key(d) by {
        let i = choose|i: int|
            0 <= i < first.len() && uses(
                #[trigger] first[i],
                d,
                package,
                ignore_bin_package,
                installed,
            );
        assert(first.contains(first[i]));
        let k = second.index_of(first[i]);
        assert(uses(second[k], d, package, ignore_bin_package, installed));
    }
    assert forall|d: Seq<char>, path: Seq<char>|
        a.contains_key(d) && (#[trigger] a[d].contains(path)) implies b[d].contains(path) by {
        let i = choose|i: int|
            0 <= i < first.len() && (#[trigger] first[i]).path@ == path && uses(
                first[i],
                d,
                package,
                ignore_bin_package,
                installed,
            );
        assert(first.contains(first[i]));
        let k = second.index_of(first[i]);
        assert(second[k].path@ == path && uses(
            second[k],
            d,
            package,
            ignore_bin_package,
            installed,
        ));
    }
}

/// Listing one more file merges what that file uses into the usage map.
pub proof fn lemma_usage_of_push(
    files: Seq<SourceFile>,
    file: SourceFile,
    package: Package,
    ignore_bin_package: bool,
    installed: InstalledModules,
)
    ensures
        usage_of(files.push(file), package, ignore_bin_package, installed) == merged(
            usage_of(files, package, ignore_bin_package, installed),
            file.path@,
            file_uses(file.imports@, package, ignore_bin_package, installed),
        ),
{
    let all = files.push(file);
    let left = usage_of(all, package, ignore_bin_package, installed);
    let before = usage_of(files, package, ignore_bin_package, installed);
    let right = merged(
        before,
        file.path@,
        file_uses(file.imports@, package, ignore_bin_package, installed),
    );
    assert forall|d: Seq<char>| left.contains_key(d) <==> right.contains_key(d) by {
        if left.contains_key(d) {
            let i = choose|i: int|
                0 <= i < all.len() && uses(
                    #[trigger] all[i],
                    d,
                    package,
                    ignore_bin_package,
                    installed,
                );
            if i < files.len() {
                assert(uses(files[i], d, package, ignore_bin_package, installed));
            }
        }
        if before.contains_key(d) {
            let i = choose|i: int|
                0 <= i < files.len() && uses(
                    #[trigger] files[i],
                    d,
                    package,
                    ignore_bin_package,
                    installed,
                );
            assert(uses(all[i], d, package, ignore_bin_package, installed));
        }
        if uses(file, d, package, ignore_bin_package, installed) {
            assert(uses(all[files.len() as int], d, package, ignore_bin_package, installed));
        }
    }
    assert forall|d: Seq<char>| left.contains_key(d) implies #[trigger] left[d] =~= right[d] by {
        assert forall|path: Seq<char>| left[d].contains(path) <==> right[d].contains(path) by {
            if left[d].contains(path) {
                let i = choose|i: int|
                    0 <= i < all.len() && (#[trigger] all[i]).path@ == path && uses(
                        all[i],
                        d,
                        package,
                        ignore_bin_package,
                        installed,
                    );
                if i < files.len() {
                    assert(files[i].path@ == path && uses(
                        files[i],
                        d,
                        package,
                        ignore_bin_package,
                        installed,
                    ));
                }
            }
            if right[d].contains(path) {
                if before.contains_key(d) && before[d].contains(path) {
                    let i = choose|i: int|
                        0 <= i < files.len() && (#[trigger] files[i]).path@ == path && uses(
                            files[i],
                            d,
                            package,
                            ignore_bin_package,
                            installed,
                        );
                    assert(all[i].path@ == path && uses(
                        all[i],
                        d,
                        package,
                        ignore_bin_package,
                        installed,
                    ));
                } else {
                    assert(all[files.len() as int].path@ == path && uses(
                        all[files.len() as int],
                        d,
                        package,
                        ignore_bin_package,
                        installed,
                    ));
                }
            }
        }
    }
    assert(left =~= right);
}

impl Checker {
    /// A checker with the given settings.
    pub fn new(config: Config) -> (checker: Checker)
        ensures
            checker.config() == config,
    {
        Checker { config }
    }

    /// The settings of the checker.
    pub closed spec fn config(&self) -> Config {
        self.config
    }

    /// Replaces the settings of the checker.
    pub fn with_options(self, options: Config) -> (checker: Checker)
        ensures
            checker.config() == options,
    {
        let mut checker = self;
        checker.config = options;
        checker
    }

    /// The settings of the checker.
    pub fn get_config(&self) -> (config: &Config)
        ensures
            *config == self.config(),
    {
        &self.config
    }

    /// The package names that one file counts as using: what each of its
    /// imports counts as using, taken together.
    pub fn check_file(
        &self,
        file: &SourceFile,
        package: &Package,
        installed: &InstalledModules,
    ) -> (names: NameSet)
        ensures
            names@ == file_uses(
                file.imports@,
                *package,
                self.config()@.ignore_bin_package,
                *installed,
            ),
    {
        let ghost ignore_bin_package = self.config()@.ignore_bin_package;
        let mut names = NameSet::new();
        let mut j: usize = 0;
        while j < file.imports.len()
            invariant
                j <= file.imports.len(),
                ignore_bin_package == self.config()@.ignore_bin_package,
                names@ == file_uses(
                    file.imports@.take(j as int),
                    *package,
                    ignore_bin_package,
                    *installed,
                ),
            decreases file.imports.len() - j,
        {
            let found = file.imports[j].extract_dependencies(package, &self.config, installed);
            let ghost before = names@;
            let mut k: usize = 0;
            while k < found.len()
                invariant
                    k <= found.seq().len(),
                    names@ == before.union(found.seq().take(k as int).to_set()),
                decreases found.seq().len() - k,
            {
                proof {
                    lemma_take_next(found.seq(), k as int);
                }
                names.insert(found.get(k).clone());
                assert(names@ =~= before.union(found.seq().take(k + 1).to_set()));
                k += 1;
            }
            proof {
                assert(found.seq().take(k as int) =~= found.seq());
                found.lemma_view_is_seq();
                let imports = file.imports@;
                let next = file_uses(
                    imports.take(j + 1),
                    *package,
                    ignore_bin_package,
                    *installed,
                );
                assert forall|d: Seq<char>| names@.contains(d) <==> next.contains(d) by {
                    if before.contains(d) {
                        let x = choose|x: int|
                            0 <= x < imports.take(j as int).len() && classified(
                                (#[trigger] imports.take(j as int)[x]).specifier@,
                                imports.take(j as int)[x].kind,
                                *package,
                                ignore_bin_package,
                                *installed,
                            ).contains(d);
                        assert(imports.take(j + 1)[x] == imports[x]);
                    }
                    if found@.contains(d) {
                        assert(imports.take(j + 1)[j as int] == imports[j as int]);
                    }
                    if next.contains(d) {
                        let x = choose|x: int|
                            0 <= x < imports.take(j + 1).len() && classified(
                                (#[trigger] imports.take(j + 1)[x]).specifier@,
                                imports.take(j + 1)[x].kind,
                                *package,
                                ignore_bin_package,
                                *installed,
                            ).contains(d);
                        if x < j {
                            assert(imports.take(j as int)[x] == imports[x]);
                        }
                    }
                }
                assert(names@ =~= next);
            }
            j += 1;
        }
        proof {
            assert(file.imports@.take(j as int) =~= file.imports@);
        }
        names
    }

    /// The usage map of the given files. Its names stand in ascending
    /// order, whatever the order of the files.
    pub fn check_directory(
        &self,
        package: &Package,
        installed: &InstalledModules,
        files: &Vec<SourceFile>,
    ) -> (usage: UsageMap)
        ensures
            strictly_sorted(usage.names()),
            usage@ == usage_of(
                files@,
                *package,
                self.config()@.ignore_bin_package,
                *installed,
            ),
    {
        let ghost ignore_bin_package = self.config()@.ignore_bin_package;
        let mut usage = UsageMap::new();
        proof {
            assert(usage@ =~= usage_of(
                files@.take(0),
                *package,
                ignore_bin_package,
                *installed,
            ));
        }
        let mut i: usize = 0;
        while i < files.len()
            invariant
                i <= files.len(),
                ignore_bin_package == self.config()@.ignore_bin_package,
                usage@ == usage_of(
                    files@.take(i as int),
                    *package,
                    ignore_bin_package,
                    *installed,
                ),
            decreases files.len() - i,
        {
            let names = self.check_file(&files[i], package, installed);
            usage.record_file(files[i].path.as_str(), &names);
            proof {
                assert(files@.take(i + 1) =~= files@.take(i as int).push(files@[i as int]));
                lemma_usage_of_push(
                    files@.take(i as int),
                    files@[i as int],
                    *package,
                    ignore_bin_package,
                    *installed,
                );
            }
            i += 1;
        }
        proof {
            assert(files@.take(i as int) =~= files@);
            use_type_invariant(&usage);
        }
        usage
    }

    /// Checks the project: gathers the usage map of the given files and
    /// derives the verdict from it.
    ///
    /// Fails, before any file is looked at, where the settings cannot be
    /// used: where a pattern for files to skip or a pattern for dependency
    /// names is malformed, or where the patterns of one list cannot be
    /// compiled together. The error is the one that `Config::validate`
    /// reports.
    pub fn check_package(
        self,
        package: Package,
        installed: &InstalledModules,
        files: &Vec<SourceFile>,
    ) -> (r: Result<CheckerResult, ConfigError>)
        ensures
            self.config()@.ignore_patterns.len() == 0 && self.config()@.ignore_matches.len() == 0
                ==> r is Ok,
            match r {
                Ok(result) => {
                    &&& is_usable(self.config()@)
                    &&& is_ordered(result)
                    &&& is_verdict(
                        result,
                        usage_of(
                            files@,
                            package,
                            self.config()@.ignore_bin_package,
                            *installed,
                        ),
                        package,
                        self.config()@.skip_missing,
                        matched_names(self.config()@.ignore_matches),
                        self.config()@.ignore_bin_package,
                        *installed,
                    )
                },
                Err(error) => is_refusal(error, self.config()@),
            },
    {
        match self.config.get_overrides() {
            Ok(_) => {},
            Err(error) => {
                return Err(error);
            },
        }
        let matcher = match self.config.get_ignore_matches() {
            Ok(matcher) => matcher,
            Err(error) => {
                return Err(error);
            },
        };
        let using_dependencies = self.check_directory(&package, installed, files);
        let result = CheckerResult::with_matcher(
            using_dependencies,
            package,
            &self.config,
            &matcher,
            installed,
        );
        Ok(result)
    }
}

} // verus!
