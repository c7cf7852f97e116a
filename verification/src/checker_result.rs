//! The verdict of a check: what is used, what is missing from the manifest,
//! and what the manifest declares without need.

use vstd::prelude::*;
use crate::config::{all_globs_parse, is_first_malformed, Config, ConfigError};
use crate::glob::{
    any_glob_matches, glob_set_builds, glob_set_is_match, glob_set_patterns,
};
use crate::installed::{is_bin_dependency, InstalledModules};
use crate::name_set::{lemma_take_next, name_views, strictly_sorted, NameSet};
use crate::package::{DepsSet, Package};
use crate::usage::UsageMap;
use globset::GlobSet;

verus! {

/// Dependencies checker result.
#[derive(Debug)]
pub struct CheckerResult {
    /// Using dependencies in directory. Key is dependency and value is
    /// unique file paths.
    pub using_dependencies: UsageMap,
    /// Missing dependencies in directory. Key is dependency and value is
    /// unique file paths.
    pub missing_dependencies: UsageMap,
    /// Unique unused dependencies.
    pub unused_dependencies: NameSet,
    /// Unique unused dev dependencies.
    pub unused_dev_dependencies: NameSet,
}

/// The result of a check: another name for `CheckerResult`.
pub type CheckResult = CheckerResult;

/// Whether a name is kept out of the judgement, being among the ignored
/// names or a bin package where those are to be ignored.
pub open spec fn is_excluded(
    name: Seq<char>,
    ignored: Set<Seq<char>>,
    ignore_bin_package: bool,
    installed: InstalledModules,
) -> bool {
    ignored.contains(name) || (ignore_bin_package && installed.is_bin(name))
}

/// A name is missing when some file uses it, none of the four tables that
/// satisfy an import lists it, and it is not left out of the verdict.
pub open spec fn is_missing(
    name: Seq<char>,
    usage: Map<Seq<char>, Set<Seq<char>>>,
    package: Package,
    ignored: Set<Seq<char>>,
    ignore_bin_package: bool,
    installed: InstalledModules,
) -> bool {
    &&& usage.contains_key(name)
    &&& !package.satisfies(name)
    &&& !is_excluded(name, ignored, ignore_bin_package, installed)
}

/// The missing dependencies, each with the files that use it; none at all
/// where the calculation is skipped.
pub open spec fn missing_of(
    usage: Map<Seq<char>, Set<Seq<char>>>,
    package: Package,
    skip_missing: bool,
    ignored: Set<Seq<char>>,
    ignore_bin_package: bool,
    installed: InstalledModules,
) -> Map<Seq<char>, Set<Seq<char>>> {
    Map::new(
        |name: Seq<char>|
            !skip_missing && is_missing(
                name,
                usage,
                package,
                ignored,
                ignore_bin_package,
                installed,
            ),
        |name: Seq<char>| usage[name],
    )
}

/// The names of a dependency table that no file uses and that are not left
/// out of the verdict.
pub open spec fn unused_of(
    table: DepsSet,
    usage: Map<Seq<char>, Set<Seq<char>>>,
    ignored: Set<Seq<char>>,
    ignore_bin_package: bool,
    installed: InstalledModules,
) -> Set<Seq<char>> {
    Set::new(
        |name: Seq<char>|
            table@.contains_key(name) && !usage.contains_key(name) && !is_excluded(
                name,
                ignored,
                ignore_bin_package,
                installed,
            ),
    )
}

/// The names that some pattern of the sequence matches.
pub open spec fn matched_names(patterns: Seq<Seq<char>>) -> Set<Seq<char>> {
    Set::new(|name: Seq<char>| any_glob_matches(patterns, name))
}

/// Whether everything in `result` stands in ascending order: the names of
/// both usage maps and the names of both sets. This holds of every result
/// that a check gives.
pub open spec fn is_ordered(result: CheckerResult) -> bool {
    &&& strictly_sorted(result.using_dependencies.names())
    &&& strictly_sorted(result.missing_dependencies.names())
    &&& strictly_sorted(result.unused_dependencies.seq())
    &&& strictly_sorted(result.unused_dev_dependencies.seq())
}

/// Whether `result` is the verdict on `usage` for a project with manifest
/// `package`, where `ignored` are the names to leave out.
pub open spec fn is_verdict(
    result: CheckerResult,
    usage: Map<Seq<char>, Set<Seq<char>>>,
    package: Package,
    skip_missing: bool,
    ignored: Set<Seq<char>>,
    ignore_bin_package: bool,
    installed: InstalledModules,
) -> bool {
    &&& result.using_dependencies@ == usage
    &&& result.missing_dependencies@ == missing_of(
        usage,
        package,
        skip_missing,
        ignored,
        ignore_bin_package,
        installed,
    )
    &&& result.unused_dependencies@ == unused_of(
        package.dependencies,
        usage,
        ignored,
        ignore_bin_package,
        installed,
    )
    &&& result.unused_dev_dependencies@ == unused_of(
        package.dev_dependencies,
        usage,
        ignored,
        ignore_bin_package,
        installed,
    )
}

/// The verdict looks at the ignored names only among the names in use and
/// the names that the two judged tables list: two sets of ignored names that
/// agree there give the same verdict.
pub proof fn lemma_verdict_reads_ignored_locally(
    result: CheckerResult,
    usage: Map<Seq<char>, Set<Seq<char>>>,
    package: Package,
    skip_missing: bool,
    ignored1: Set<Seq<char>>,
    ignored2: Set<Seq<char>>,
    ignore_bin_package: bool,
    installed: InstalledModules,
)
    requires
        is_verdict(result, usage, package, skip_missing, ignored1, ignore_bin_package, installed),
        forall|name: Seq<char>|
            usage.contains_key(name) || package.dependencies@.contains_key(name)
                || package.dev_dependencies@.contains_key(name) ==> (ignored1.contains(name)
                <==> ignored2.contains(name)),
    ensures
        is_verdict(result, usage, package, skip_missing, ignored2, ignore_bin_package, installed),
{
    assert(missing_of(usage, package, skip_missing, ignored1, ignore_bin_package, installed)
        =~= missing_of(usage, package, skip_missing, ignored2, ignore_bin_package, installed));
    assert(unused_of(package.dependencies, usage, ignored1, ignore_bin_package, installed)
        =~= unused_of(package.dependencies, usage, ignored2, ignore_bin_package, installed));
    assert(unused_of(package.dev_dependencies, usage, ignored1, ignore_bin_package, installed)
        =~= unused_of(package.dev_dependencies, usage, ignored2, ignore_bin_package, installed));
}

/// Where bin packages are ignored, an installed package that offers an
/// executable is never reported: not as unused, whether or not a file
/// imports it, and not as missing.
pub proof fn lemma_bin_package_is_never_reported(
    result: CheckerResult,
    usage: Map<Seq<char>, Set<Seq<char>>>,
    package: Package,
    skip_missing: bool,
    ignored: Set<Seq<char>>,
    installed: InstalledModules,
    name: Seq<char>,
)
    requires
        is_verdict(result, usage, package, skip_missing, ignored, true, installed),
        installed.is_bin(name),
    ensures
        !result.unused_dependencies@.contains(name),
        !result.unused_dev_dependencies@.contains(name),
        !result.missing_dependencies@.contains_key(name),
{
}

/// Where the calculation of missing dependencies is skipped, none is
/// reported, whatever the files import.
pub proof fn lemma_skip_missing_reports_none(
    result: CheckerResult,
    usage: Map<Seq<char>, Set<Seq<char>>>,
    package: Package,
    ignored: Set<Seq<char>>,
    ignore_bin_package: bool,
    installed: InstalledModules,
)
    requires
        is_verdict(result, usage, package, true, ignored, ignore_bin_package, installed),
    ensures
        result.missing_dependencies@ == Map::<Seq<char>, Set<Seq<char>>>::empty(),
{
    assert(result.missing_dependencies@ =~= Map::<Seq<char>, Set<Seq<char>>>::empty());
}

/// A name that the patterns match is never reported, neither as unused
/// nor as missing.
pub proof fn lemma_ignored_name_is_never_reported(
    result: CheckerResult,
    usage: Map<Seq<char>, Set<Seq<char>>>,
    package: Package,
    skip_missing: bool,
    ignored: Set<Seq<char>>,
    ignore_bin_package: bool,
    installed: InstalledModules,
    name: Seq<char>,
)
    requires
        is_verdict(result, usage, package, skip_missing, ignored, ignore_bin_package, installed),
        ignored.contains(name),
    ensures
        !result.unused_dependencies@.contains(name),
        !result.unused_dev_dependencies@.contains(name),
        !result.missing_dependencies@.contains_key(name),
{
}

/// No name is reported both as used and as unused, and every missing name
/// is a used one with the same files.
pub proof fn lemma_report_is_consistent(
    result: CheckerResult,
    usage: Map<Seq<char>, Set<Seq<char>>>,
    package: Package,
    skip_missing: bool,
    ignored: Set<Seq<char>>,
    ignore_bin_package: bool,
    installed: InstalledModules,
    name: Seq<char>,
)
    requires
        is_verdict(result, usage, package, skip_missing, ignored, ignore_bin_package, installed),
    ensures
        result.unused_dependencies@.contains(name) ==> !result.using_dependencies@.contains_key(
            name,
        ) && package.dependencies@.contains_key(name),
        result.unused_dev_dependencies@.contains(name)
            ==> !result.using_dependencies@.contains_key(name)
            && package.dev_dependencies@.contains_key(name),
        result.missing_dependencies@.contains_key(name)
            ==> result.using_dependencies@.contains_key(name) && result.missing_dependencies@[name]
            == result.using_dependencies@[name] && !package.satisfies(name),
{
}

/// Collects the names of `table` that no file uses and that are not left
/// out of the verdict.
fn unused_in(
    table: &DepsSet,
    usage: &UsageMap,
    ignored: &NameSet,
    ignore_bin_package: bool,
    installed: &InstalledModules,
) -> (unused: NameSet)
    ensures
        unused@ == unused_of(*table, usage@, ignored@, ignore_bin_package, *installed),
{
    let mut unused = NameSet::new();
    let ghost keys = table.key_seq();
    proof {
        use_type_invariant(table);
        table.lemma_view();
    }
    let mut i: usize = 0;
    while i < table.len()
        invariant
            keys == table.key_seq(),
            i <= keys.len(),
            unused@ == Set::new(
                |name: Seq<char>|
                    keys.take(i as int).contains(name) && !usage@.contains_key(name)
                        && !is_excluded(name, ignored@, ignore_bin_package, *installed),
            ),
        decreases keys.len() - i,
    {
        let name = table.key_at(i);
        let ghost before = unused@;
        if !ignored.contains(name.as_str()) && !usage.contains_key(name.as_str()) && !(
        ignore_bin_package && is_bin_dependency(installed, name.as_str())) {
            unused.insert(name.clone());
        }
        proof {
            lemma_take_next(keys, i as int);
            assert forall|d: Seq<char>| unused@.contains(d) <==> (keys.take(i + 1).contains(d)
                && !usage@.contains_key(d) && !is_excluded(
                d,
                ignored@,
                ignore_bin_package,
                *installed,
            )) by {
                assert(keys.take(i + 1).contains(d) <==> (keys.take(i as int).contains(d) || d
                    == keys[i as int]));
                assert(before.contains(d) <==> (keys.take(i as int).contains(d)
                    && !usage@.contains_key(d) && !is_excluded(
                    d,
                    ignored@,
                    ignore_bin_package,
                    *installed,
                )));
            }
            assert(unused@ =~= Set::new(
                |name: Seq<char>|
                    keys.take(i + 1).contains(name) && !usage@.contains_key(name)
                        && !is_excluded(name, ignored@, ignore_bin_package, *installed),
            ));
        }
        i += 1;
    }
    proof {
        assert(keys.take(i as int) =~= keys);
        assert forall|d: Seq<char>| keys.contains(d) <==> table@.contains_key(d) by {
            assert(keys.to_set().contains(d) <==> keys.contains(d));
            assert(table@.dom().contains(d) <==> table@.contains_key(d));
        }
        assert(unused@ =~= unused_of(*table, usage@, ignored@, ignore_bin_package, *installed));
    }
    unused
}

/// Collects the names in use that the manifest does not satisfy and that
/// are not left out of the verdict, each with its files.
fn missing_in(
    usage: &UsageMap,
    package: &Package,
    ignored: &NameSet,
    ignore_bin_package: bool,
    installed: &InstalledModules,
) -> (missing: UsageMap)
    ensures
        missing@ == missing_of(usage@, *package, false, ignored@, ignore_bin_package, *installed),
{
    let mut missing = UsageMap::new();
    let ghost names = usage.names();
    proof {
        use_type_invariant(usage);
        usage.lemma_names();
    }
    let mut i: usize = 0;
    while i < usage.len()
        invariant
            names == usage.names(),
            i <= names.len(),
            missing@ == Map::new(
                |name: Seq<char>|
                    names.take(i as int).contains(name) && is_missing(
                        name,
                        usage@,
                        *package,
                        ignored@,
                        ignore_bin_package,
                        *installed,
                    ),
                |name: Seq<char>| usage@[name],
            ),
        decreases names.len() - i,
    {
        let name = usage.name_at(i);
        let ghost before = missing@;
        let report = !ignored.contains(name.as_str()) && !package.is_any_dependency(
            name.as_str(),
        ) && !(ignore_bin_package && is_bin_dependency(installed, name.as_str()));
        if report {
            missing.put(name.clone(), usage.files_at(i).clone());
        }
        proof {
            lemma_take_next(names, i as int);
            let next = Map::new(
                |name: Seq<char>|
                    names.take(i + 1).contains(name) && is_missing(
                        name,
                        usage@,
                        *package,
                        ignored@,
                        ignore_bin_package,
                        *installed,
                    ),
                |name: Seq<char>| usage@[name],
            );
            assert forall|d: Seq<char>| missing@.contains_key(d) <==> next.contains_key(d) by {
                assert(names.take(i + 1).contains(d) <==> (names.take(i as int).contains(d) || d
                    == names[i as int]));
                assert(before.contains_key(d) <==> (names.take(i as int).contains(d)
                    && is_missing(
                    d,
                    usage@,
                    *package,
                    ignored@,
                    ignore_bin_package,
                    *installed,
                )));
            }
            assert(name@ == names[i as int]);
            assert forall|d: Seq<char>| missing@.contains_key(d) implies #[trigger] missing@[d]
                == next[d] by {
                assert(next.contains_key(d));
                assert(next[d] == usage@[d]);
                if report && d == name@ {
                    assert(missing@[d] == usage@[names[i as int]]);
                } else {
                    assert(missing@[d] == before[d]);
                    assert(before.contains_key(d));
                }
            }
            assert(missing@ =~= next);
        }
        i += 1;
    }
    proof {
        assert(names.take(i as int) =~= names);
        assert forall|d: Seq<char>| names.contains(d) <==> usage@.contains_key(d) by {
            assert(names.to_set().contains(d) <==> names.contains(d));
            assert(usage@.dom().contains(d) <==> usage@.contains_key(d));
        }
        assert(missing@ =~= missing_of(
            usage@,
            *package,
            false,
            ignored@,
            ignore_bin_package,
            *installed,
        ));
    }
    missing
}

/// Adds to `ignored` those of `names` that the matcher matches.
fn collect_matched(ignored: &mut NameSet, matcher: &GlobSet, names: &Vec<String>)
    ensures
        final(ignored)@ == old(ignored)@.union(
            Set::new(
                |name: Seq<char>|
                    name_views(names@).contains(name) && any_glob_matches(
                        glob_set_patterns(*matcher),
                        name,
                    ),
            ),
        ),
{
    let ghost start = ignored@;
    let ghost all = name_views(names@);
    let ghost patterns = glob_set_patterns(*matcher);
    let mut i: usize = 0;
    while i < names.len()
        invariant
            i <= names.len(),
            all == name_views(names@),
            patterns == glob_set_patterns(*matcher),
            ignored@ == start.union(
                Set::new(
                    |name: Seq<char>|
                        all.take(i as int).contains(name) && any_glob_matches(patterns, name),
                ),
            ),
        decreases names.len() - i,
    {
        let ghost before = ignored@;
        let matched = glob_set_is_match(matcher, names[i].as_str());
        if matched {
            ignored.insert(names[i].clone());
        }
        proof {
            lemma_take_next(all, i as int);
            let current = all[i as int];
            assert(current == names@[i as int]@);
            assert(matched == any_glob_matches(patterns, current));
            let prev = Set::new(
                |name: Seq<char>|
                    all.take(i as int).contains(name) && any_glob_matches(patterns, name),
            );
            let next = Set::new(
                |name: Seq<char>|
                    all.take(i + 1).contains(name) && any_glob_matches(patterns, name),
            );
            assert forall|d: Seq<char>| ignored@.contains(d) <==> start.union(next).contains(
                d,
            ) by {
                assert(all.take(i + 1).contains(d) <==> (all.take(i as int).contains(d) || d
                    == current));
                assert(before.contains(d) <==> (start.contains(d) || prev.contains(d)));
            }
            assert(ignored@ =~= start.union(next));
        }
        i += 1;
    }
    proof {
        assert(all.take(i as int) =~= all);
    }
}

impl CheckerResult {
    /// The dependencies that files use and the manifest does not satisfy,
    /// each with the files that use it.
    pub fn get_missing_dependencies(&self) -> (missing: &UsageMap)
        ensures
            *missing == self.missing_dependencies,
    {
        &self.missing_dependencies
    }

    /// The names under `dependencies` that no file uses.
    pub fn get_unused_dependencies(&self) -> (unused: &NameSet)
        ensures
            *unused == self.unused_dependencies,
    {
        &self.unused_dependencies
    }

    /// The names under `devDependencies` that no file uses.
    pub fn get_unused_dev_dependencies(&self) -> (unused: &NameSet)
        ensures
            *unused == self.unused_dev_dependencies,
    {
        &self.unused_dev_dependencies
    }

    /// Derives the verdict from the usage map and the manifest, where the
    /// names that the name patterns match are already known.
    ///
    /// `ignored` holds the names to leave out; only its names in use and its
    /// names listed under `dependencies` and `devDependencies` matter. The
    /// other three dependency tables are never judged for unused names.
    pub fn from_parts(
        using_dependencies: UsageMap,
        package: Package,
        config: &Config,
        ignored: &NameSet,
        installed: &InstalledModules,
    ) -> (result: CheckerResult)
        ensures
            is_ordered(result),
            is_verdict(
                result,
                using_dependencies@,
                package,
                config@.skip_missing,
                ignored@,
                config@.ignore_bin_package,
                *installed,
            ),
    {
        let ignore_bin_package = config.ignore_bin_package();
        let missing_dependencies = if config.skip_missing() {
            let none = UsageMap::new();
            assert(none@ =~= missing_of(
                using_dependencies@,
                package,
                true,
                ignored@,
                ignore_bin_package,
                *installed,
            ));
            none
        } else {
            missing_in(&using_dependencies, &package, ignored, ignore_bin_package, installed)
        };
        let unused_dependencies = unused_in(
            &package.dependencies,
            &using_dependencies,
            ignored,
            ignore_bin_package,
            installed,
        );
        let unused_dev_dependencies = unused_in(
            &package.dev_dependencies,
            &using_dependencies,
            ignored,
            ignore_bin_package,
            installed,
        );
        proof {
            use_type_invariant(&using_dependencies);
            use_type_invariant(&missing_dependencies);
            use_type_invariant(&unused_dependencies);
            use_type_invariant(&unused_dev_dependencies);
        }
        CheckerResult {
            using_dependencies,
            missing_dependencies,
            unused_dependencies,
            unused_dev_dependencies,
        }
    }

    /// Derives the verdict where the names to leave out are given by a
    /// compiled matcher.
    pub fn with_matcher(
        using_dependencies: UsageMap,
        package: Package,
        config: &Config,
        matcher: &GlobSet,
        installed: &InstalledModules,
    ) -> (result: CheckerResult)
        ensures
            is_ordered(result),
            is_verdict(
                result,
                using_dependencies@,
                package,
                config@.skip_missing,
                matched_names(glob_set_patterns(*matcher)),
                config@.ignore_bin_package,
                *installed,
            ),
    {
        let mut ignored = NameSet::new();
        let used = using_dependencies.name_list();
        let ghost names = using_dependencies.names();
        let declared = package.dependencies.keys();
        let declared_dev = package.dev_dependencies.keys();
        collect_matched(&mut ignored, matcher, &used);
        collect_matched(&mut ignored, matcher, &declared);
        collect_matched(&mut ignored, matcher, &declared_dev);
        let ghost usage = using_dependencies@;
        let ghost skip_missing = config@.skip_missing;
        let ghost ignore_bin_package = config@.ignore_bin_package;
        proof {
            use_type_invariant(&using_dependencies);
            use_type_invariant(&package.dependencies);
            use_type_invariant(&package.dev_dependencies);
            using_dependencies.lemma_names();
            package.dependencies.lemma_view();
            package.dev_dependencies.lemma_view();
        }
        let result = CheckerResult::from_parts(
            using_dependencies,
            package,
            config,
            &ignored,
            installed,
        );
        proof {
            let matched = matched_names(glob_set_patterns(*matcher));
            assert forall|name: Seq<char>|
                usage.contains_key(name) || package.dependencies@.contains_key(name)
                    || package.dev_dependencies@.contains_key(name) implies (ignored@.contains(
                name,
            ) <==> matched.contains(name)) by {
                assert(usage.dom().contains(name) <==> names.contains(name));
                assert(package.dependencies@.dom().contains(name)
                    <==> package.dependencies.key_seq().contains(name));
                assert(package.dev_dependencies@.dom().contains(name)
                    <==> package.dev_dependencies.key_seq().contains(name));
            }
            lemma_verdict_reads_ignored_locally(
                result,
                usage,
                package,
                skip_missing,
                ignored@,
                matched,
                ignore_bin_package,
                *installed,
            );
        }
        result
    }

    /// Derives the verdict from the usage map, the manifest, the settings
    /// and the manifests of the installed packages.
    ///
    /// Fails, before judging anything, where the settings' name patterns
    /// cannot be compiled: on the first pattern that is no valid glob, or
    /// where the valid patterns cannot be compiled together. Without name
    /// patterns it succeeds.
    pub fn new(
        using_dependencies: UsageMap,
        package: Package,
        config: &Config,
        installed: &InstalledModules,
    ) -> (r: Result<CheckerResult, ConfigError>)
        ensures
            config@.ignore_matches.len() == 0 ==> r is Ok,
            match r {
                Ok(result) => {
                    &&& all_globs_parse(config@.ignore_matches)
                    &&& glob_set_builds(config@.ignore_matches)
                    &&& is_ordered(result)
                    &&& is_verdict(
                        result,
                        using_dependencies@,
                        package,
                        config@.skip_missing,
                        matched_names(config@.ignore_matches),
                        config@.ignore_bin_package,
                        *installed,
                    )
                },
                Err(ConfigError::MalformedPattern(pattern)) => exists|i: int|
                    is_first_malformed(config@.ignore_matches, i) && pattern@
                        == config@.ignore_matches[i],
                Err(ConfigError::UnbuildableMatcher) => {
                    &&& all_globs_parse(config@.ignore_matches)
                    &&& !glob_set_builds(config@.ignore_matches)
                },
                Err(_) => false,
            },
    {
        match config.get_ignore_matches() {
            Ok(matcher) => Ok(
                CheckerResult::with_matcher(
                    using_dependencies,
                    package,
                    config,
                    &matcher,
                    installed,
                ),
            ),
            Err(error) => Err(error),
        }
    }
}

} // verus!
