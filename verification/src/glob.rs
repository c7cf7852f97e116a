//! Glob matching of dependency names, done by the `globset` crate.
//!
//! Nothing in this file is proved: each item states what `globset` is
//! trusted to do. What a pattern means is left to `globset`; the library
//! only relies on a set matching a name exactly when one of its patterns
//! does.

use vstd::prelude::*;
use globset::{Error, Glob, GlobSet, GlobSetBuilder};

verus! {

/// `globset::GlobSet`, a compiled set of patterns.
#[verifier::external_type_specification]
#[verifier::external_body]
pub struct ExGlobSet(GlobSet);

/// `globset::GlobSetBuilder`, the patterns gathered for a set.
#[verifier::external_type_specification]
#[verifier::external_body]
pub struct ExGlobSetBuilder(GlobSetBuilder);

/// `globset::Error`, why a pattern or a set was refused.
#[verifier::external_type_specification]
#[verifier::external_body]
pub struct ExGlobError(Error);

/// Whether `Glob::new` accepts the pattern.
pub uninterp spec fn glob_parses(pattern: Seq<char>) -> bool;

/// The patterns that a builder holds, in the order in which they were added.
pub uninterp spec fn builder_patterns(builder: GlobSetBuilder) -> Seq<Seq<char>>;

/// Whether `GlobSetBuilder::build` succeeds on these patterns.
pub uninterp spec fn glob_set_builds(patterns: Seq<Seq<char>>) -> bool;

/// The patterns that a compiled set was built from.
pub uninterp spec fn glob_set_patterns(set: GlobSet) -> Seq<Seq<char>>;

/// Whether the single pattern matches the name.
pub uninterp spec fn glob_matches(pattern: Seq<char>, name: Seq<char>) -> bool;

/// Whether some pattern of the sequence matches the name.
pub open spec fn any_glob_matches(patterns: Seq<Seq<char>>, name: Seq<char>) -> bool {
    exists|i: int| 0 <= i < patterns.len() && glob_matches(#[trigger] patterns[i], name)
}

/// Calls `GlobSetBuilder::new`, which makes a builder without patterns.
#[verifier::external_body]
pub(crate) fn new_builder() -> (builder: GlobSetBuilder)
    ensures
        builder_patterns(builder) == Seq::<Seq<char>>::empty(),
{
    GlobSetBuilder::new()
}

/// Parses the pattern with `Glob::new`, with the default options, and hands
/// the glob to `GlobSetBuilder::add`. It succeeds exactly on the patterns
/// that `glob_parses` names; an accepted pattern joins the builder's
/// patterns, a refused one leaves the builder as it was.
#[verifier::external_body]
pub(crate) fn add_glob(builder: &mut GlobSetBuilder, pattern: &str) -> (r: Result<(), Error>)
    ensures
        r is Ok <==> glob_parses(pattern@),
        builder_patterns(*final(builder)) == if r is Ok {
            builder_patterns(*old(builder)).push(pattern@)
        } else {
            builder_patterns(*old(builder))
        },
{
    builder.add(Glob::new(pattern)?);
    Ok(())
}

/// Calls `GlobSetBuilder::build`, which compiles the builder's patterns into
/// a set. It succeeds exactly where `glob_set_builds` says so, which it does
/// for a builder without patterns, and the set is made of the builder's
/// patterns.
#[verifier::external_body]
pub(crate) fn build_glob_set(builder: &GlobSetBuilder) -> (r: Result<GlobSet, Error>)
    ensures
        r is Ok <==> glob_set_builds(builder_patterns(*builder)),
        builder_patterns(*builder).len() == 0 ==> r is Ok,
        r is Ok ==> glob_set_patterns(r->Ok_0) == builder_patterns(*builder),
{
    builder.build()
}

/// Calls `GlobSet::is_match`, which is true exactly when some glob of the
/// set matches the name.
#[verifier::external_body]
pub(crate) fn glob_set_is_match(set: &GlobSet, name: &str) -> (b: bool)
    ensures
        b == (exists|i: int|
            0 <= i < glob_set_patterns(*set).len() && glob_matches(
                #[trigger] glob_set_patterns(*set)[i],
                name@,
            )),
{
    set.is_match(name)
}

} // verus!
