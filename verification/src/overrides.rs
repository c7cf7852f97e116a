//! The matcher that keeps paths out of a walk, built by the `ignore` crate.
//!
//! Nothing in this file is proved: each item states what `ignore` is trusted
//! to do. What a line means for a path is left to `ignore`; the library only
//! relies on which lines a matcher was built from.

use vstd::prelude::*;
use ignore::overrides::{Override, OverrideBuilder};
use ignore::Error;

verus! {

/// `ignore::overrides::Override`, a compiled set of override lines.
#[verifier::external_type_specification]
#[verifier::external_body]
pub struct ExOverride(Override);

/// `ignore::overrides::OverrideBuilder`, the lines gathered for a matcher.
#[verifier::external_type_specification]
#[verifier::external_body]
pub struct ExOverrideBuilder(OverrideBuilder);

/// `ignore::Error`, why a line or a matcher was refused.
#[verifier::external_type_specification]
#[verifier::external_body]
pub struct ExIgnoreError(Error);

/// Whether `OverrideBuilder::add` accepts the line.
pub uninterp spec fn override_parses(line: Seq<char>) -> bool;

/// The lines that a builder holds, in the order in which they were added,
/// each as the builder keeps it.
pub uninterp spec fn builder_lines(builder: OverrideBuilder) -> Seq<Seq<char>>;

/// Whether `OverrideBuilder::build` succeeds on these lines.
pub uninterp spec fn override_builds(lines: Seq<Seq<char>>) -> bool;

/// The lines that a matcher was built from.
pub uninterp spec fn override_lines(matcher: Override) -> Seq<Seq<char>>;

/// The characters that count as white space at the end of a line: those
/// with the Unicode property `White_Space`.
pub open spec fn is_white_space(c: char) -> bool {
    ||| '\u{9}' <= c <= '\u{d}'
    ||| c == ' '
    ||| c == '\u{85}'
    ||| c == '\u{a0}'
    ||| c == '\u{1680}'
    ||| '\u{2000}' <= c <= '\u{200a}'
    ||| c == '\u{2028}'
    ||| c == '\u{2029}'
    ||| c == '\u{202f}'
    ||| c == '\u{205f}'
    ||| c == '\u{3000}'
}

/// The line without the white space at its end.
pub open spec fn trimmed_end(line: Seq<char>) -> Seq<char>
    decreases line.len(),
{
    if line.len() > 0 && is_white_space(line.last()) {
        trimmed_end(line.drop_last())
    } else {
        line
    }
}

/// The line ends in a backslash and a blank.
pub open spec fn ends_in_escaped_blank(line: Seq<char>) -> bool {
    line.len() >= 2 && line[line.len() - 2] == '\\' && line[line.len() - 1] == ' '
}

/// What a builder keeps of a line. A line that begins with `#` is a comment
/// and a line of white space is blank: of those it keeps nothing. Of any
/// other line it keeps the text without the white space at its end, and the
/// whole text where the line ends in a backslash and a blank.
pub open spec fn kept_line(line: Seq<char>) -> Option<Seq<char>> {
    let text = if ends_in_escaped_blank(line) {
        line
    } else {
        trimmed_end(line)
    };
    if (line.len() > 0 && line[0] == '#') || text.len() == 0 {
        None
    } else {
        Some(text)
    }
}

/// Calls `OverrideBuilder::new`, which makes a builder without lines for
/// matching relative to `directory`.
#[verifier::external_body]
pub(crate) fn new_override_builder(directory: &str) -> (builder: OverrideBuilder)
    ensures
        builder_lines(builder) == Seq::<Seq<char>>::empty(),
{
    OverrideBuilder::new(directory)
}

/// Calls `OverrideBuilder::add`, which parses the line as one line of a
/// gitignore file with the meaning of `!` inverted. It succeeds exactly on
/// the lines that `override_parses` names, among them every comment and
/// every blank line. What `kept_line` gives for an accepted line joins the
/// builder's lines; a comment, a blank line and a refused line leave the
/// builder as it was.
#[verifier::external_body]
pub(crate) fn add_override(builder: &mut OverrideBuilder, line: &str) -> (r: Result<(), Error>)
    ensures
        r is Ok <==> override_parses(line@),
        kept_line(line@) is None ==> r is Ok,
        builder_lines(*final(builder)) == if r is Ok && kept_line(line@) is Some {
            builder_lines(*old(builder)).push(kept_line(line@)->0)
        } else {
            builder_lines(*old(builder))
        },
{
    builder.add(line).map(|_| ())
}

/// Calls `OverrideBuilder::build`, which compiles the builder's lines into a
/// matcher. It succeeds exactly where `override_builds` says so, which it
/// does for a builder without lines, and the matcher is made of the
/// builder's lines.
#[verifier::external_body]
pub(crate) fn build_override(builder: &OverrideBuilder) -> (r: Result<Override, Error>)
    ensures
        r is Ok <==> override_builds(builder_lines(*builder)),
        builder_lines(*builder).len() == 0 ==> r is Ok,
        r is Ok ==> override_lines(r->Ok_0) == builder_lines(*builder),
{
    builder.build()
}

} // verus!
