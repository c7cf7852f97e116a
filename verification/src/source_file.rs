//! A source file as the check takes it: its path and the specifiers that it
//! imports.

use vstd::prelude::*;
use vstd::string::StrSliceExecFns;
use swc_ecma_dep_graph::DependencyKind;
use swc_ecma_parser::Syntax;
use crate::dependency::Dependency;
use crate::parser::{found_views, import_views, imports_as, syntax_of, Parser};
use crate::text::{after_last, chars_of, last_index};

verus! {

/// A source file of the project: its path relative to the project root,
/// with forward slashes, and the specifiers that it imports.
#[derive(Debug)]
pub struct SourceFile {
    pub path: String,
    pub imports: Vec<Dependency>,
}

/// The name of the file at a path: what follows the last `/`.
pub open spec fn file_name_of(path: Seq<char>) -> Seq<char> {
    path.subrange(last_index(path, '/', path.len() as int) + 1, path.len() as int)
}

impl SourceFile {
    /// The syntax to read the file at `path` with, by its name; `None` for
    /// a file that is no source file.
    pub fn syntax_for(path: &str) -> (syntax: Option<Syntax>)
        ensures
            syntax == syntax_of(file_name_of(path@)),
    {
        let cs = chars_of(path);
        let start = after_last(&cs, '/');
        Parser::new().syntax_for(path.substring_char(start, cs.len()))
    }

    /// The source file at `path`, read in the given syntax, from the
    /// dependencies found in it.
    pub fn new(path: String, syntax: &Syntax, found: &Vec<(String, DependencyKind)>) -> (file:
        SourceFile)
        ensures
            file.path == path,
            import_views(file.imports@) == imports_as(*syntax, found_views(found@)),
    {
        SourceFile { path, imports: Parser::new().imports_from(syntax, found) }
    }
}

} // verus!
