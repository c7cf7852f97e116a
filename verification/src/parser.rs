//! What is decided about a source file before and after it is parsed.
//!
//! The syntax that a file is read with is decided here, by the file's name,
//! and so is the way each dependency found in it counts as imported. The
//! parsing itself is the caller's part: the parser is known to abort on some
//! texts, and `Parser::refuses` tells those apart that are known here.

use vstd::prelude::*;
use vstd::string::StrSliceExecFns;
use swc_ecma_dep_graph::DependencyKind;
use swc_ecma_parser::{EsConfig, Syntax, TsConfig};
use crate::dependency::{Dependency, ImportKind};
use crate::markup::{has_void_reference, holds_void_reference};
use crate::text::{after_last, chars_of, last_index, same_name};

verus! {

/// `swc_ecma_parser::TsConfig`, the switches of the TypeScript syntax.
#[verifier::external_type_specification]
pub struct ExTsConfig(TsConfig);

/// `swc_ecma_parser::EsConfig`, the switches of the JavaScript syntax.
#[verifier::external_type_specification]
pub struct ExEsConfig(EsConfig);

/// `swc_ecma_parser::Syntax`, the syntax that a text is parsed with.
#[verifier::external_type_specification]
pub struct ExSyntax(Syntax);

/// `swc_ecma_dep_graph::DependencyKind`, the construct that names a
/// dependency.
#[verifier::external_type_specification]
pub struct ExDependencyKind(DependencyKind);

/// Whether a text is read with embedded markup in the given syntax.
pub open spec fn reads_markup(syntax: Syntax) -> bool {
    match syntax {
        Syntax::Es(config) => config.jsx,
        Syntax::Typescript(config) => config.tsx,
    }
}

/// Whether a text is read as a declaration file in the given syntax.
pub open spec fn reads_declarations(syntax: Syntax) -> bool {
    match syntax {
        Syntax::Es(_) => false,
        Syntax::Typescript(config) => config.dts,
    }
}

/// Whether a text can be handed to the parser in the given syntax, as far
/// as is known here. Where markup is read, every numeric character
/// reference must name a character; and the syntax must not be that of
/// declaration files. On other texts the parser is known to abort.
pub open spec fn is_parsable(source: Seq<char>, syntax: Syntax) -> bool {
    &&& reads_markup(syntax) ==> !has_void_reference(source)
    &&& !reads_declarations(syntax)
}

/// What a sequence of found dependencies holds, as plain values.
pub open spec fn found_views(found: Seq<(String, DependencyKind)>) -> Seq<
    (Seq<char>, DependencyKind),
> {
    Seq::new(found.len(), |i: int| (found[i].0@, found[i].1))
}

/// Decides how source files are read.
#[derive(Debug)]
pub struct Parser {}

/// The extension of a file name: what follows its last `.`, where that dot
/// is not the first character. The name `..` has no extension.
pub open spec fn extension_of(name: Seq<char>) -> Option<Seq<char>> {
    let dot = last_index(name, '.', name.len() as int);
    if name == seq!['.', '.'] || dot <= 0 {
        None
    } else {
        Some(name.subrange(dot + 1, name.len() as int))
    }
}

/// The TypeScript syntax as source files are read with it: decorators are
/// allowed, early errors are left unreported, and no file is read as a
/// declaration file.
pub open spec fn typescript_syntax(tsx: bool) -> Syntax {
    Syntax::Typescript(
        TsConfig {
            tsx,
            decorators: true,
            dts: false,
            no_early_errors: true,
            disallow_ambiguous_jsx_like: false,
        },
    )
}

/// The JavaScript syntax as source files are read with it: embedded markup,
/// function binding, decorators, `export default from`, import attributes
/// and `super` outside of methods are allowed.
pub open spec fn es_syntax() -> Syntax {
    Syntax::Es(
        EsConfig {
            jsx: true,
            fn_bind: true,
            decorators: true,
            decorators_before_export: true,
            export_default_from: true,
            import_attributes: true,
            allow_super_outside_method: true,
            allow_return_outside_function: false,
            auto_accessors: false,
            explicit_resource_management: false,
        },
    )
}

/// The syntax for a file of the given name, by its extension: TypeScript
/// for `ts` and `tsx`, JavaScript for `js` and `jsx`, none for any other
/// file. A declaration file, `.d.ts`, is read like any TypeScript file.
pub open spec fn syntax_of(name: Seq<char>) -> Option<Syntax> {
    match extension_of(name) {
        None => None,
        Some(extension) => if extension == "ts"@ {
            Some(typescript_syntax(false))
        } else if extension == "tsx"@ {
            Some(typescript_syntax(true))
        } else if extension == "js"@ || extension == "jsx"@ {
            Some(es_syntax())
        } else {
            None
        },
    }
}

/// The way a specifier counts as imported: as types only where the file is
/// TypeScript and the construct is an import of types, as a value otherwise.
pub open spec fn import_kind_of(syntax: Syntax, kind: DependencyKind) -> ImportKind {
    if syntax is Typescript && kind is ImportType {
        ImportKind::TypeOnly
    } else {
        ImportKind::Value
    }
}

/// The imports of a source file, as the classifier takes them: each found
/// dependency, in the order in which it was found, with the way it counts
/// as imported in the file's syntax.
pub open spec fn imports_as(syntax: Syntax, found: Seq<(Seq<char>, DependencyKind)>) -> Seq<
    (Seq<char>, ImportKind),
> {
    Seq::new(found.len(), |i: int| (found[i].0, import_kind_of(syntax, found[i].1)))
}

/// What a sequence of imports holds, as plain values.
pub open spec fn import_views(imports: Seq<Dependency>) -> Seq<(Seq<char>, ImportKind)> {
    Seq::new(imports.len(), |i: int| (imports[i].specifier@, imports[i].kind))
}

/// The extension of a file name, if it has one.
pub fn file_extension(file_name: &str) -> (extension: Option<String>)
    ensures
        extension is Some <==> extension_of(file_name@) is Some,
        extension is Some ==> extension->0@ == extension_of(file_name@)->0,
{
    let cs = chars_of(file_name);
    let end = after_last(&cs, '.');
    if end <= 1 {
        return None;
    }
    if cs.len() == 2 && cs[0] == '.' && cs[1] == '.' {
        assert(cs@ =~= seq!['.', '.']);
        return None;
    }
    proof {
        if cs@ == seq!['.', '.'] {
            assert(cs@.len() == 2 && cs@[0] == '.' && cs@[1] == '.');
        }
    }
    Some(file_name.substring_char(end, cs.len()).to_owned())
}

/// The way a specifier found in a file of the given syntax counts as
/// imported.
pub fn import_kind(syntax: &Syntax, kind: &DependencyKind) -> (r: ImportKind)
    ensures
        r == import_kind_of(*syntax, *kind),
{
    match (syntax, kind) {
        (Syntax::Typescript(_), DependencyKind::ImportType) => ImportKind::TypeOnly,
        _ => ImportKind::Value,
    }
}

impl Parser {
    /// A parser with the default settings.
    pub fn new() -> (parser: Parser)
        ensures
            parser == (Parser {  }),
    {
        Parser {  }
    }

    /// The syntax to read the file of the given name with; `None` for a
    /// file that is no source file.
    pub fn syntax_for(&self, file_name: &str) -> (syntax: Option<Syntax>)
        ensures
            syntax == syntax_of(file_name@),
    {
        match file_extension(file_name) {
            None => None,
            Some(extension) => {
                if same_name(extension.as_str(), "ts") {
                    Some(
                        Syntax::Typescript(
                            TsConfig {
                                tsx: false,
                                decorators: true,
                                dts: false,
                                no_early_errors: true,
                                disallow_ambiguous_jsx_like: false,
                            },
                        ),
                    )
                } else if same_name(extension.as_str(), "tsx") {
                    Some(
                        Syntax::Typescript(
                            TsConfig {
                                tsx: true,
                                decorators: true,
                                dts: false,
                                no_early_errors: true,
                                disallow_ambiguous_jsx_like: false,
                            },
                        ),
                    )
                } else if same_name(extension.as_str(), "js") || same_name(
                    extension.as_str(),
                    "jsx",
                ) {
                    Some(
                        Syntax::Es(
                            EsConfig {
                                jsx: true,
                                fn_bind: true,
                                decorators: true,
                                decorators_before_export: true,
                                export_default_from: true,
                                import_attributes: true,
                                allow_super_outside_method: true,
                                allow_return_outside_function: false,
                                auto_accessors: false,
                                explicit_resource_management: false,
                            },
                        ),
                    )
                } else {
                    None
                }
            },
        }
    }

    /// Whether a text must not be handed to the parser in the given
    /// syntax, because the parser is known to abort on it. A file with such
    /// a text counts as one that does not parse.
    pub fn refuses(&self, syntax: &Syntax, source: &str) -> (r: bool)
        ensures
            r == !is_parsable(source@, *syntax),
    {
        match syntax {
            Syntax::Es(config) => config.jsx && holds_void_reference(source),
            Syntax::Typescript(config) => config.dts || (config.tsx && holds_void_reference(
                source,
            )),
        }
    }

    /// The imports of a file read in the given syntax, from the
    /// dependencies found in it: each with the way it counts as imported,
    /// in the order in which they were found.
    pub fn imports_from(&self, syntax: &Syntax, found: &Vec<(String, DependencyKind)>) -> (imports:
        Vec<Dependency>)
        ensures
            import_views(imports@) == imports_as(*syntax, found_views(found@)),
    {
        let mut imports: Vec<Dependency> = Vec::new();
        let mut i: usize = 0;
        while i < found.len()
            invariant
                i <= found.len(),
                imports@.len() == i,
                forall|k: int|
                    0 <= k < i ==> (#[trigger] imports@[k]).specifier@ == found@[k].0@
                        && imports@[k].kind == import_kind_of(*syntax, found@[k].1),
            decreases found.len() - i,
        {
            let kind = import_kind(syntax, &found[i].1);
            imports.push(Dependency::new(found[i].0.clone(), kind));
            i += 1;
        }
        assert(import_views(imports@) =~= imports_as(*syntax, found_views(found@)));
        imports
    }
}

} // verus!
