use depcheck_core::source_file::SourceFile;
use depcheck_core::dependency::ImportKind;
use depcheck_core::markup::holds_void_reference;
use depcheck_core::parser::{file_extension, import_kind, Parser};
use depcheck_core::walker::{visit_entry, WalkAction};
use swc_common::comments::SingleThreadedComments;
use swc_common::sync::Lrc;
use swc_common::{FileName, SourceMap};
use swc_ecma_dep_graph::{analyze_dependencies, DependencyKind};
use swc_ecma_parser::lexer::Lexer;
use swc_ecma_parser::{EsConfig, StringInput, Syntax, TsConfig};

fn parse(path: &str, text: &str) -> Option<SourceFile> {
    let syntax = SourceFile::syntax_for(path)?;
    if Parser::new().refuses(&syntax, text) {
        return None;
    }
    let cm: Lrc<SourceMap> = Default::default();
    let fm = cm.new_source_file(FileName::Anon, text.to_owned());
    let lexer = Lexer::new(syntax, Default::default(), StringInput::from(&*fm), None);
    let module = swc_ecma_parser::Parser::new_from(lexer).parse_module().ok()?;
    let found: Vec<(String, DependencyKind)> =
        analyze_dependencies(&module, &SingleThreadedComments::default())
            .into_iter()
            .map(|descriptor| (descriptor.specifier.to_string(), descriptor.kind))
            .collect();
    Some(SourceFile::new(String::from(path), &syntax, &found))
}

fn typescript(tsx: bool) -> Syntax {
    Syntax::Typescript(TsConfig {
        tsx,
        decorators: true,
        dts: false,
        no_early_errors: true,
        disallow_ambiguous_jsx_like: false,
    })
}

fn es() -> Syntax {
    Syntax::Es(EsConfig {
        jsx: true,
        fn_bind: true,
        decorators: true,
        decorators_before_export: true,
        export_default_from: true,
        import_attributes: true,
        allow_super_outside_method: true,
        allow_return_outside_function: false,
        auto_accessors: false,
        explicit_resource_management: false,
    })
}

fn imports(path: &str, source: &str) -> Option<Vec<(String, ImportKind)>> {
    parse(path, source).map(|file| {
        assert_eq!(file.path, path);
        file.imports
            .into_iter()
            .map(|import| (import.specifier, import.kind))
            .collect()
    })
}

fn values(names: &[&str]) -> Option<Vec<(String, ImportKind)>> {
    Some(
        names
            .iter()
            .map(|name| (String::from(*name), ImportKind::Value))
            .collect(),
    )
}

#[test]
fn extension_follows_the_last_dot() {
    assert_eq!(file_extension("index.js"), Some(String::from("js")));
    assert_eq!(file_extension("typedef.d.ts"), Some(String::from("ts")));
    assert_eq!(file_extension("archive.tar.gz"), Some(String::from("gz")));
    assert_eq!(file_extension("trailing."), Some(String::new()));
    assert_eq!(file_extension(".d.ts"), Some(String::from("ts")));
    assert_eq!(file_extension("a.b"), Some(String::from("b")));
}

#[test]
fn names_without_an_extension() {
    assert_eq!(file_extension(""), None);
    assert_eq!(file_extension("Makefile"), None);
    assert_eq!(file_extension(".gitignore"), None);
    assert_eq!(file_extension(".."), None);
    assert_eq!(file_extension("."), None);
}

#[test]
fn extension_matches_the_standard_library() {
    let names = [
        "index.js", "a.b.c", ".hidden", ".hidden.ts", "..", "...", "x.", "noext", "", "é.tsx",
        "a..b", ".a.", "..a",
    ];
    for name in names {
        let expected = std::path::Path::new(name)
            .extension()
            .map(|e| e.to_str().unwrap().to_owned());
        assert_eq!(file_extension(name), expected, "{name:?}");
    }
}

#[test]
fn syntax_is_chosen_by_extension() {
    let parser = Parser::new();
    assert_eq!(parser.syntax_for("index.ts"), Some(typescript(false)));
    assert_eq!(parser.syntax_for("component.tsx"), Some(typescript(true)));
    assert_eq!(parser.syntax_for("index.js"), Some(es()));
    assert_eq!(parser.syntax_for("index.jsx"), Some(es()));
    assert_eq!(parser.syntax_for("style.css"), None);
    assert_eq!(parser.syntax_for("component.vue"), None);
    assert_eq!(parser.syntax_for("README"), None);
    assert_eq!(parser.syntax_for("index.JS"), None);
    assert_eq!(parser.syntax_for("js"), None);
    assert_eq!(parser.syntax_for(".js"), None);
}

#[test]
fn declaration_files() {
    let parser = Parser::new();
    assert_eq!(parser.syntax_for(".d.ts"), Some(typescript(false)));
    assert_eq!(parser.syntax_for("typedef.d.ts"), Some(typescript(false)));
    assert_eq!(
        imports(".d.ts", "import { X } from 'x';\nexport declare let y: X;\ny = 1;\n"),
        values(&["x"])
    );
}

#[test]
fn type_only_imports_exist_in_typescript_alone() {
    let ts = typescript(false);
    assert_eq!(import_kind(&ts, &DependencyKind::ImportType), ImportKind::TypeOnly);
    assert_eq!(import_kind(&es(), &DependencyKind::ImportType), ImportKind::Value);
    for kind in [
        DependencyKind::Import,
        DependencyKind::ImportEquals,
        DependencyKind::Export,
        DependencyKind::ExportType,
        DependencyKind::ExportEquals,
        DependencyKind::Require,
    ] {
        assert_eq!(import_kind(&ts, &kind), ImportKind::Value);
        assert_eq!(import_kind(&es(), &kind), ImportKind::Value);
    }
}

#[test]
fn walk_decisions() {
    assert_eq!(visit_entry(0, false, false), WalkAction::Continue);
    assert_eq!(visit_entry(0, true, false), WalkAction::Continue);
    assert_eq!(visit_entry(0, true, true), WalkAction::Continue);
    assert_eq!(visit_entry(0, false, true), WalkAction::Continue);
    assert_eq!(visit_entry(1, true, false), WalkAction::Skip);
    assert_eq!(visit_entry(3, true, true), WalkAction::Skip);
    assert_eq!(visit_entry(1, false, true), WalkAction::Yield);
    assert_eq!(visit_entry(7, false, true), WalkAction::Yield);
    assert_eq!(visit_entry(1, false, false), WalkAction::Continue);
}

#[test]
fn javascript_imports_are_found_in_order() {
    let source = r#"
        import a from 'default-import';
        import * as b from "star-import";
        import { c, d as e } from 'member-import/deep/path';
        import 'side-effect';
        export * from 'star-export';
        export { f } from '@scope/named-export';
        const g = require('required');
        const h = require.resolve('resolved');
        function later() {
            return import('dynamic-import');
        }
        import local from './local';
    "#;
    assert_eq!(
        imports("src/index.js", source),
        values(&[
            "default-import",
            "star-import",
            "member-import/deep/path",
            "side-effect",
            "star-export",
            "@scope/named-export",
            "required",
            "resolved",
            "dynamic-import",
            "./local",
        ])
    );
}

#[test]
fn computed_requires_are_not_imports() {
    let source = r#"
        var name = 'dyna' + 'mic';
        require(name);
        require(1);
        require();
        require(`template`);
        other('not-required');
        require('static');
    "#;
    assert_eq!(imports("index.js", source), values(&["static"]));
}

#[test]
fn typescript_imports_carry_their_kind() {
    let source = r#"
        import type { A } from 'only-types';
        import { B } from 'values';
        import C = require('import-equals');
        export type { D } from 'export-types';
        let e: import('inline-type').E;
        const f = <T,>(x: T) => x;
    "#;
    assert_eq!(
        imports("lib/types.ts", source),
        Some(vec![
            (String::from("only-types"), ImportKind::TypeOnly),
            (String::from("values"), ImportKind::Value),
            (String::from("import-equals"), ImportKind::Value),
            (String::from("export-types"), ImportKind::Value),
            (String::from("inline-type"), ImportKind::TypeOnly),
        ])
    );
}

#[test]
fn markup_and_decorators_parse() {
    assert_eq!(
        imports(
            "index.jsx",
            "import React from 'react';\nexport default () => <div className=\"a\">x</div>;\n"
        ),
        values(&["react"])
    );
    assert_eq!(
        imports(
            "index.js",
            "import React from 'react';\nexport const a = <React.Fragment />;\n"
        ),
        values(&["react"])
    );
    assert_eq!(
        imports(
            "index.tsx",
            "import { observable } from 'mobx';\nclass Todo {\n  @observable title: string = '';\n}\nexport const t = <Todo />;\n"
        ),
        values(&["mobx"])
    );
    assert_eq!(
        imports("cli.js", "#!/usr/bin/env node\nrequire('shebang-script');\n"),
        values(&["shebang-script"])
    );
}

#[test]
fn files_that_are_no_source_or_do_not_parse_give_nothing() {
    assert_eq!(imports("style.css", "body { color: red }"), None);
    assert_eq!(imports("README.md", "import x from 'y';"), None);
    assert_eq!(imports("noextension", "require('x');"), None);
    assert_eq!(imports("broken.js", "import from from from;"), None);
    assert_eq!(imports("broken.ts", "let x: = ;"), None);
    assert_eq!(imports("markup.ts", "const a = <div>x</div>;"), None);
    assert_eq!(imports("empty.js", ""), values(&[]));
    assert_eq!(imports("plain.ts", "export const one = 1;"), values(&[]));
}

#[test]
fn the_file_name_is_what_follows_the_last_slash() {
    assert_eq!(imports("a.js/b.css", "require('x');"), None);
    assert_eq!(imports("a.css/b.js", "require('x');"), values(&["x"]));
    assert_eq!(imports("dir.with.dots/file", "require('x');"), None);
    assert_eq!(imports("deep/er/.d.ts", "import 'x';"), values(&["x"]));
    assert_eq!(imports("trailing.js/", "require('x');"), None);
}

#[test]
fn imports_keep_their_order_and_take_their_kind_from_the_syntax() {
    let parser = Parser::new();
    let found = vec![
        (String::from("t"), DependencyKind::ImportType),
        (String::from("v"), DependencyKind::Import),
        (String::from("./r"), DependencyKind::Require),
        (String::from("t"), DependencyKind::ExportType),
    ];
    let kinds = |syntax: &Syntax| -> Vec<(String, ImportKind)> {
        parser
            .imports_from(syntax, &found)
            .into_iter()
            .map(|import| (import.specifier, import.kind))
            .collect()
    };
    assert_eq!(
        kinds(&typescript(false)),
        vec![
            (String::from("t"), ImportKind::TypeOnly),
            (String::from("v"), ImportKind::Value),
            (String::from("./r"), ImportKind::Value),
            (String::from("t"), ImportKind::Value),
        ]
    );
    assert_eq!(
        kinds(&es()),
        vec![
            (String::from("t"), ImportKind::Value),
            (String::from("v"), ImportKind::Value),
            (String::from("./r"), ImportKind::Value),
            (String::from("t"), ImportKind::Value),
        ]
    );
    assert!(parser.imports_from(&es(), &Vec::new()).is_empty());
    let file = SourceFile::new(String::from("src/a.ts"), &typescript(false), &found);
    assert_eq!(file.path, "src/a.ts");
    assert_eq!(file.imports.len(), 4);
    assert_eq!(file.imports[0].kind, ImportKind::TypeOnly);
}

#[test]
fn texts_that_the_parser_must_not_get_are_refused() {
    let parser = Parser::new();
    let declarations = Syntax::Typescript(TsConfig {
        dts: true,
        ..Default::default()
    });
    assert!(parser.refuses(&declarations, "let x = 1;"));
    assert!(parser.refuses(&declarations, ""));
    assert!(parser.refuses(&es(), "x = <b>&#;</b>"));
    assert!(parser.refuses(&typescript(true), "x = <b>&#x;</b>"));
    assert!(!parser.refuses(&typescript(false), "x = '&#;'"));
    assert!(!parser.refuses(&es(), "x = <b>&#65;</b>"));
    assert!(!parser.refuses(&typescript(true), ""));
    let plain = Syntax::Es(EsConfig::default());
    assert!(!parser.refuses(&plain, "x = '&#;'"));
}

#[test]
fn syntax_goes_by_the_name_behind_the_last_slash() {
    assert_eq!(SourceFile::syntax_for("a.js/b.css"), None);
    assert_eq!(SourceFile::syntax_for("a.css/b.js"), Some(es()));
    assert_eq!(SourceFile::syntax_for("src/deep/c.tsx"), Some(typescript(true)));
    assert_eq!(SourceFile::syntax_for("trailing.js/"), None);
    assert_eq!(SourceFile::syntax_for(""), None);
    assert_eq!(SourceFile::syntax_for("index.ts"), Some(typescript(false)));
}

#[test]
fn void_character_references_are_told_apart() {
    for text in [
        "&#;",
        "&#x;",
        "a &#; b",
        "&#xD800;",
        "&#xDFFF;",
        "&#xd8ff;",
        "&#55296;",
        "&#57343;",
        "&#x110000;",
        "&#1114112;",
        "&#99999999;",
        "&#xFFFFFFF;",
        "&&#;",
        "&amp;&#;",
        "&#1;&#;",
        "&#123456&#;",
        "x = <b>&#;</b>",
    ] {
        assert!(holds_void_reference(text), "{text:?}");
    }
    for text in [
        "",
        "&",
        "&#",
        "&#x",
        "&;",
        "&amp;",
        "&#169;",
        "&#xA9;",
        "&#xa9;",
        "&#0;",
        "&#x0;",
        "&#xD7FF;",
        "&#xE000;",
        "&#x10FFFF;",
        "&#1114111;",
        "&#0001114111;",
        "&#X41;",
        "&#12a;",
        "&#x12g;",
        "&#-1;",
        "&#+1;",
        "&# ;",
        "&#123456789;",
        "&#1234567890;",
        "&#x12345678;",
        "#;",
        "&x#;",
        "& #;",
        "&#\u{661};",
    ] {
        assert!(!holds_void_reference(text), "{text:?}");
    }
}

#[test]
fn markup_with_a_void_reference_counts_as_unparsable() {
    for (path, text) in [
        ("a.jsx", "x = <b>&#;</b>"),
        ("a.js", "x = <b>&#x;</b>"),
        ("a.tsx", "const x = <b>&#xD800;</b>;"),
        ("a.jsx", "x = <b title=\"&#99999999;\" />"),
        ("a.js", "import 'y'; x = <b>&#x110000;</b>"),
        ("a.js", "import 'y'; const s = '&#;';"),
    ] {
        assert_eq!(imports(path, text), None, "{path} {text:?}");
    }
}

#[test]
fn markup_with_sound_references_parses() {
    assert_eq!(
        imports(
            "a.jsx",
            "import 'y';\nx = <b title=\"&#169; &amp; &#xA9;\">&#x10FFFF; &#65; &nbsp; &#X41; &unknown; &</b>;"
        ),
        values(&["y"])
    );
    assert_eq!(
        imports("a.tsx", "import 'y';\nexport const x = <b>&#0;&#xD7FF;&#xE000;</b>;"),
        values(&["y"])
    );
    assert_eq!(
        imports("a.ts", "import 'y';\nexport const s = '&#; &#x; &#xD800;';"),
        values(&["y"])
    );
}

#[test]
fn odd_literals_do_not_stop_the_parser() {
    let snippets = [
        "x = 08.5;",
        "x = 09;",
        "x = 010;",
        "x = 0777777777777777777777777777;",
        "x = 1_000_000;",
        "x = 0x_1;",
        "x = 0x;",
        "x = 0b;",
        "x = 0b102;",
        "x = 0o8;",
        "x = 1e;",
        "x = 1e+;",
        "x = 1e-99999999999999999999;",
        "x = 1e99999999999999999999;",
        "x = 1__0;",
        "x = 1_;",
        "x = .5e1_0;",
        "x = 0.0000000000000000000000000000000000000000000000001e-400;",
        "x = 123456789012345678901234567890123456789012345678901234567890n;",
        "x = 0x1fffffffffffffffffffffffffffffffffn;",
        "x = 0b1n; y = 0o7n; z = 0n;",
        "x = 08n;",
        "x = 1.5n;",
        "x = 0.n;",
        "x = 1..toString();",
        "x = '\\u{110000}';",
        "x = '\\u{D800}';",
        "x = '\\ud800';",
        "x = '\\u{}';",
        "x = '\\u{FFFFFFFFFF}';",
        "x = '\\x';",
        "x = '\\xZZ';",
        "x = '\\8 \\9 \\07 \\377 \\400';",
        "x = `\\u{110000} ${'\\xZ'} \\07`;",
        "\\u{110000} = 1;",
        "a\\u{D800}b = 1;",
        "\\u0061bc = 1;",
        "x = /[/;",
        "x = /a/gimsuyd;",
        "x = /a/\\u0067;",
        "x = /(?<n>a)\\k<n>/u;",
        "x = <",
        "x = <a",
        "x = <a b=",
        "x = <a b='",
        "x = <a>{",
        "x = <a>&",
        "x = <a>&#",
        "x = <a>&#1",
        "x = <a b='&",
        "x = <a b='&#12",
        "x = <a>&#123456789;</a>",
        "x = <a>\r\n\u{2028}\u{2029}</a>",
        "x = <a.b.c:d />",
        "x = <></>",
        "x = <a {...b} />",
        "x = <a>{/* c */}</a>",
        "<<<<<<< HEAD\nx\n=======\ny\n>>>>>>> other",
        "#!",
        "#!/bin/sh",
        "#",
        "#x in y;",
        "class A { #x; static { } @d m() {} }",
        "@d export class A {}",
        "export @d class A {}",
        "a::b; ::c;",
        "x = a ?? b ?. c ?.[d] ?.(e);",
        "x ??= y ||= z &&= w **= 2;",
        "label: for (;;) { break label; continue label; }",
        "return 1;",
        "super.x; super();",
        "import.meta; new.target;",
        "import x from 'y' with { type: 'json' };",
        "import x from 'y' assert { type: 'json' };",
        "export * as ns from 'y';",
        "export v from 'y';",
        "import(1, 2, 3); import(); import('a', { with: {} });",
        "require('a', 'b'); require(...c);",
        "/* unterminated",
        "// line\u{2028}x",
        "<!-- html comment\nx --> y",
        "'unterminated",
        "`unterminated ${",
        "x = {",
        "x = (((((((((((((((((((((((((((((((((((",
        "\u{feff}import 'bom';",
        "\u{0}",
        "\u{7f}\u{80}\u{a0}\u{2000}\u{3000}x",
        "💥 = 1;",
        "x = '💥'; y = `💥`; z = /💥/u; w = <a>💥</a>;",
        "let \u{10FFFF};",
        "type A<T> = T extends infer U ? U : never;",
        "let a = <T,>(b: T) => b; let c = <d>e;",
        "enum E { A = 1 << 40, B = 08 }",
        "declare module 'm' { export = x; }",
        "namespace N.M { export import a = b.c; }",
        "import type = require('t');",
        "import type T, { type U } from 't';",
        "abstract class A { abstract m(): void; accessor x = 1; }",
        "let x: 0x1n | -1 | `a${string}` | unique symbol;",
        "function f(this: A, ...r: [a?: 1, ...b: 2[]]) {}",
        "let d!: number; d!++; d as any as unknown satisfies {};",
    ];
    for path in ["a.js", "a.jsx", "a.ts", "a.tsx", ".d.ts"] {
        for snippet in snippets {
            let text = format!("import 'first';\n{snippet}\n");
            if let Some(found) = imports(path, &text) {
                assert!(!found.is_empty(), "{path} {snippet:?}");
                assert_eq!(found[0].0, "first", "{path} {snippet:?}");
            }
            let _ = imports(path, snippet);
        }
    }
}
