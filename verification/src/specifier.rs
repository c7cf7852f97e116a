//! The grammar of import specifiers and package names.
//!
//! A specifier such as `react/jsx-runtime` or `@scope/name/sub/path` names a
//! package by its leading segment, or by its two leading segments when the
//! first is a scope. A package name maps to the name of the package that
//! carries its type declarations.

use vstd::prelude::*;
use vstd::string::{StrSliceExecFns, StringExecFns};
use crate::text::{chars_of, same_name};

verus! {

/// The index of the first `/` at or after `from`, or the length of `s` where
/// none follows.
pub open spec fn segment_end(s: Seq<char>, from: int) -> int
    decreases s.len() - from,
{
    if from < 0 || from >= s.len() {
        s.len() as int
    } else if s[from] == '/' {
        from
    } else {
        segment_end(s, from + 1)
    }
}

/// `segment_end` stops at the first slash and nowhere before it.
pub proof fn lemma_segment_end(s: Seq<char>, from: int)
    requires
        0 <= from <= s.len(),
    ensures
        from <= segment_end(s, from) <= s.len(),
        forall|j: int| from <= j < segment_end(s, from) ==> s[j] != '/',
        segment_end(s, from) < s.len() ==> s[segment_end(s, from)] == '/',
    decreases s.len() - from,
{
    if from < s.len() && s[from] != '/' {
        lemma_segment_end(s, from + 1);
    }
}

/// The leading segment of `s`: what stands before its first `/`.
pub open spec fn leading_segment(s: Seq<char>) -> Seq<char> {
    s.subrange(0, segment_end(s, 0))
}

/// A specifier is external when its leading segment is a plain name: not
/// empty (which an absolute path has), not `.` and not `..`.
pub open spec fn is_external_specifier(s: Seq<char>) -> bool {
    &&& segment_end(s, 0) > 0
    &&& leading_segment(s) != seq!['.']
    &&& leading_segment(s) != seq!['.', '.']
}

/// The name of the package that a specifier imports from.
///
/// A specifier that begins with `@` names a scoped package: the scope runs
/// to the first `/`, and the name runs from behind that slash to the next
/// one; scope and name must both be non-empty, and the package is named by
/// the specifier up to the end of the name. Any other external specifier
/// names the package by its leading segment. Everything else names no
/// package.
pub open spec fn package_name(s: Seq<char>) -> Option<Seq<char>> {
    if s.len() > 0 && s[0] == '@' {
        let scope_end = segment_end(s, 1);
        let name_end = segment_end(s, scope_end + 1);
        if 1 < scope_end && scope_end + 1 < name_end {
            Some(s.subrange(0, name_end))
        } else {
            None
        }
    } else if is_external_specifier(s) {
        Some(leading_segment(s))
    } else {
        None
    }
}

/// The modules that the runtime itself provides.
pub open spec fn is_core_module_name(s: Seq<char>) -> bool {
    ||| s == "assert"@
    ||| s == "buffer"@
    ||| s == "child_process"@
    ||| s == "console"@
    ||| s == "constants"@
    ||| s == "crypto"@
    ||| s == "dgram"@
    ||| s == "dns"@
    ||| s == "events"@
    ||| s == "fs"@
    ||| s == "http"@
    ||| s == "https"@
    ||| s == "module"@
    ||| s == "net"@
    ||| s == "os"@
    ||| s == "path"@
    ||| s == "querystring"@
    ||| s == "readline"@
    ||| s == "repl"@
    ||| s == "stream"@
    ||| s == "string_decoder"@
    ||| s == "timers"@
    ||| s == "tls"@
    ||| s == "tty"@
    ||| s == "url"@
    ||| s == "util"@
    ||| s == "vm"@
}

/// A package name is scoped when it begins with `@` and holds a `/`.
pub open spec fn is_scoped_name(name: Seq<char>) -> bool {
    name.len() > 0 && name[0] == '@' && segment_end(name, 0) < name.len()
}

/// The name of the types package of a package outside the runtime:
/// `@types/scope__name` for `@scope/name`, `@types/name` for `name`.
pub open spec fn types_name(name: Seq<char>) -> Seq<char> {
    if is_scoped_name(name) {
        let slash = segment_end(name, 0);
        "@types/"@ + name.subrange(1, slash) + "__"@ + name.subrange(slash + 1, name.len() as int)
    } else {
        "@types/"@ + name
    }
}

/// The name of the package that carries the type declarations of `name`:
/// the runtime's own types package for a core module, else `types_name`.
pub open spec fn types_package_name(name: Seq<char>) -> Seq<char> {
    if is_core_module_name(name) {
        "@types/node"@
    } else {
        types_name(name)
    }
}

/// Where no slash stands in `[from, end)` and the segment is closed at
/// `end`, by a slash or by the end of `s`, the segment ends at `end`.
pub proof fn lemma_segment_end_is(s: Seq<char>, from: int, end: int)
    requires
        0 <= from <= end <= s.len(),
        forall|j: int| from <= j < end ==> s[j] != '/',
        end == s.len() || s[end] == '/',
    ensures
        segment_end(s, from) == end,
    decreases end - from,
{
    if from < end {
        lemma_segment_end_is(s, from + 1, end);
    }
}

/// No character of `s` is a slash.
pub open spec fn is_segment(s: Seq<char>) -> bool {
    forall|j: int| 0 <= j < s.len() ==> s[j] != '/'
}

/// A specifier made of `@`, a scope, a slash, a name and whatever follows
/// behind a further slash names the scoped package: `@scope/name/sub/path`
/// names `@scope/name`.
pub proof fn lemma_scoped_package_name(scope: Seq<char>, name: Seq<char>, tail: Seq<char>)
    requires
        scope.len() > 0,
        name.len() > 0,
        is_segment(scope),
        is_segment(name),
        tail.len() == 0 || tail[0] == '/',
    ensures
        package_name(seq!['@'] + scope + seq!['/'] + name + tail) == Some(
            seq!['@'] + scope + seq!['/'] + name,
        ),
{
    let s = seq!['@'] + scope + seq!['/'] + name + tail;
    let scope_end = 1 + scope.len() as int;
    let name_start = scope_end + 1;
    let name_end = name_start + name.len() as int;
    assert(s[0] == '@');
    assert forall|j: int| 1 <= j < scope_end implies s[j] != '/' by {
        assert(s[j] == scope[j - 1]);
    }
    assert(s[scope_end] == '/');
    lemma_segment_end_is(s, 1, scope_end);
    assert forall|j: int| name_start <= j < name_end implies s[j] != '/' by {
        assert(s[j] == name[j - name_start]);
    }
    if tail.len() > 0 {
        assert(s[name_end] == tail[0]);
    }
    lemma_segment_end_is(s, name_start, name_end);
    assert(s.subrange(0, name_end) =~= seq!['@'] + scope + seq!['/'] + name);
}

/// A specifier made of a plain name and whatever follows behind a slash
/// names the package of that name: `plain/sub/path` names `plain`.
pub proof fn lemma_plain_package_name(name: Seq<char>, tail: Seq<char>)
    requires
        name.len() > 0,
        is_segment(name),
        name[0] != '@',
        name != seq!['.'],
        name != seq!['.', '.'],
        tail.len() == 0 || tail[0] == '/',
    ensures
        package_name(name + tail) == Some(name),
{
    let s = name + tail;
    let end = name.len() as int;
    assert forall|j: int| 0 <= j < end implies s[j] != '/' by {
        assert(s[j] == name[j]);
    }
    if tail.len() > 0 {
        assert(s[end] == tail[0]);
    }
    lemma_segment_end_is(s, 0, end);
    assert(s[0] == name[0]);
    assert(leading_segment(s) =~= name);
}

/// A specifier whose leading segment is empty, `.` or `..` names no
/// package: absolute and relative imports are internal.
pub proof fn lemma_internal_specifier_names_nothing(s: Seq<char>)
    requires
        s.len() == 0 || s[0] == '/' || leading_segment(s) == seq!['.'] || leading_segment(s)
            == seq!['.', '.'],
    ensures
        !is_external_specifier(s),
        package_name(s) is None,
{
    if s.len() > 0 && s[0] != '/' {
        lemma_segment_end(s, 0);
        assert(leading_segment(s)[0] == s[0]);
    }
}

/// A scope alone names no package: `@scope` and `@scope/` name nothing.
pub proof fn lemma_scope_alone_names_nothing(scope: Seq<char>, slashes: Seq<char>)
    requires
        is_segment(scope),
        forall|j: int| 0 <= j < slashes.len() ==> slashes[j] == '/',
    ensures
        package_name(seq!['@'] + scope + slashes) is None,
{
    let s = seq!['@'] + scope + slashes;
    let scope_end = 1 + scope.len() as int;
    assert forall|j: int| 1 <= j < scope_end implies s[j] != '/' by {
        assert(s[j] == scope[j - 1]);
    }
    if slashes.len() > 0 {
        assert(s[scope_end] == slashes[0]);
    }
    lemma_segment_end_is(s, 1, scope_end);
    if slashes.len() > 1 {
        assert(s[scope_end + 1] == slashes[1]);
    }
}

/// The name of a package is a specifier for that same package.
pub proof fn lemma_package_name_is_fixed(s: Seq<char>)
    requires
        package_name(s) is Some,
    ensures
        package_name(package_name(s)->0) == package_name(s),
{
    if s[0] == '@' {
        let scope_end = segment_end(s, 1);
        lemma_segment_end(s, 1);
        let name_end = segment_end(s, scope_end + 1);
        lemma_segment_end(s, scope_end + 1);
        let scope = s.subrange(1, scope_end);
        let name = s.subrange(scope_end + 1, name_end);
        lemma_scoped_package_name(scope, name, Seq::empty());
        assert(seq!['@'] + scope + seq!['/'] + name + Seq::<char>::empty() =~= s.subrange(
            0,
            name_end,
        ));
    } else {
        lemma_segment_end(s, 0);
        let name = leading_segment(s);
        assert(name[0] == s[0]);
        lemma_plain_package_name(name, Seq::empty());
        assert(name + Seq::<char>::empty() =~= name);
    }
}

/// Every module of the runtime has a plain name: not empty, not scoped,
/// without a slash.
pub proof fn lemma_core_module_is_plain(s: Seq<char>)
    requires
        is_core_module_name(s),
    ensures
        s.len() > 0,
        s[0] != '@',
        is_segment(s),
{
    reveal_strlit("assert");
    reveal_strlit("buffer");
    reveal_strlit("child_process");
    reveal_strlit("console");
    reveal_strlit("constants");
    reveal_strlit("crypto");
    reveal_strlit("dgram");
    reveal_strlit("dns");
    reveal_strlit("events");
    reveal_strlit("fs");
    reveal_strlit("http");
    reveal_strlit("https");
    reveal_strlit("module");
    reveal_strlit("net");
    reveal_strlit("os");
    reveal_strlit("path");
    reveal_strlit("querystring");
    reveal_strlit("readline");
    reveal_strlit("repl");
    reveal_strlit("stream");
    reveal_strlit("string_decoder");
    reveal_strlit("timers");
    reveal_strlit("tls");
    reveal_strlit("tty");
    reveal_strlit("url");
    reveal_strlit("util");
    reveal_strlit("vm");
}

/// The types package of a scoped package joins scope and name with two
/// underscores: `@org/pkg` maps to `@types/org__pkg`.
pub proof fn lemma_scoped_types_name(org: Seq<char>, pkg: Seq<char>)
    requires
        is_segment(org),
    ensures
        types_package_name(seq!['@'] + org + seq!['/'] + pkg) == "@types/"@ + org + "__"@ + pkg,
{
    let s = seq!['@'] + org + seq!['/'] + pkg;
    let slash = 1 + org.len() as int;
    assert(s[0] == '@');
    assert forall|j: int| 0 <= j < slash implies s[j] != '/' by {
        if j > 0 {
            assert(s[j] == org[j - 1]);
        }
    }
    assert(s[slash] == '/');
    lemma_segment_end_is(s, 0, slash);
    assert(s.subrange(1, slash) =~= org);
    assert(s.subrange(slash + 1, s.len() as int) =~= pkg);
    if is_core_module_name(s) {
        lemma_core_module_is_plain(s);
    }
}

/// The types package of a package that is neither scoped nor part of the
/// runtime is named `@types/` and the package's name: `lodash` maps to
/// `@types/lodash`.
pub proof fn lemma_plain_types_name(name: Seq<char>)
    requires
        !is_core_module_name(name),
        !is_scoped_name(name),
    ensures
        types_package_name(name) == "@types/"@ + name,
{
}

/// Every module of the runtime has the same types package.
pub proof fn lemma_core_types_name(name: Seq<char>)
    requires
        is_core_module_name(name),
    ensures
        types_package_name(name) == "@types/node"@,
{
}

/// Whether `module` is one of the runtime's own modules. The test is exact:
/// neither a prefix nor a pattern counts.
pub fn is_core_module(module: &str) -> (b: bool)
    ensures
        b == is_core_module_name(module@),
{
    same_name(module, "assert") || same_name(module, "buffer") || same_name(
        module,
        "child_process",
    ) || same_name(module, "console") || same_name(module, "constants") || same_name(
        module,
        "crypto",
    ) || same_name(module, "dgram") || same_name(module, "dns") || same_name(module, "events")
        || same_name(module, "fs") || same_name(module, "http") || same_name(module, "https")
        || same_name(module, "module") || same_name(module, "net") || same_name(module, "os")
        || same_name(module, "path") || same_name(module, "querystring") || same_name(
        module,
        "readline",
    ) || same_name(module, "repl") || same_name(module, "stream") || same_name(
        module,
        "string_decoder",
    ) || same_name(module, "timers") || same_name(module, "tls") || same_name(module, "tty")
        || same_name(module, "url") || same_name(module, "util") || same_name(module, "vm")
}

/// Finds the end of the segment that starts at `from`.
fn find_segment_end(cs: &Vec<char>, from: usize) -> (end: usize)
    requires
        from <= cs.len(),
    ensures
        end == segment_end(cs@, from as int),
        from <= end <= cs.len(),
{
    let mut i: usize = from;
    while i < cs.len() && cs[i] != '/'
        invariant
            from <= i <= cs.len(),
            segment_end(cs@, from as int) == segment_end(cs@, i as int),
        decreases cs.len() - i,
    {
        i += 1;
    }
    i
}

/// Whether a specifier names something outside the project: its leading
/// path segment is a plain name, so it is neither relative nor absolute.
pub fn is_external(specifier: &str) -> (b: bool)
    ensures
        b == is_external_specifier(specifier@),
{
    let cs = chars_of(specifier);
    let end = find_segment_end(&cs, 0);
    if end == 0 {
        return false;
    }
    assert(leading_segment(cs@).len() == end);
    if end == 1 && cs[0] == '.' {
        assert(leading_segment(cs@) =~= seq!['.']);
        return false;
    }
    if end == 2 && cs[0] == '.' && cs[1] == '.' {
        assert(leading_segment(cs@) =~= seq!['.', '.']);
        return false;
    }
    proof {
        let seg = leading_segment(cs@);
        if seg == seq!['.'] {
            assert(seg.len() == 1 && seg[0] == '.');
        }
        if seg == seq!['.', '.'] {
            assert(seg.len() == 2 && seg[0] == '.' && seg[1] == '.');
        }
    }
    true
}

/// Extracts the package name from an import specifier; `None` where the
/// specifier names no package.
pub fn extract_package_name(path: &str) -> (name: Option<String>)
    ensures
        name is Some <==> package_name(path@) is Some,
        name is Some ==> name->0@ == package_name(path@)->0,
{
    let cs = chars_of(path);
    if cs.len() > 0 && cs[0] == '@' {
        let scope_end = find_segment_end(&cs, 1);
        if 1 < scope_end && scope_end < cs.len() {
            let name_end = find_segment_end(&cs, scope_end + 1);
            if scope_end + 1 < name_end {
                Some(String::from_str(path.substring_char(0, name_end)))
            } else {
                None
            }
        } else {
            proof {
                if scope_end == cs.len() {
                    assert(segment_end(cs@, scope_end + 1) == cs@.len());
                }
            }
            None
        }
    } else if is_external(path) {
        let end = find_segment_end(&cs, 0);
        Some(String::from_str(path.substring_char(0, end)))
    } else {
        None
    }
}

/// Maps a package name outside the runtime to the name of its types
/// package.
pub fn extract_types_name(path: &str) -> (name: String)
    ensures
        name@ == types_name(path@),
{
    let cs = chars_of(path);
    let prefix = String::from_str("@types/");
    if cs.len() > 0 && cs[0] == '@' {
        let slash = find_segment_end(&cs, 0);
        if slash < cs.len() {
            proof {
                assert(segment_end(cs@, 0) == segment_end(cs@, 1));
                lemma_segment_end(cs@, 1);
            }
            return prefix.concat(path.substring_char(1, slash)).concat("__").concat(
                path.substring_char(slash + 1, cs.len()),
            );
        }
    }
    prefix.concat(path)
}

/// Maps a package name to the name of the package that carries its type
/// declarations.
pub fn extract_type_name(path: &str) -> (name: String)
    ensures
        name@ == types_package_name(path@),
{
    if is_core_module(path) {
        String::from_str("@types/node")
    } else {
        extract_types_name(path)
    }
}

} // verus!
