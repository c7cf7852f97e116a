use depcheck_core::specifier::{
    extract_package_name, extract_type_name, extract_types_name, is_core_module, is_external,
};

#[test]
fn gets_the_package_name_for_a_require_statement() {
    assert_eq!(extract_package_name(""), None);
    assert_eq!(
        extract_package_name("tape/index.js"),
        Some(String::from("tape"))
    );
    assert_eq!(extract_package_name("tape/"), Some(String::from("tape")));
    assert_eq!(extract_package_name("tape"), Some(String::from("tape")));
    assert_eq!(
        extract_package_name("tape/foo/bar/index.js"),
        Some(String::from("tape"))
    );
    assert_eq!(
        extract_package_name("tape/foo/bar/index"),
        Some(String::from("tape"))
    );
    assert_eq!(
        extract_package_name("tape/foo/bar/"),
        Some(String::from("tape"))
    );
    assert_eq!(
        extract_package_name("tape/foo/bar"),
        Some(String::from("tape"))
    );
    assert_eq!(
        extract_package_name("tape///foo/bar"),
        Some(String::from("tape"))
    );

    assert_eq!(
        extract_package_name("@user/home"),
        Some(String::from("@user/home"))
    );
    assert_eq!(
        extract_package_name("@user/home/"),
        Some(String::from("@user/home"))
    );
    assert_eq!(
        extract_package_name("@user/home/foo.js"),
        Some(String::from("@user/home"))
    );
    assert_eq!(extract_package_name("@user//foobar"), None);
    assert_ne!(
        extract_package_name("@user//foobar"),
        Some(String::from("@user/foobar"))
    );
    assert_eq!(extract_package_name("@user"), None);
    assert_eq!(extract_package_name("@user/"), None);
    assert_eq!(extract_package_name("@user//"), None);
}

#[test]
fn package_name_of_scoped_and_plain_specifiers() {
    assert_eq!(
        extract_package_name("@scope/name/sub/path"),
        Some(String::from("@scope/name"))
    );
    assert_eq!(
        extract_package_name("plain/sub/path"),
        Some(String::from("plain"))
    );
    assert_eq!(extract_package_name("@scope"), None);
    assert_eq!(extract_package_name("./relative"), None);
}

#[test]
fn package_name_of_non_external_specifiers_is_none() {
    assert_eq!(extract_package_name("."), None);
    assert_eq!(extract_package_name(".."), None);
    assert_eq!(extract_package_name("../up/one"), None);
    assert_eq!(extract_package_name("/abs/path"), None);
    assert_eq!(extract_package_name("@/name"), None);
    assert_eq!(extract_package_name("@"), None);
}

#[test]
fn package_name_keeps_dotted_plain_names() {
    assert_eq!(
        extract_package_name(".hidden/file"),
        Some(String::from(".hidden"))
    );
    assert_eq!(extract_package_name("..."), Some(String::from("...")));
    assert_eq!(
        extract_package_name("lodash.merge"),
        Some(String::from("lodash.merge"))
    );
}

#[test]
fn package_name_handles_non_ascii_segments() {
    assert_eq!(
        extract_package_name("@büro/größe/x"),
        Some(String::from("@büro/größe"))
    );
    assert_eq!(extract_package_name("日本/語"), Some(String::from("日本")));
}

#[test]
fn types_mapping() {
    assert_eq!(extract_type_name("@org/pkg"), "@types/org__pkg");
    assert_eq!(extract_type_name("lodash"), "@types/lodash");
    assert_eq!(extract_type_name("fs"), "@types/node");
}

#[test]
fn types_mapping_edge_cases() {
    assert_eq!(extract_type_name(""), "@types/");
    assert_eq!(extract_type_name("@noslash"), "@types/@noslash");
    assert_eq!(extract_type_name("@a/b/c"), "@types/a__b/c");
    assert_eq!(extract_type_name("@/x"), "@types/__x");
    assert_eq!(extract_type_name("@org/"), "@types/org__");
    assert_eq!(extract_type_name("path"), "@types/node");
    assert_eq!(extract_type_name("paths"), "@types/paths");
}

#[test]
fn types_name_ignores_the_runtime_modules() {
    assert_eq!(extract_types_name("fs"), "@types/fs");
    assert_eq!(extract_types_name("@org/org-pkg"), "@types/org__org-pkg");
    assert_eq!(extract_types_name("react"), "@types/react");
}

#[test]
fn core_module_membership_is_exact() {
    let core = [
        "assert",
        "buffer",
        "child_process",
        "console",
        "constants",
        "crypto",
        "dgram",
        "dns",
        "events",
        "fs",
        "http",
        "https",
        "module",
        "net",
        "os",
        "path",
        "querystring",
        "readline",
        "repl",
        "stream",
        "string_decoder",
        "timers",
        "tls",
        "tty",
        "url",
        "util",
        "vm",
    ];
    for name in core {
        assert!(is_core_module(name), "{name}");
    }
    assert!(!is_core_module(""));
    assert!(!is_core_module("f"));
    assert!(!is_core_module("fs/promises"));
    assert!(!is_core_module("FS"));
    assert!(!is_core_module("react"));
    assert!(!is_core_module("util2"));
}

#[test]
fn external_specifiers() {
    assert!(is_external("react"));
    assert!(is_external("react/jsx-runtime"));
    assert!(is_external("@scope/name"));
    assert!(is_external(".config"));
    assert!(is_external("..."));
    assert!(!is_external(""));
    assert!(!is_external("."));
    assert!(!is_external(".."));
    assert!(!is_external("./local"));
    assert!(!is_external("../local"));
    assert!(!is_external("/abs"));
}
