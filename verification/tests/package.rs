use depcheck_core::json::Json;
use depcheck_core::package::{ManifestError, ManifestField, Package};

#[test]
fn new_package_is_empty() {
    let package = Package::new();
    assert_eq!(package.name, "");
    assert_eq!(package.version, "");
    assert!(package.dependencies.is_empty());
    assert!(package.dev_dependencies.is_empty());
    assert!(package.peer_dependencies.is_empty());
    assert!(package.bundled_dependencies.is_empty());
    assert!(package.optional_dependencies.is_empty());
    assert!(package.bin.is_none());
    assert!(!package.has_bin());
    assert!(!package.is_any_dependency("react"));
}

#[test]
fn manifest_fields_are_read() {
    let text = br#"{
        "name": "demo",
        "version": "1.2.3",
        "description": "ignored",
        "private": true,
        "dependencies": {"react": "^18.0.0", "lodash": "*"},
        "devDependencies": {"typescript": "5"},
        "peerDependencies": {"vue": "3"},
        "bundledDependencies": {"inner": "1"},
        "optionalDependencies": {"fsevents": "2"},
        "bin": {"demo": "./cli.js", "demo2": "./cli2.js"},
        "scripts": {"build": "tsc"},
        "files": ["a", 1, null]
    }"#;
    let package = Package::from_slice(text).unwrap();
    assert_eq!(package.name, "demo");
    assert_eq!(package.version, "1.2.3");
    assert_eq!(package.dependencies.keys(), vec!["lodash", "react"]);
    assert_eq!(package.dependencies.get("react"), Some(&String::from("^18.0.0")));
    assert_eq!(package.dev_dependencies.keys(), vec!["typescript"]);
    assert_eq!(package.peer_dependencies.keys(), vec!["vue"]);
    assert_eq!(package.bundled_dependencies.keys(), vec!["inner"]);
    assert_eq!(package.optional_dependencies.keys(), vec!["fsevents"]);
    let bin = package.bin.as_ref().unwrap();
    assert_eq!(bin.keys(), vec!["demo", "demo2"]);
    assert_eq!(bin.get("demo"), Some(&String::from("./cli.js")));
    assert!(package.has_bin());

    assert!(package.is_dependency("react"));
    assert!(!package.is_dependency("typescript"));
    assert!(package.is_dev_dependency("typescript"));
    assert!(!package.is_dev_dependency("react"));
    assert!(package.is_peer_dependency("vue"));
    assert!(package.is_optional_dependency("fsevents"));
    assert!(package.is_any_dependency("react"));
    assert!(package.is_any_dependency("typescript"));
    assert!(package.is_any_dependency("vue"));
    assert!(package.is_any_dependency("fsevents"));
    assert!(!package.is_any_dependency("inner"));
    assert!(!package.is_any_dependency("missing"));
    assert!(package.is_declared("react"));
    assert!(package.is_declared("typescript"));
    assert!(!package.is_declared("vue"));
    assert!(!package.is_declared("fsevents"));
}

#[test]
fn missing_fields_count_as_empty() {
    let package = Package::from_slice(b"{}").unwrap();
    assert_eq!(package.name, "");
    assert_eq!(package.version, "");
    assert!(package.dependencies.is_empty());
    assert!(package.dev_dependencies.is_empty());
    assert!(package.bin.is_none());
}

#[test]
fn bare_bin_path_is_named_like_the_package() {
    let package = Package::from_slice(br#"{"name": "tool", "bin": "./bin/tool.js"}"#).unwrap();
    let bin = package.bin.as_ref().unwrap();
    assert_eq!(bin.keys(), vec!["tool"]);
    assert_eq!(bin.get("tool"), Some(&String::from("./bin/tool.js")));
    assert!(package.has_bin());
}

#[test]
fn null_and_empty_bin() {
    let package = Package::from_slice(br#"{"name": "tool", "bin": null}"#).unwrap();
    assert!(package.bin.is_none());
    assert!(!package.has_bin());
    let package = Package::from_slice(br#"{"name": "tool", "bin": {}}"#).unwrap();
    assert!(package.bin.is_some());
    assert!(!package.has_bin());
}

#[test]
fn text_that_is_no_json_is_a_syntax_error() {
    assert_eq!(Package::from_slice(b"").unwrap_err(), ManifestError::Syntax);
    assert_eq!(Package::from_slice(b"{").unwrap_err(), ManifestError::Syntax);
    assert_eq!(Package::from_slice(b"{} x").unwrap_err(), ManifestError::Syntax);
    assert_eq!(
        Package::from_slice(b"{\"name\": \"\xff\"}").unwrap_err(),
        ManifestError::Syntax
    );
}

#[test]
fn document_that_is_no_object_is_refused() {
    assert_eq!(Package::from_slice(b"[]").unwrap_err(), ManifestError::NotAnObject);
    assert_eq!(Package::from_slice(b"null").unwrap_err(), ManifestError::NotAnObject);
    assert_eq!(Package::from_slice(b"\"x\"").unwrap_err(), ManifestError::NotAnObject);
    assert_eq!(Package::from_slice(b"12").unwrap_err(), ManifestError::NotAnObject);
}

#[test]
fn field_of_the_wrong_shape_is_reported() {
    let cases: [(&[u8], ManifestField); 9] = [
        (br#"{"name": 1}"#, ManifestField::Name),
        (br#"{"name": null}"#, ManifestField::Name),
        (br#"{"version": []}"#, ManifestField::Version),
        (br#"{"dependencies": ["a"]}"#, ManifestField::Dependencies),
        (br#"{"dependencies": {"a": 1}}"#, ManifestField::Dependencies),
        (br#"{"devDependencies": "x"}"#, ManifestField::DevDependencies),
        (br#"{"peerDependencies": null}"#, ManifestField::PeerDependencies),
        (br#"{"bundledDependencies": ["a"]}"#, ManifestField::BundledDependencies),
        (br#"{"optionalDependencies": {"a": {}}}"#, ManifestField::OptionalDependencies),
    ];
    for (text, field) in cases {
        assert_eq!(
            Package::from_slice(text).unwrap_err(),
            ManifestError::InvalidField(field)
        );
    }
    assert_eq!(
        Package::from_slice(br#"{"bin": 3}"#).unwrap_err(),
        ManifestError::InvalidField(ManifestField::Bin)
    );
    assert_eq!(
        Package::from_slice(br#"{"bin": {"a": 3}}"#).unwrap_err(),
        ManifestError::InvalidField(ManifestField::Bin)
    );
}

#[test]
fn first_wrong_field_wins() {
    assert_eq!(
        Package::from_slice(br#"{"bin": 3, "dependencies": 1, "version": 2}"#).unwrap_err(),
        ManifestError::InvalidField(ManifestField::Version)
    );
}

#[test]
fn json_parse_keeps_the_shape_of_the_document() {
    let json = Json::parse(br#"{"b": [1, "x", null, true, -2.5], "a": {"k": "v"}}"#).unwrap();
    match json {
        Json::Object(members) => {
            assert_eq!(members.len(), 2);
            assert_eq!(members[0].0, "a");
            assert_eq!(members[1].0, "b");
            match &members[0].1 {
                Json::Object(inner) => {
                    assert_eq!(inner.len(), 1);
                    assert_eq!(inner[0].0, "k");
                    assert!(matches!(&inner[0].1, Json::Text(v) if v == "v"));
                }
                other => panic!("{other:?}"),
            }
            match &members[1].1 {
                Json::Array(items) => {
                    assert_eq!(items.len(), 5);
                    assert!(matches!(&items[0], Json::Number(n) if n == "1"));
                    assert!(matches!(&items[1], Json::Text(t) if t == "x"));
                    assert!(matches!(&items[2], Json::Null));
                    assert!(matches!(&items[3], Json::Bool(true)));
                    assert!(matches!(&items[4], Json::Number(n) if n == "-2.5"));
                }
                other => panic!("{other:?}"),
            }
        }
        other => panic!("{other:?}"),
    }
    assert!(Json::parse(b"not json").is_none());
}

#[test]
fn from_json_reads_a_hand_built_document() {
    let json = Json::Object(vec![
        (String::from("name"), Json::Text(String::from("x"))),
        (
            String::from("dependencies"),
            Json::Object(vec![
                (String::from("a"), Json::Text(String::from("1"))),
                (String::from("a"), Json::Text(String::from("2"))),
            ]),
        ),
        (String::from("name"), Json::Text(String::from("second"))),
    ]);
    let package = Package::from_json(&json).unwrap();
    assert_eq!(package.name, "x");
    assert_eq!(package.dependencies.keys(), vec!["a"]);
    assert_eq!(package.dependencies.get("a"), Some(&String::from("2")));
    assert_eq!(
        Package::from_json(&Json::Array(vec![])).unwrap_err(),
        ManifestError::NotAnObject
    );
}
