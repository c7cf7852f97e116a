use depcheck_core::config::{CheckerOptions, Config, ConfigError};

fn strings(items: &[&str]) -> Vec<String> {
    items.iter().map(|s| String::from(*s)).collect()
}

#[test]
fn config_defaults() {
    let config = Config::new(String::from("/project"));
    assert_eq!(config.get_directory(), "/project");
    assert!(!config.ignore_bin_package());
    assert!(!config.skip_missing());
    assert!(!config.read_depcheckignore());
    assert_eq!(config.ignore_path(), None);
    assert_eq!(
        config.get_ignore_patterns(),
        &strings(&[
            ".git",
            ".svn",
            ".hg",
            ".idea",
            "node_modules",
            "dist",
            "build",
            "bower_components",
            "*.png",
            "*.gif",
            "*.jpg",
            "*.jpeg",
            "*.svg",
            "*.woff",
            "*.woff2",
            "*.eot",
            "*.ttf",
            "*.zip",
            "*.gz",
            "*.mp4",
        ])
    );
    let matcher = config.get_ignore_matches().unwrap();
    assert!(matcher.is_empty());
    assert!(!matcher.is_match("react"));
}

#[test]
fn config_builders_set_one_field_each() {
    let config = Config::new(String::from("."))
        .with_ignore_bin_package(true)
        .with_skip_missing(true)
        .with_read_depcheckignore(true)
        .with_ignore_path(Some(String::from(".depcheckignore")))
        .with_ignore_patterns(strings(&["out", "*.min.js"]))
        .with_ignore_matches(strings(&["o*"]));
    assert_eq!(config.get_directory(), ".");
    assert!(config.ignore_bin_package());
    assert!(config.skip_missing());
    assert!(config.read_depcheckignore());
    assert_eq!(config.ignore_path(), Some(".depcheckignore"));
    assert_eq!(config.get_ignore_patterns(), &strings(&["out", "*.min.js"]));

    let config = config.with_skip_missing(false).with_ignore_path(None);
    assert!(!config.skip_missing());
    assert!(config.ignore_bin_package());
    assert_eq!(config.ignore_path(), None);
    assert_eq!(config.get_ignore_patterns(), &strings(&["out", "*.min.js"]));
}

#[test]
fn ignore_patterns_replace_the_defaults() {
    let config = Config::new(String::from(".")).with_ignore_patterns(strings(&[]));
    assert!(config.get_ignore_patterns().is_empty());
}

#[test]
fn ignore_matches_compile_into_a_matcher() {
    let config = Config::new(String::from("."))
        .with_ignore_matches(strings(&["o*", "@types/*", "exact-name"]));
    let matcher = config.get_ignore_matches().unwrap();
    assert_eq!(matcher.len(), 3);
    assert!(matcher.is_match("optimist"));
    assert!(matcher.is_match("o"));
    assert!(matcher.is_match("@types/node"));
    assert!(matcher.is_match("exact-name"));
    assert!(!matcher.is_match("react"));
    assert!(!matcher.is_match("exact-name-2"));
    assert!(!matcher.is_match("foo"));
}

#[test]
fn malformed_ignore_match_names_the_first_bad_pattern() {
    let config = Config::new(String::from("."))
        .with_ignore_matches(strings(&["fine*", "bad[", "{worse", "ok"]));
    match config.get_ignore_matches() {
        Err(ConfigError::MalformedPattern(pattern)) => assert_eq!(pattern, "bad["),
        other => panic!("expected a malformed pattern, got {other:?}"),
    }
    let config = Config::new(String::from(".")).with_ignore_matches(strings(&["{a,b"]));
    match config.get_ignore_matches() {
        Err(ConfigError::MalformedPattern(pattern)) => assert_eq!(pattern, "{a,b"),
        other => panic!("expected a malformed pattern, got {other:?}"),
    }
}

#[test]
fn default_overrides_keep_the_usual_clutter_out() {
    let config = Config::new(String::from("/project"));
    let overrides = config.get_overrides().unwrap();
    assert_eq!(overrides.num_ignores(), 20);
    assert_eq!(overrides.num_whitelists(), 0);
    assert!(overrides.matched("/project/node_modules", true).is_ignore());
    assert!(overrides.matched("/project/packages/a/node_modules", true).is_ignore());
    assert!(overrides.matched("/project/.git", true).is_ignore());
    assert!(overrides.matched("/project/dist", true).is_ignore());
    assert!(overrides.matched("/project/assets/logo.png", false).is_ignore());
    assert!(overrides.matched("/project/fonts/a.woff2", false).is_ignore());
    assert!(overrides.matched("/project/src/index.js", false).is_none());
    assert!(overrides.matched("/project/src", true).is_none());
    assert!(overrides.matched("/project/src/png.ts", false).is_none());
}

#[test]
fn user_patterns_replace_the_default_overrides() {
    let config = Config::new(String::from("/project"))
        .with_ignore_patterns(strings(&["generated", "*.min.js"]));
    let overrides = config.get_overrides().unwrap();
    assert_eq!(overrides.num_ignores(), 2);
    assert!(overrides.matched("/project/generated", true).is_ignore());
    assert!(overrides.matched("/project/lib/a.min.js", false).is_ignore());
    assert!(overrides.matched("/project/node_modules", true).is_none());
    assert!(overrides.matched("/project/lib/a.js", false).is_none());

    let none = Config::new(String::from("/project")).with_ignore_patterns(strings(&[]));
    assert!(none.get_overrides().unwrap().is_empty());
}

#[test]
fn malformed_ignore_pattern_names_the_first_bad_pattern() {
    let config = Config::new(String::from("/project"))
        .with_ignore_patterns(strings(&["fine", "bad[", "{worse", "ok"]));
    match config.get_overrides() {
        Err(ConfigError::MalformedIgnorePattern(pattern)) => assert_eq!(pattern, "bad["),
        other => panic!("expected a malformed pattern, got {other:?}"),
    }
    // The name patterns are judged apart from the patterns for files.
    assert!(config.get_ignore_matches().is_ok());
    let config = Config::new(String::from("/project")).with_ignore_matches(strings(&["bad["]));
    assert!(config.get_overrides().is_ok());
    assert!(config.get_ignore_matches().is_err());
}

#[test]
fn validate_judges_file_patterns_before_name_patterns() {
    assert!(Config::new(String::from(".")).validate().is_ok());
    let both = Config::new(String::from("."))
        .with_ignore_patterns(strings(&["ok", "bad["]))
        .with_ignore_matches(strings(&["{x"]));
    match both.validate() {
        Err(ConfigError::MalformedIgnorePattern(pattern)) => assert_eq!(pattern, "bad["),
        other => panic!("expected a malformed ignore pattern, got {other:?}"),
    }
    let names = Config::new(String::from(".")).with_ignore_matches(strings(&["fine", "{x"]));
    match names.validate() {
        Err(ConfigError::MalformedPattern(pattern)) => assert_eq!(pattern, "{x"),
        other => panic!("expected a malformed pattern, got {other:?}"),
    }
}

#[test]
fn checker_options_are_a_config() {
    let options: Config = CheckerOptions::new(String::from("src")).with_skip_missing(true);
    assert_eq!(options.get_directory(), "src");
    assert!(options.skip_missing());
    assert!(!options.ignore_bin_package());
    assert_eq!(options.get_ignore_patterns().len(), 20);
}

#[test]
fn added_ignore_patterns_follow_the_ones_held() {
    let config = Config::new(String::from("/project"))
        .with_added_ignore_patterns(strings(&["generated", "*.min.js"]));
    let patterns = config.get_ignore_patterns();
    assert_eq!(patterns.len(), 22);
    assert_eq!(patterns[0], ".git");
    assert_eq!(patterns[19], "*.mp4");
    assert_eq!(patterns[20], "generated");
    assert_eq!(patterns[21], "*.min.js");
    let overrides = config.get_overrides().unwrap();
    assert!(overrides.matched("/project/node_modules", true).is_ignore());
    assert!(overrides.matched("/project/generated", true).is_ignore());
    assert!(overrides.matched("/project/a.min.js", false).is_ignore());
    assert!(overrides.matched("/project/a.js", false).is_none());

    let replaced = config
        .with_ignore_patterns(strings(&["only"]))
        .with_added_ignore_patterns(strings(&[]));
    assert_eq!(replaced.get_ignore_patterns(), &strings(&["only"]));
}

#[test]
fn white_space_at_the_end_of_an_ignore_pattern_does_not_count() {
    let config = Config::new(String::from("/project"))
        .with_ignore_patterns(strings(&["dist ", "build\t \u{a0}", "#notes", "a b", "  lead"]));
    let overrides = config.get_overrides().unwrap();
    assert_eq!(overrides.num_ignores(), 5);
    assert!(overrides.matched("/project/dist", true).is_ignore());
    assert!(overrides.matched("/project/build", true).is_ignore());
    assert!(overrides.matched("/project/#notes", false).is_ignore());
    assert!(overrides.matched("/project/a b", false).is_ignore());
    assert!(overrides.matched("/project/  lead", false).is_ignore());
    assert!(overrides.matched("/project/dist ", true).is_none());
    assert!(overrides.matched("/project/lead", false).is_none());
}

#[test]
fn blank_ignore_patterns_still_give_a_line() {
    let config = Config::new(String::from("/project")).with_ignore_patterns(strings(&["", " "]));
    match config.get_overrides() {
        Ok(overrides) => assert_eq!(overrides.num_ignores(), 2),
        Err(ConfigError::MalformedIgnorePattern(pattern)) => assert_eq!(pattern, ""),
        Err(other) => panic!("unexpected {other:?}"),
    }
}

#[test]
fn configs_without_patterns_are_usable() {
    let config = Config::new(String::from("."))
        .with_ignore_patterns(strings(&[]))
        .with_ignore_matches(strings(&[]));
    assert!(config.get_overrides().is_ok());
    assert!(config.get_ignore_matches().is_ok());
    assert!(config.validate().is_ok());
}
