//! The settings of one check: where the project lies, what to skip while
//! walking it, and which dependency names to leave out of the verdict.

use vstd::prelude::*;
use vstd::string::StringExecFns;
use globset::GlobSet;
use crate::glob::{
    add_glob, build_glob_set, builder_patterns, glob_parses, glob_set_builds, glob_set_patterns,
    new_builder,
};
use crate::name_set::name_views;
use crate::overrides::{
    add_override, build_override, builder_lines, is_white_space,
    kept_line, new_override_builder, override_builds, override_lines, override_parses,
    trimmed_end,
};
use ignore::overrides::Override;

verus! {

/// What a `Config` holds, as plain values.
pub struct ConfigView {
    pub directory: Seq<char>,
    pub ignore_bin_package: bool,
    pub ignore_patterns: Seq<Seq<char>>,
    pub ignore_matches: Seq<Seq<char>>,
    pub skip_missing: bool,
    pub ignore_path: Option<Seq<char>>,
    pub read_depcheckignore: bool,
}

/// Config for dependency checker.
#[derive(Debug)]
pub struct Config {
    /// The root directory of the project.
    directory: String,
    /// Whether packages that offer an executable are left out of the
    /// verdict.
    ignore_bin_package: bool,
    /// Patterns describing files and directories to skip.
    ignore_patterns: Vec<String>,
    /// Patterns describing dependency names to leave out of the verdict.
    ignore_matches: Vec<String>,
    /// Whether the calculation of missing dependencies is skipped.
    skip_missing: bool,
    /// Path to a file with further patterns describing files to skip.
    ignore_path: Option<String>,
    /// Whether `.depcheckignore` files met on the walk are honoured.
    read_depcheckignore: bool,
}

/// The options of a checker: another name for `Config`.
pub type CheckerOptions = Config;

/// Why a `Config` cannot be used.
#[derive(Debug)]
pub enum ConfigError {
    /// This pattern for files to skip is malformed.
    MalformedIgnorePattern(String),
    /// Each pattern for files to skip is valid, but together they cannot be
    /// compiled into one matcher.
    UnbuildableOverrides,
    /// This dependency-name pattern is no valid glob.
    MalformedPattern(String),
    /// Each dependency-name pattern is valid, but together they cannot be
    /// compiled into one matcher.
    UnbuildableMatcher,
}

/// The override line that keeps the paths matching `pattern` out of a walk:
/// the pattern behind a `!`.
pub open spec fn exclusion_line(pattern: Seq<char>) -> Seq<char> {
    seq!['!'] + pattern
}

/// The override lines for a sequence of patterns, in the same order.
pub open spec fn exclusion_lines(patterns: Seq<Seq<char>>) -> Seq<Seq<char>> {
    Seq::new(patterns.len(), |i: int| exclusion_line(patterns[i]))
}

/// What a matcher keeps of the override lines for a sequence of patterns,
/// in the same order: each line without the white space at its end.
pub open spec fn kept_exclusions(patterns: Seq<Seq<char>>) -> Seq<Seq<char>> {
    Seq::new(patterns.len(), |i: int| kept_line(exclusion_line(patterns[i]))->0)
}

/// A line that begins with a character that is no white space keeps that
/// beginning when the white space at its end is taken off.
pub proof fn lemma_trimmed_end_keeps_head(line: Seq<char>)
    requires
        line.len() > 0,
        !is_white_space(line[0]),
    ensures
        trimmed_end(line).len() > 0,
        trimmed_end(line)[0] == line[0],
    decreases line.len(),
{
    if is_white_space(line.last()) {
        assert(line.len() > 1);
        assert(line.drop_last()[0] == line[0]);
        lemma_trimmed_end_keeps_head(line.drop_last());
    }
}

/// The override line for a pattern is neither a comment nor blank: a
/// matcher keeps a line for every pattern.
pub proof fn lemma_exclusion_is_kept(pattern: Seq<char>)
    ensures
        kept_line(exclusion_line(pattern)) is Some,
        kept_line(exclusion_line(pattern))->0[0] == '!',
{
    let line = exclusion_line(pattern);
    assert(line[0] == '!');
    lemma_trimmed_end_keeps_head(line);
}

/// For a pattern without white space at its end, the matcher keeps the
/// override line as it stands.
pub proof fn lemma_plain_exclusion_is_kept_whole(pattern: Seq<char>)
    requires
        pattern.len() == 0 || !is_white_space(pattern.last()),
    ensures
        kept_line(exclusion_line(pattern)) == Some(exclusion_line(pattern)),
{
    let line = exclusion_line(pattern);
    assert(line[0] == '!');
    if pattern.len() > 0 {
        assert(line.last() == pattern.last());
    }
    assert(trimmed_end(line) == line);
}

/// Every line of the sequence is accepted as an override.
pub open spec fn all_overrides_parse(lines: Seq<Seq<char>>) -> bool {
    forall|i: int| 0 <= i < lines.len() ==> override_parses(#[trigger] lines[i])
}

/// The line at `i` is the first of the sequence that is refused as an
/// override.
pub open spec fn is_first_refused(lines: Seq<Seq<char>>, i: int) -> bool {
    &&& 0 <= i < lines.len()
    &&& !override_parses(lines[i])
    &&& forall|j: int| 0 <= j < i ==> override_parses(#[trigger] lines[j])
}

/// The files and directories that a walk skips unless told otherwise:
/// version-control and editor directories, installed modules, build output,
/// and images, fonts, archives and videos by extension.
pub open spec fn default_ignore_patterns() -> Seq<Seq<char>> {
    seq![
        ".git"@,
        ".svn"@,
        ".hg"@,
        ".idea"@,
        "node_modules"@,
        "dist"@,
        "build"@,
        "bower_components"@,
        "*.png"@,
        "*.gif"@,
        "*.jpg"@,
        "*.jpeg"@,
        "*.svg"@,
        "*.woff"@,
        "*.woff2"@,
        "*.eot"@,
        "*.ttf"@,
        "*.zip"@,
        "*.gz"@,
        "*.mp4"@,
    ]
}

/// Every pattern of the sequence is a valid glob.
pub open spec fn all_globs_parse(patterns: Seq<Seq<char>>) -> bool {
    forall|i: int| 0 <= i < patterns.len() ==> glob_parses(#[trigger] patterns[i])
}

/// The pattern at `i` is the first of the sequence that is no valid glob.
pub open spec fn is_first_malformed(patterns: Seq<Seq<char>>, i: int) -> bool {
    &&& 0 <= i < patterns.len()
    &&& !glob_parses(patterns[i])
    &&& forall|j: int| 0 <= j < i ==> glob_parses(#[trigger] patterns[j])
}

/// Both pattern lists of the config compile: every pattern for files to
/// skip is accepted and their matcher can be built, and the same holds of
/// the patterns for dependency names.
pub open spec fn is_usable(config: ConfigView) -> bool {
    &&& all_overrides_parse(exclusion_lines(config.ignore_patterns))
    &&& override_builds(kept_exclusions(config.ignore_patterns))
    &&& all_globs_parse(config.ignore_matches)
    &&& glob_set_builds(config.ignore_matches)
}

/// Whether `error` is what is wrong with the config. The patterns for files
/// to skip are judged before the patterns for dependency names, each list
/// in its order, so a config has at most one such error.
pub open spec fn is_refusal(error: ConfigError, config: ConfigView) -> bool {
    match error {
        ConfigError::MalformedIgnorePattern(pattern) => exists|i: int|
            is_first_refused(exclusion_lines(config.ignore_patterns), i) && pattern@
                == config.ignore_patterns[i],
        ConfigError::UnbuildableOverrides => {
            &&& all_overrides_parse(exclusion_lines(config.ignore_patterns))
            &&& !override_builds(kept_exclusions(config.ignore_patterns))
        },
        ConfigError::MalformedPattern(pattern) => {
            &&& all_overrides_parse(exclusion_lines(config.ignore_patterns))
            &&& override_builds(kept_exclusions(config.ignore_patterns))
            &&& exists|i: int|
                is_first_malformed(config.ignore_matches, i) && pattern@
                    == config.ignore_matches[i]
        },
        ConfigError::UnbuildableMatcher => {
            &&& all_overrides_parse(exclusion_lines(config.ignore_patterns))
            &&& override_builds(kept_exclusions(config.ignore_patterns))
            &&& all_globs_parse(config.ignore_matches)
            &&& !glob_set_builds(config.ignore_matches)
        },
    }
}

/// A config that is refused is not usable.
pub proof fn lemma_refusal_excludes_use(error: ConfigError, config: ConfigView)
    requires
        is_refusal(error, config),
    ensures
        !is_usable(config),
{
}

impl View for Config {
    type V = ConfigView;

    closed spec fn view(&self) -> ConfigView {
        ConfigView {
            directory: self.directory@,
            ignore_bin_package: self.ignore_bin_package,
            ignore_patterns: name_views(self.ignore_patterns@),
            ignore_matches: name_views(self.ignore_matches@),
            skip_missing: self.skip_missing,
            ignore_path: match self.ignore_path {
                Some(path) => Some(path@),
                None => None,
            },
            read_depcheckignore: self.read_depcheckignore,
        }
    }
}

impl Config {
    /// A config for the project at `directory`, with the default patterns
    /// for files to skip and every option switched off.
    pub fn new(directory: String) -> (config: Config)
        ensures
            config@ == (ConfigView {
                directory: directory@,
                ignore_bin_package: false,
                ignore_patterns: default_ignore_patterns(),
                ignore_matches: Seq::<Seq<char>>::empty(),
                skip_missing: false,
                ignore_path: None,
                read_depcheckignore: false,
            }),
    {
        let mut ignore_patterns: Vec<String> = Vec::new();
        ignore_patterns.push(String::from_str(".git"));
        ignore_patterns.push(String::from_str(".svn"));
        ignore_patterns.push(String::from_str(".hg"));
        ignore_patterns.push(String::from_str(".idea"));
        ignore_patterns.push(String::from_str("node_modules"));
        ignore_patterns.push(String::from_str("dist"));
        ignore_patterns.push(String::from_str("build"));
        ignore_patterns.push(String::from_str("bower_components"));
        // Images
        ignore_patterns.push(String::from_str("*.png"));
        ignore_patterns.push(String::from_str("*.gif"));
        ignore_patterns.push(String::from_str("*.jpg"));
        ignore_patterns.push(String::from_str("*.jpeg"));
        ignore_patterns.push(String::from_str("*.svg"));
        // Fonts
        ignore_patterns.push(String::from_str("*.woff"));
        ignore_patterns.push(String::from_str("*.woff2"));
        ignore_patterns.push(String::from_str("*.eot"));
        ignore_patterns.push(String::from_str("*.ttf"));
        // Archives
        ignore_patterns.push(String::from_str("*.zip"));
        ignore_patterns.push(String::from_str("*.gz"));
        // Videos
        ignore_patterns.push(String::from_str("*.mp4"));
        let config = Config {
            directory,
            ignore_patterns,
            skip_missing: false,
            ignore_bin_package: false,
            ignore_matches: Vec::new(),
            ignore_path: None,
            read_depcheckignore: false,
        };
        assert(config@.ignore_patterns =~= default_ignore_patterns());
        assert(config@.ignore_matches =~= Seq::<Seq<char>>::empty());
        config
    }

    /// Replaces the patterns describing files to skip. The default patterns
    /// are dropped, not added to.
    pub fn with_ignore_patterns(self, ignore_patterns: Vec<String>) -> (config: Config)
        ensures
            config@ == (ConfigView { ignore_patterns: name_views(ignore_patterns@), ..self@ }),
    {
        let mut config = self;
        config.ignore_patterns = ignore_patterns;
        config
    }

    /// Adds patterns describing files to skip to those that the config
    /// holds, behind them.
    pub fn with_added_ignore_patterns(self, ignore_patterns: Vec<String>) -> (config: Config)
        ensures
            config@ == (ConfigView {
                ignore_patterns: self@.ignore_patterns + name_views(ignore_patterns@),
                ..self@
            }),
    {
        let mut config = self;
        let ghost before = config@;
        let mut i: usize = 0;
        while i < ignore_patterns.len()
            invariant
                i <= ignore_patterns.len(),
                config@ == (ConfigView {
                    ignore_patterns: before.ignore_patterns + name_views(ignore_patterns@).take(
                        i as int,
                    ),
                    ..before
                }),
            decreases ignore_patterns.len() - i,
        {
            let ghost held = config@.ignore_patterns;
            config.ignore_patterns.push(ignore_patterns[i].clone());
            proof {
                let more = name_views(ignore_patterns@);
                assert(config@.ignore_patterns =~= held.push(more[i as int]));
                assert(more.take(i + 1) =~= more.take(i as int).push(more[i as int]));
                assert(config@.ignore_patterns =~= before.ignore_patterns + more.take(i + 1));
            }
            i += 1;
        }
        proof {
            let more = name_views(ignore_patterns@);
            assert(more.take(i as int) =~= more);
        }
        config
    }

    /// Sets whether the calculation of missing dependencies is skipped.
    pub fn with_skip_missing(self, skip_missing: bool) -> (config: Config)
        ensures
            config@ == (ConfigView { skip_missing, ..self@ }),
    {
        let mut config = self;
        config.skip_missing = skip_missing;
        config
    }

    /// Sets whether packages that offer an executable are left out of the
    /// verdict.
    pub fn with_ignore_bin_package(self, ignore_bin_package: bool) -> (config: Config)
        ensures
            config@ == (ConfigView { ignore_bin_package, ..self@ }),
    {
        let mut config = self;
        config.ignore_bin_package = ignore_bin_package;
        config
    }

    /// Replaces the patterns describing dependency names to leave out of the
    /// verdict.
    pub fn with_ignore_matches(self, ignore_matches: Vec<String>) -> (config: Config)
        ensures
            config@ == (ConfigView { ignore_matches: name_views(ignore_matches@), ..self@ }),
    {
        let mut config = self;
        config.ignore_matches = ignore_matches;
        config
    }

    /// Sets the path of a file with further patterns describing files to
    /// skip.
    pub fn with_ignore_path(self, ignore_path: Option<String>) -> (config: Config)
        ensures
            config@ == (ConfigView {
                ignore_path: match ignore_path {
                    Some(path) => Some(path@),
                    None => None,
                },
                ..self@
            }),
    {
        let mut config = self;
        config.ignore_path = ignore_path;
        config
    }

    /// Sets whether `.depcheckignore` files met on the walk are honoured.
    pub fn with_read_depcheckignore(self, read_depcheckignore: bool) -> (config: Config)
        ensures
            config@ == (ConfigView { read_depcheckignore, ..self@ }),
    {
        let mut config = self;
        config.read_depcheckignore = read_depcheckignore;
        config
    }

    /// Whether packages that offer an executable are left out of the
    /// verdict.
    pub fn ignore_bin_package(&self) -> (b: bool)
        ensures
            b == self@.ignore_bin_package,
    {
        self.ignore_bin_package
    }

    /// Whether the calculation of missing dependencies is skipped.
    pub fn skip_missing(&self) -> (b: bool)
        ensures
            b == self@.skip_missing,
    {
        self.skip_missing
    }

    /// Whether `.depcheckignore` files met on the walk are honoured.
    pub fn read_depcheckignore(&self) -> (b: bool)
        ensures
            b == self@.read_depcheckignore,
    {
        self.read_depcheckignore
    }

    /// The path of the file with further patterns describing files to skip,
    /// if one was given.
    pub fn ignore_path(&self) -> (path: Option<&str>)
        ensures
            path is Some <==> self@.ignore_path is Some,
            path is Some ==> path->0@ == self@.ignore_path->0,
    {
        match &self.ignore_path {
            Some(path) => Some(path.as_str()),
            None => None,
        }
    }

    /// The patterns describing files to skip.
    pub fn get_ignore_patterns(&self) -> (patterns: &Vec<String>)
        ensures
            name_views(patterns@) == self@.ignore_patterns,
    {
        &self.ignore_patterns
    }

    /// The root directory of the project.
    pub fn get_directory(&self) -> (directory: &str)
        ensures
            directory@ == self@.directory,
    {
        self.directory.as_str()
    }

    /// Compiles the patterns describing files to skip into the matcher that
    /// a walk of the project takes as its overrides. Each pattern excludes
    /// what it matches.
    ///
    /// Fails on the first pattern that is malformed, naming it; fails too
    /// where each pattern is valid but the set cannot be compiled. Without
    /// patterns it succeeds. The matcher it returns is made of one excluding
    /// line for each pattern, in the patterns' order, each without the white
    /// space at its end.
    pub fn get_overrides(&self) -> (r: Result<Override, ConfigError>)
        ensures
            self@.ignore_patterns.len() == 0 ==> r is Ok,
            match r {
                Ok(matcher) => {
                    &&& all_overrides_parse(exclusion_lines(self@.ignore_patterns))
                    &&& override_builds(kept_exclusions(self@.ignore_patterns))
                    &&& override_lines(matcher) == kept_exclusions(self@.ignore_patterns)
                },
                Err(ConfigError::MalformedIgnorePattern(pattern)) => exists|i: int|
                    is_first_refused(exclusion_lines(self@.ignore_patterns), i) && pattern@
                        == self@.ignore_patterns[i],
                Err(ConfigError::UnbuildableOverrides) => {
                    &&& all_overrides_parse(exclusion_lines(self@.ignore_patterns))
                    &&& !override_builds(kept_exclusions(self@.ignore_patterns))
                },
                Err(_) => false,
            },
    {
        let mut builder = new_override_builder(self.directory.as_str());
        let ghost patterns = self@.ignore_patterns;
        let ghost lines = exclusion_lines(patterns);
        let ghost kept = kept_exclusions(patterns);
        let mut i: usize = 0;
        while i < self.ignore_patterns.len()
            invariant
                i <= self.ignore_patterns.len(),
                patterns == name_views(self.ignore_patterns@),
                lines == exclusion_lines(patterns),
                kept == kept_exclusions(patterns),
                builder_lines(builder) == kept.take(i as int),
                forall|j: int| 0 <= j < i ==> override_parses(#[trigger] lines[j]),
            decreases self.ignore_patterns.len() - i,
        {
            let line = String::from_str("!").concat(self.ignore_patterns[i].as_str());
            proof {
                reveal_strlit("!");
                assert("!"@ =~= seq!['!']);
                assert(line@ == lines[i as int]);
                lemma_exclusion_is_kept(patterns[i as int]);
            }
            match add_override(&mut builder, line.as_str()) {
                Ok(_) => {
                    assert(kept.take(i as int).push(kept[i as int]) =~= kept.take(i + 1));
                },
                Err(_) => {
                    let pattern = self.ignore_patterns[i].clone();
                    assert(patterns == self@.ignore_patterns);
                    assert(pattern@ == patterns[i as int]);
                    assert(is_first_refused(lines, i as int));
                    return Err(ConfigError::MalformedIgnorePattern(pattern));
                },
            }
            i += 1;
        }
        assert(kept.take(i as int) =~= kept);
        match build_override(&builder) {
            Ok(matcher) => Ok(matcher),
            Err(_) => Err(ConfigError::UnbuildableOverrides),
        }
    }

    /// Tells whether the config can be used: whether both its patterns for
    /// files to skip and its patterns for dependency names compile. The
    /// patterns for files are judged first.
    pub fn validate(&self) -> (r: Result<(), ConfigError>)
        ensures
            self@.ignore_patterns.len() == 0 && self@.ignore_matches.len() == 0 ==> r is Ok,
            r is Ok <==> is_usable(self@),
            r is Err ==> is_refusal(r->Err_0, self@),
    {
        match self.get_overrides() {
            Ok(_) => {},
            Err(error) => {
                return Err(error);
            },
        }
        match self.get_ignore_matches() {
            Ok(_) => Ok(()),
            Err(error) => Err(error),
        }
    }

    /// Compiles the patterns describing dependency names into one matcher.
    ///
    /// Fails on the first pattern that is no valid glob, naming it; fails
    /// too where each pattern is valid but the set cannot be compiled.
    /// Without patterns it succeeds. The matcher it returns is made of
    /// exactly the config's patterns, in their order.
    pub fn get_ignore_matches(&self) -> (r: Result<GlobSet, ConfigError>)
        ensures
            self@.ignore_matches.len() == 0 ==> r is Ok,
            match r {
                Ok(set) => {
                    &&& all_globs_parse(self@.ignore_matches)
                    &&& glob_set_builds(self@.ignore_matches)
                    &&& glob_set_patterns(set) == self@.ignore_matches
                },
                Err(ConfigError::MalformedPattern(pattern)) => exists|i: int|
                    is_first_malformed(self@.ignore_matches, i) && pattern@
                        == self@.ignore_matches[i],
                Err(ConfigError::UnbuildableMatcher) => {
                    &&& all_globs_parse(self@.ignore_matches)
                    &&& !glob_set_builds(self@.ignore_matches)
                },
                Err(_) => false,
            },
    {
        let mut builder = new_builder();
        let ghost patterns = self@.ignore_matches;
        let mut i: usize = 0;
        while i < self.ignore_matches.len()
            invariant
                i <= self.ignore_matches.len(),
                patterns == name_views(self.ignore_matches@),
                builder_patterns(builder) == patterns.take(i as int),
                forall|j: int| 0 <= j < i ==> glob_parses(#[trigger] patterns[j]),
            decreases self.ignore_matches.len() - i,
        {
            match add_glob(&mut builder, self.ignore_matches[i].as_str()) {
                Ok(_) => {
                    assert(patterns.take(i as int).push(patterns[i as int]) =~= patterns.take(
                        i + 1,
                    ));
                },
                Err(_) => {
                    let pattern = self.ignore_matches[i].clone();
                    assert(patterns == self@.ignore_matches);
                    assert(pattern@ == patterns[i as int]);
                    assert(is_first_malformed(patterns, i as int));
                    return Err(ConfigError::MalformedPattern(pattern));
                },
            }
            i += 1;
        }
        assert(patterns.take(i as int) =~= patterns);
        match build_glob_set(&builder) {
            Ok(set) => Ok(set),
            Err(_) => Err(ConfigError::UnbuildableMatcher),
        }
    }
}

} // verus!
