//! Dependency-usage auditing for JavaScript and TypeScript projects: which
//! declared packages are imported, which are never used, and which imports
//! are missing from the manifest.
//!
//! The library works on what a caller has read from disk. A check runs in
//! these steps:
//!
//! 1. `package` reads the project's manifest out of its JSON text.
//! 2. `config` compiles the patterns for files to skip and for dependency
//!    names to leave out; `walker` decides what a walk of the project tree
//!    does with each entry.
//! 3. `parser` and `source_file` decide the syntax that a file is parsed
//!    with and how each dependency found in it counts as imported; `markup`
//!    tells the texts apart that the parser must not be given. Parsing is
//!    the caller's part.
//! 4. `consulted` names the installed packages whose manifests matter, and
//!    `installed` holds those that could be loaded.
//! 5. `dependency` classifies each import, `checker` gathers the results
//!    into the usage map of `usage`, and `checker_result` derives what is
//!    missing and what is unused.
//!
//! `specifier` holds the grammar of specifiers and package names; `text`,
//! `name_set` and `name_map` hold the ordered collections underneath.
//! `glob`, `overrides` and `json` state what the outside crates are trusted
//! to do.

pub mod checker;
pub mod checker_result;
pub mod config;
pub mod consulted;
pub mod dependency;
pub mod glob;
pub mod installed;
pub mod json;
pub mod markup;
pub mod name_map;
pub mod name_set;
pub mod overrides;
pub mod package;
pub mod parser;
pub mod source_file;
pub mod specifier;
pub mod text;
pub mod usage;
pub mod walker;
