//! Configuration model: the already-validated values that the rule
//! compiler, the checker and the auto-move resolver are constructed from.
//!
//! Parsing a configuration file into these values is the embedding
//! program's job; everything here is plain data.

use vstd::prelude::*;

verus! {

/// Configuration file contents.
#[derive(Debug)]
pub struct Config {
    pub settings: Settings,
    /// Configured directories, as (path, directory configuration) pairs.
    ///
    /// The list is ordered and the checker keeps its order; a parser that
    /// reads directories from a map (whose keys cannot repeat) hands them
    /// over in whatever order it chooses. A path listed twice is checked
    /// twice.
    pub directories: Vec<(String, DirectoryConfig)>,
    pub automove: AutoMoveConfig,
}

/// General application settings.
#[derive(Debug)]
pub struct Settings {
    /// Whether to use colors in the terminal output.
    pub color: bool,
    /// Whether to use unicode in terminal output.
    pub unicode: bool,
    /// Whether to hide directories (and automove rules) when they are all good.
    pub hide_ok_directories: bool,
}

/// Configuration for a directory.
#[derive(Debug)]
pub struct DirectoryConfig {
    pub recursive: bool,
    /// Children directories to ignore when `recursive` is `true`.
    pub recursive_ignore_children: Vec<MatchRule>,
    /// Allowed sub-directories; absent means unrestricted.
    pub allowed_dirs: Option<Vec<MatchRule>>,
    /// Allowed files; absent means unrestricted.
    pub allowed_files: Option<Vec<MatchRule>>,
}

/// A rule to check if the filename matches.
#[derive(Debug)]
pub enum MatchRule {
    /// Matches the literal filename.
    Name { name: String },
    /// Matches the literal filename extension.
    Extension { ext: String },
    /// Matches a raw regular expression against the filename.
    Pattern { pattern: String },
}

/// Auto-Move configuration.
#[derive(Debug)]
pub struct AutoMoveConfig {
    /// Whether to show "scripts may slow down the execution" warning.
    pub script_warning: bool,
    /// Level of auto-move report info.
    pub report_info: AutoMoveReportInfo,
    /// Security for new users: always run dry.
    pub force_dry_run: bool,
    /// Whether a move may replace an existing destination file.
    pub allow_overwrite: bool,
    pub rules: Vec<AutoMoveRule>,
}

/// What kind of information about Auto-Move files to print
/// at the end of a report.
#[derive(Debug)]
pub enum AutoMoveReportInfo {
    /// Disable this extra info.
    No,
    /// Display if any file can be automatically moved.
    Any,
    /// Display the number of files that can be automatically moved.
    Count,
}

/// A rule to automatically move files.
#[derive(Debug)]
pub struct AutoMoveRule {
    /// Custom rule name.
    pub name: Option<String>,
    /// Parent directory whose contents are examined.
    pub parent: String,
    /// File matcher, applied to the contents of the parent directory.
    pub match_rules: Vec<MatchRule>,
    /// Which directory to move matched files to.
    pub to: String,
    /// Path to a script that gives the output filename.
    pub to_script: Option<String>,
}

impl Default for AutoMoveReportInfo {
    fn default() -> (r: Self)
        ensures
            r is Count,
    {
        Self::Count
    }
}

/// The default of the boolean settings: every one of them starts on.
pub fn default_true() -> (r: bool)
    ensures
        r == true,
{
    true
}

/// Building a component from configuration fails before any scanning
/// begins, on the first bad value.
#[derive(Clone, Copy, PartialEq, Eq, Structural, Debug)]
pub enum ConfigError {
    /// The regex engine rejected a configured pattern.
    InvalidPattern,
    /// Expanding environment references in a configured path failed.
    ExpansionFailed,
    /// No directories were configured to be checked.
    NoDirectories,
}

/// Relies on shellexpand::env: replaces `$VAR` and `${VAR}` references in
/// the input with values from the process environment. The result depends
/// on that environment, so nothing is promised of it; callers treat
/// whatever comes back as the path to use.
#[verifier::external_body]
pub(crate) fn expand_env(input: &str) -> Result<String, String> {
    match shellexpand::env(input) {
        Ok(expanded) => Ok(expanded.into_owned()),
        Err(err) => Err(format!("{}", err)),
    }
}

} // verus!
