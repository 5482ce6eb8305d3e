//! Resolving the command-line arguments into a search configuration.

use vstd::prelude::*;

verus! {

/// Why the arguments could not be resolved into a `Config`.
#[derive(Clone, Copy, Debug, PartialEq, Eq, Structural)]
pub enum ConfigError {
    /// No pattern argument was supplied.
    MissingPattern,
    /// A pattern was supplied, but no filename.
    MissingFilename,
}

impl ConfigError {
    /// The reason, as text for a diagnostic.
    pub fn message(&self) -> (m: &'static str)
        ensures
            *self == ConfigError::MissingPattern ==> m@ == "missing pattern"@,
            *self == ConfigError::MissingFilename ==> m@ == "missing filename"@,
    {
        match self {
            ConfigError::MissingPattern => "missing pattern",
            ConfigError::MissingFilename => "missing filename",
        }
    }
}

/// One resolved search request: what to look for, where, and whether case
/// matters.
pub struct Config {
    /// The substring being searched for.
    pub pattern: String,
    /// The path of the file whose lines are searched.
    pub filename: String,
    /// True for the exact matcher, false for the case-insensitive one.
    pub case_sensitive: bool,
}

impl Config {
    /// Resolves the positional arguments, whose first entry is the program's
    /// own invocation name: the pattern comes second and the filename third.
    /// `case_sensitive` is the already-resolved case policy.
    pub fn new(args: Vec<String>, case_sensitive: bool) -> (res: Result<Config, ConfigError>)
        ensures
            args@.len() < 2 ==> res == Result::<Config, ConfigError>::Err(
                ConfigError::MissingPattern,
            ),
            args@.len() == 2 ==> res == Result::<Config, ConfigError>::Err(
                ConfigError::MissingFilename,
            ),
            args@.len() >= 3 ==> res is Ok && res->Ok_0.pattern@ == args@[1]@
                && res->Ok_0.filename@ == args@[2]@ && res->Ok_0.case_sensitive == case_sensitive,
    {
        if args.len() < 2 {
            return Err(ConfigError::MissingPattern);
        }
        if args.len() < 3 {
            return Err(ConfigError::MissingFilename);
        }
        let pattern = args[1].clone();
        let filename = args[2].clone();
        Ok(Config { pattern, filename, case_sensitive })
    }
}

} // verus!
