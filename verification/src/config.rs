//! The tool's configuration: binding the command-line tokens to a query, a
//! file path and a case flag, and resolving the effective case mode.
//!
//! The token at index 1 is the query and the token at index 2 the file
//! path; both are required, and fewer than three tokens is the one parse
//! error.  A fourth token is read as a case flag: `-s` asks for sensitive
//! and `-i` for insensitive search, any other value counts as no flag.
//! The environment's say (whether `IGNORE_CASE` is set) is handed in as a
//! boolean and overrides the flag.

use vstd::prelude::*;
use vstd::string::StrSliceExecFns;

use crate::search::matched_lines;
use crate::search::search;
use crate::search::search_case_insensitive;
use crate::text::str_eq;

verus! {

/// What the optional third positional argument asked for.
#[derive(Clone, Copy, Debug, PartialEq, Eq, Structural)]
pub enum CaseFlag {
    /// The token `-s`: case-sensitive search.
    Sensitive,
    /// The token `-i`: case-insensitive search.
    Insensitive,
    /// No fourth token, or one with any other value.
    NoFlag,
}

/// The validated configuration of one invocation.
#[derive(Debug)]
pub struct Config {
    /// The string to search for, exactly as given.
    pub query: String,
    /// The path of the file to search, opaque to the search itself.
    pub file_path: String,
    /// Whether the environment variable `IGNORE_CASE` was set.
    pub ignore_case: bool,
    /// What the command-line flag asked for.
    pub cli_case: CaseFlag,
}

/// The case flag carried by a token sequence: the fourth token read as a
/// flag, when there are exactly four tokens.
pub open spec fn spec_case_flag(args: Seq<String>) -> CaseFlag {
    if args.len() == 4 && args[3]@ == "-s"@ {
        CaseFlag::Sensitive
    } else if args.len() == 4 && args[3]@ == "-i"@ {
        CaseFlag::Insensitive
    } else {
        CaseFlag::NoFlag
    }
}

/// The effective case mode of a configuration: the environment wins,
/// then an explicit flag, and the default is sensitive.
pub open spec fn spec_insensitive(c: Config) -> bool {
    if c.ignore_case {
        true
    } else if c.cli_case == CaseFlag::Sensitive {
        false
    } else if c.cli_case == CaseFlag::Insensitive {
        true
    } else {
        false
    }
}

/// The informational line naming the effective mode and what chose it.
pub open spec fn spec_banner(c: Config) -> Seq<char> {
    if c.ignore_case {
        "Insensitive search"@
    } else if c.cli_case == CaseFlag::Sensitive {
        "Sensitive search with CLI argument"@
    } else if c.cli_case == CaseFlag::Insensitive {
        "Insensitive search with CLI argument"@
    } else {
        "Sensitive search"@
    }
}

impl Config {
    /// Binds the token sequence to a configuration.  Fails exactly when
    /// fewer than three tokens are given; every other token sequence yields
    /// the query, the file path and the case flag.  `ignore_case` says
    /// whether the environment variable `IGNORE_CASE` is set.
    pub fn build(args: &Vec<String>, ignore_case: bool) -> (result: Result<Config, &'static str>)
        ensures
            (result is Err) <==> args@.len() < 3,
            result matches Err(m) ==> m@ == "Not enough arguments"@,
            result matches Ok(c) ==> {
                &&& c.query@ == args@[1]@
                &&& c.file_path@ == args@[2]@
                &&& c.ignore_case == ignore_case
                &&& c.cli_case == spec_case_flag(args@)
            },
    {
        if args.len() < 3 {
            return Err("Not enough arguments");
        }
        let query = args[1].clone();
        let file_path = args[2].clone();
        let cli_case = if args.len() == 4 {
            if str_eq(args[3].as_str(), "-s") {
                CaseFlag::Sensitive
            } else if str_eq(args[3].as_str(), "-i") {
                CaseFlag::Insensitive
            } else {
                CaseFlag::NoFlag
            }
        } else {
            CaseFlag::NoFlag
        };
        Ok(Config { query, file_path, ignore_case, cli_case })
    }

    /// The effective case mode.  When `IGNORE_CASE` was set the search is
    /// insensitive, whatever the command-line flag said.
    pub fn is_case_insensitive(&self) -> (insensitive: bool)
        ensures
            insensitive == spec_insensitive(*self),
            self.ignore_case ==> insensitive,
    {
        if self.ignore_case {
            true
        } else if self.cli_case == CaseFlag::Sensitive {
            false
        } else if self.cli_case == CaseFlag::Insensitive {
            true
        } else {
            false
        }
    }

    /// The informational line to print before the matches.
    pub fn search_banner(&self) -> (banner: &'static str)
        ensures
            banner@ == spec_banner(*self),
    {
        if self.ignore_case {
            "Insensitive search"
        } else if self.cli_case == CaseFlag::Sensitive {
            "Sensitive search with CLI argument"
        } else if self.cli_case == CaseFlag::Insensitive {
            "Insensitive search with CLI argument"
        } else {
            "Sensitive search"
        }
    }
}

/// Searches `contents` for the configuration's query under the
/// configuration's effective case mode.
pub fn run_search<'a>(config: &Config, contents: &'a str) -> (found: Vec<&'a str>)
    ensures
        found.deep_view() == matched_lines(config.query@, contents@, spec_insensitive(*config)),
{
    if config.is_case_insensitive() {
        search_case_insensitive(config.query.as_str(), contents)
    } else {
        search(config.query.as_str(), contents)
    }
}

} // verus!
