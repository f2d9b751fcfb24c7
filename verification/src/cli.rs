//! The command line: the subcommands, the output format, and where the
//! repository is.
use vstd::prelude::*;

use crate::error::ProbeError;
use crate::text::{chars_of, string_of, trim, trim_exec};

verus! {

broadcast use vstd::string::group_string_axioms;

/// How results are written.
pub enum OutputFormat {
    Json,
    Text,
}

/// What `probe` is asked to do.
pub enum Command {
    /// Detect stack, git state, tools and lockfiles.
    Scan,
    /// Save the current scan for a later diff.
    Snapshot,
    /// Compare the current state with a saved snapshot (a path, or
    /// `latest`).
    Diff { against: String },
    /// The preflight summary: blockers, warnings, suggested commands.
    Doctor,
    /// The compact cold-start read of the repository.
    Brief,
}

/// The parsed command line.
pub struct Cli {
    /// The project root, when given.
    pub repo: Option<String>,
    pub format: OutputFormat,
    pub command: Command,
}

impl Cli {
    /// Is the output JSON?
    pub fn is_json(&self) -> (r: bool)
        ensures
            r == (self.format is Json),
    {
        match self.format {
            OutputFormat::Json => true,
            OutputFormat::Text => false,
        }
    }
}

/// The repository `probe` works on: the one given on the command line,
/// else the top level `git rev-parse --show-toplevel` printed (trimmed),
/// else the current directory.
pub open spec fn repo_choice(
    flag: Option<Seq<char>>,
    toplevel: Option<Seq<char>>,
    cwd: Result<Seq<char>, Seq<char>>,
) -> Result<Seq<char>, Seq<char>> {
    match flag {
        Some(r) => Ok(r),
        None => match toplevel {
            Some(t) => Ok(trim(t)),
            None => cwd,
        },
    }
}

/// Chooses the repository: `toplevel` is what a
/// successful `git rev-parse --show-toplevel` printed, `cwd` the current
/// directory or the message of the failure to learn it.
pub fn resolve_repo_from(flag: Option<String>, toplevel: Option<String>, cwd: Result<String, String>) -> (r:
    Result<String, ProbeError>)
    ensures
        match repo_choice(
            flag.deep_view(),
            toplevel.deep_view(),
            match cwd {
                Ok(c) => Ok(c@),
                Err(e) => Err(e@),
            },
        ) {
            Ok(p) => r matches Ok(s) && s@ == p,
            Err(e) => r matches Err(ProbeError::Io(m)) && m@ == e,
        },
{
    match flag {
        Some(r) => Ok(r),
        None => match toplevel {
            Some(t) => {
                let c = chars_of(t.as_str());
                let tt = trim_exec(c.as_slice());
                Ok(string_of(tt.as_slice()))
            },
            None => match cwd {
                Ok(c) => Ok(c),
                Err(e) => Err(ProbeError::Io(e)),
            },
        },
    }
}

} // verus!
