//! The command line: its one optional argument, and how a run ends.

use crate::text::views;
use vstd::prelude::*;

verus! {

/// The command line arguments.
#[derive(Debug, Clone)]
pub struct CliArgs {
    /// The path of a directory to process at once.
    pub path: Option<String>,
}

/// How a run begins.
#[derive(Debug, PartialEq, Eq, Clone, Copy)]
pub enum Launch {
    /// No path was given: the selection form is shown.
    Interactive,
    /// The given path exists: it is processed at once, with the built-in
    /// extensions.
    Direct,
    /// The given path does not exist: the run fails before anything is
    /// written.
    MissingTarget,
}

/// How a run ended.
#[derive(Debug, PartialEq, Eq, Clone, Copy)]
pub enum Outcome {
    /// The artifact was written.
    Completed,
    /// The form was closed without a directory or without a file type.
    Cancelled,
    /// The path given on the command line does not exist.
    MissingTarget,
    /// The selected path is no directory.
    NotADirectory,
    /// The artifact could not be produced or written.
    ArtifactFailed,
}

/// The extensions that a run started from the command line allows.
pub open spec fn builtin_extension_views() -> Seq<Seq<char>> {
    seq!["rs"@, "json"@, "lua"@]
}

/// The extensions that a run started from the command line allows: those
/// of the built-in file type groups.
pub fn builtin_extensions() -> (extensions: Vec<String>)
    ensures
        views(extensions@) == builtin_extension_views(),
{
    let mut extensions: Vec<String> = Vec::new();
    extensions.push(String::from_str("rs"));
    extensions.push(String::from_str("json"));
    extensions.push(String::from_str("lua"));
    assert(views(extensions@) =~= builtin_extension_views());
    extensions
}

impl CliArgs {
    /// How the run begins. `exists` says whether the given path exists; it
    /// is not looked at where no path was given.
    pub fn launch(&self, exists: bool) -> (launch: Launch)
        ensures
            launch == (if self.path is None {
                Launch::Interactive
            } else if exists {
                Launch::Direct
            } else {
                Launch::MissingTarget
            }),
    {
        if self.path.is_none() {
            Launch::Interactive
        } else if exists {
            Launch::Direct
        } else {
            Launch::MissingTarget
        }
    }
}

/// The status that the process ends with: 0 for a run that completed or was
/// cancelled, 1 for everything that kept the artifact from being produced.
pub fn exit_code(outcome: Outcome) -> (code: i32)
    ensures
        code == (match outcome {
            Outcome::Completed | Outcome::Cancelled => 0i32,
            _ => 1i32,
        }),
{
    match outcome {
        Outcome::Completed | Outcome::Cancelled => 0,
        _ => 1,
    }
}

} // verus!
