//! The commands of the tool act on the file system, on the network and on
//! the user's editor. The library decides what is done next; the program
//! performs each action and reports how it went.
use vstd::prelude::*;
use crate::error::Error;

verus! {

/// Something for the program to do.
#[derive(Debug, Clone, PartialEq, Eq)]
pub enum Action {
    /// Move into the root of the blog (see `util::cd2root`).
    FindRoot,
    /// Create this directory; it must not exist yet.
    CreateDir(String),
    /// Create this directory unless it is one already.
    EnsureDir(String),
    /// Make this directory the current one.
    EnterDir(String),
    /// Write the starter file at this path.
    WriteFile(String),
    /// Delete this directory and all it holds.
    RemoveDirAll(String),
    /// Clone the git repository at `url` into the directory `into`.
    CloneRepo { url: String, into: String },
    /// Report `Outcome::Exists` where something is at this path.
    CheckAbsent(String),
    /// Create this file, which must not exist yet.
    CreateNewFile(String),
    /// Open this file in the editor named by `EDITOR`.
    OpenEditor(String),
    /// Report `Outcome::Exists` where this path is a file.
    CheckFile(String),
    /// Copy the file `from` to `to`.
    CopyFile { from: String, to: String },
    /// Report `Outcome::Listed` with the names of the entries of this
    /// directory that could be read.
    ListDir(String),
}

/// How the last action went.
#[derive(Debug, Clone, PartialEq, Eq)]
pub enum Outcome {
    /// It succeeded (or nothing had been asked yet).
    Done,
    /// It failed because something was not found.
    NotFound(Error),
    /// Something is at the path checked.
    Exists,
    /// It failed otherwise.
    Failed(Error),
    /// The names of the entries of the directory listed.
    Listed(Vec<String>),
}

/// How serious a message is.
#[derive(Debug, Clone, Copy, PartialEq, Eq)]
pub enum Level {
    Info,
    Warn,
    Error,
}

/// A message for the user.
#[derive(Debug, Clone, PartialEq, Eq)]
pub struct Log {
    pub level: Level,
    pub text: String,
}

/// What the program does next.
#[derive(Debug, PartialEq, Eq)]
pub enum Next {
    /// Perform the action and report how it went.
    Perform(Action),
    /// Show the message, then report `Outcome::Done`.
    Say(Log),
    /// The command has ended, with this result.
    Finish(Result<(), Error>),
}

} // verus!
