//! Command-line options.
//!
//! The options of Ricer's command set as plain values. Parsing the command
//! line into them is left to the binary.

use vstd::prelude::*;

use crate::context::{FixupAction, HookAction};

verus! {

/// Parsed command line: the options shared by every command, and the
/// command with its own options.
#[derive(Debug, PartialEq, Eq)]
pub struct Cli {
    pub shared_opts: SharedOptions,
    pub cmd_set: CommandSet,
}

/// Ricer's command set. Any other command is a shortcut that runs Git on a
/// repository: its words, starting with the repository's name.
#[derive(Debug, PartialEq, Eq)]
pub enum CommandSet {
    Bootstrap(BootstrapOptions),
    Clone(CloneOptions),
    Commit(CommitOptions),
    Delete(DeleteOptions),
    Enter(EnterOptions),
    Init(InitOptions),
    List(ListOptions),
    Push(PushOptions),
    Pull(PullOptions),
    Rename(RenameOptions),
    Status(StatusOptions),
    Git(Vec<String>),
}

/// Options shared by every command.
#[derive(Debug, PartialEq, Eq)]
pub struct SharedOptions {
    /// What to do with command hooks.
    pub run_hook: HookAction,
}

/// Options of `bootstrap`.
#[derive(Debug, PartialEq, Eq)]
pub struct BootstrapOptions {
    pub config: Option<String>,
    pub from: Option<String>,
    pub only: Option<Vec<String>>,
}

/// Options of `commit`.
#[derive(Debug, PartialEq, Eq)]
pub struct CommitOptions {
    pub fixup: Option<FixupAction>,
    pub message: Option<String>,
}

/// Options of `clone`.
#[derive(Debug, PartialEq, Eq)]
pub struct CloneOptions {
    pub remote: String,
    pub repo: Option<String>,
}

/// Options of `delete`.
#[derive(Debug, PartialEq, Eq)]
pub struct DeleteOptions {
    pub repo: String,
}

/// Options of `enter`.
#[derive(Debug, PartialEq, Eq)]
pub struct EnterOptions {
    pub repo: String,
}

/// Options of `init`.
#[derive(Debug, PartialEq, Eq)]
pub struct InitOptions {
    pub name: String,
    pub workdir_home: bool,
    pub branch: Option<String>,
    pub remote: Option<String>,
}

/// Options of `list`.
#[derive(Debug, PartialEq, Eq)]
pub struct ListOptions {
    pub show_tracked: bool,
    pub untracked: bool,
}

/// Options of `push`.
#[derive(Debug, PartialEq, Eq)]
pub struct PushOptions {
    pub remote: Option<String>,
    pub branch: Option<String>,
}

/// Options of `pull`.
#[derive(Debug, PartialEq, Eq)]
pub struct PullOptions {
    pub remote: Option<String>,
    pub branch: Option<String>,
}

/// Options of `rename`.
#[derive(Debug, PartialEq, Eq)]
pub struct RenameOptions {
    pub from: String,
    pub to: String,
}

/// Options of `status`.
#[derive(Debug, PartialEq, Eq)]
pub struct StatusOptions {
    pub terse: bool,
}

} // verus!
