//! The commands of the workspace-level command line, as plain values.

use vstd::prelude::*;
use crate::cli::WorldCommands;

verus! {

/// `config` subcommands.
#[derive(Debug)]
pub enum ConfigCommands {
    /// Writes `.multiverse.toml` in the given workspace (the current directory by default).
    Init { workspace: Option<String> },
    Show,
    /// Sets `workspace.default_world`, `git.auto_commit` or `git.auto_push`.
    SetValue { key: String, value: String },
}

/// `diary` subcommands.
#[derive(Debug)]
pub enum DiaryCommands {
    Create { name: String, narrator: String },
    List,
}

/// The top-level commands of the workspace tool.
#[derive(Debug)]
pub enum Commands {
    Config { command: ConfigCommands },
    World { command: WorldCommands },
    Diary { command: DiaryCommands },
    Info,
}

/// The parsed command line of the workspace tool.
#[derive(Debug)]
pub struct Cli {
    pub command: Commands,
}

} // verus!
