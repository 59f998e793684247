//! The commands of the command line, as plain values.

use vstd::prelude::*;
use crate::setargs::SetArg;

verus! {

/// `character` subcommands.
#[derive(Debug)]
pub enum CharacterCommands {
    /// Creates a character; `--set` gives any field, status or metadata.
    Create { name: String, set: Vec<SetArg> },
    List,
    Info { name: String },
    Delete { name: String, force: bool },
    Update { name: String, set: Vec<SetArg> },
}

/// `location` subcommands.
#[derive(Debug)]
pub enum LocationCommands {
    /// Creates a location; `--set` gives any field, status or metadata.
    Create { name: String, set: Vec<SetArg> },
    List,
    Info { name: String },
    Delete { name: String, force: bool },
    Update { name: String, set: Vec<SetArg> },
}

/// `race` subcommands.
#[derive(Debug)]
pub enum RaceCommands {
    Create { name: String, set: Vec<SetArg> },
    List,
    Info { name: String },
    Delete { name: String, force: bool },
    Update { name: String, set: Vec<SetArg> },
}

/// `event` subcommands.
#[derive(Debug)]
pub enum EventCommands {
    Create { name: String, set: Vec<SetArg> },
    List,
    /// Lists the events in chronological order.
    Timeline,
    Info { name: String },
    Delete { name: String, force: bool },
    Update { name: String, set: Vec<SetArg> },
}

/// `faction` subcommands.
#[derive(Debug)]
pub enum FactionCommands {
    Create { name: String, display_name: String, faction_type: String, set: Vec<(String, String)> },
    List,
    Info { name: String },
    Delete { name: String, force: bool },
    Update { name: String, display_name: Option<String>, faction_type: Option<String>, set: Vec<(String, String)> },
}

/// `episode` subcommands; an episode is named by its story and number.
#[derive(Debug)]
pub enum EpisodeCommands {
    Create { story: String, set: Vec<SetArg> },
    List { story: String },
    Info { story: String, number: i32 },
    Delete { story: String, number: i32, force: bool },
    Update { story: String, number: i32, set: Vec<SetArg> },
}

/// `story` subcommands.
#[derive(Debug)]
pub enum StoryCommands {
    Create { name: String, narrator: String, story_type: Option<String> },
    List,
    Info { name: String },
    Delete { name: String, force: bool },
}

/// `world` subcommands.
#[derive(Debug)]
pub enum WorldCommands {
    /// Initializes a world in the current directory, or clones one from git.
    Init { name: String, description: Option<String>, aesthetic: Option<String>, from_git: Option<String> },
    Info,
    Pull,
    Push,
    Status,
    Config { set: Option<String>, value: Option<String> },
}

/// The top-level commands.
#[derive(Debug)]
pub enum Commands {
    World { command: WorldCommands },
    Character { command: CharacterCommands },
    Story { command: StoryCommands },
    Episode { command: EpisodeCommands },
    Location { command: LocationCommands },
    Event { command: EventCommands },
    Faction { command: FactionCommands },
    Race { command: RaceCommands },
    /// Runs a read-only SQL query on the world database.
    Query { sql: String },
    /// Shows information on the current project.
    Info,
}

/// The parsed command line.
#[derive(Debug)]
pub struct Cli {
    pub command: Commands,
}

} // verus!
