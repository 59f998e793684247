//! Verified core logic of the multiverse narrative-world manager.

// Text, numbers and the order of texts.
pub mod text;
pub mod number;
pub mod order;
pub mod jsontext;
pub mod paths;
pub mod clock;

// Entities, their statuses, metadata and `--set` assignments.
pub mod status;
pub mod metadata;
pub mod keyval;
pub mod setargs;
pub mod lookup;
pub mod rows;
pub mod character;
pub mod location;
pub mod race;
pub mod event;
pub mod episode;
pub mod faction;
pub mod story;
pub mod core_models;

// Commands and what they decide.
pub mod cli;
pub mod core_cli;
pub mod handlers;
pub mod core_handlers;
pub mod query;

// Worlds, the workspace and git.
pub mod world_config;
pub mod world;
pub mod config;
pub mod git;
