//! The workspace-level data model: worlds, series and their episodes,
//! characters, locations and timeline events, as plain values.

use vstd::prelude::*;
use crate::metadata::Metadata;

verus! {

/// A world of the workspace. Its visual identity is a list of named
/// settings (each name at most once) and its configuration a map of JSON
/// values.
#[derive(Debug)]
pub struct World {
    pub id: i32,
    pub name: String,
    pub description: Option<String>,
    pub visual_identity: Option<Vec<(String, String)>>,
    pub config: Option<Metadata>,
}

/// A series of episodes; `created_at` is an RFC 3339 timestamp.
#[derive(Debug)]
pub struct Series {
    pub id: i32,
    pub world_id: i32,
    pub name: String,
    pub category: SeriesCategory,
    pub series_type: String,
    pub narrator: Option<String>,
    pub public_signature: Option<String>,
    pub created_at: String,
}

/// Whether a series is a diary or an extra.
#[derive(Clone, Copy, Debug, PartialEq, Eq, Structural)]
pub enum SeriesCategory {
    Diary,
    Extra,
}

/// An episode of a series; the timestamps are RFC 3339 texts.
#[derive(Debug)]
pub struct Episode {
    pub id: i32,
    pub series_id: i32,
    pub number: i32,
    pub title: String,
    pub file_path: String,
    pub status: EpisodeStatus,
    pub created_at: String,
    pub modified_at: String,
    pub word_count: Option<i32>,
    pub reading_time_minutes: Option<i32>,
}

/// The editorial state of a series episode.
#[derive(Clone, Copy, Debug, PartialEq, Eq, Structural)]
pub enum EpisodeStatus {
    Draft,
    InProduzione,
    Ready,
    Pubblicato,
}

/// A character of a world.
#[derive(Debug)]
pub struct Character {
    pub id: i32,
    pub world_id: i32,
    pub name: String,
    pub race: Option<String>,
    pub has_magic_abilities: bool,
    pub abilities: Vec<String>,
    pub limitations: Vec<String>,
    pub age: Option<i32>,
    pub origin: Option<String>,
    pub profession: Option<String>,
    pub notes: Option<String>,
}

/// A location of a world, possibly inside another one.
#[derive(Debug)]
pub struct Location {
    pub id: i32,
    pub world_id: i32,
    pub name: String,
    pub location_type: String,
    pub parent_location_id: Option<i32>,
    pub characteristics: Vec<String>,
    pub status: String,
    pub notes: Option<String>,
}

/// Something that happens in an episode.
#[derive(Debug)]
pub struct TimelineEvent {
    pub id: i32,
    pub episode_id: i32,
    pub event_description: String,
    pub event_date: Option<String>,
    pub event_order: Option<i32>,
    pub event_type: EventType,
    pub character_id: Option<i32>,
    pub location_id: Option<i32>,
    pub extracted_automatically: bool,
    pub verified_by_user: bool,
    pub notes: Option<String>,
}

/// How much a timeline event weighs in the story.
#[derive(Clone, Copy, Debug, PartialEq, Eq, Structural)]
pub enum EventType {
    Major,
    Minor,
    Reference,
}

} // verus!
