//! Stories of a world (each kept in a directory `stories/<name>_<type>`) and
//! their numbered episodes.

use vstd::prelude::*;
use crate::rows::{is_rfc3339, rfc3339_valid, RowError};
use crate::paths::{join_path, path_join};
use crate::status::{EpisodeStatus, StoryStatus};
use crate::text::{append_chars, chars_of, pad3, pad3_chars, string_from_chars, string_of};

verus! {

broadcast use vstd::string::group_string_axioms;

/// A story: unique name, narrator, type, optional description, creation time and status.
#[derive(Debug)]
pub struct Story {
    pub name: String,
    pub narrator: String,
    pub story_type: String,
    pub description: Option<String>,
    /// Creation time, in RFC 3339.
    pub created_at: String,
    pub status: StoryStatus,
}

impl Story {
    /// The type of a story created with `story_type` given or not: "diary" by default.
    pub open spec fn type_or_default(story_type: Option<String>) -> Seq<char> {
        match story_type {
            Some(t) => t@,
            None => "diary"@,
        }
    }

    /// A new active story without description, created at `created_at`.
    pub fn new_at(name: String, narrator: String, story_type: Option<String>, created_at: String) -> (r: Story)
        ensures
            r.name@ == name@,
            r.narrator@ == narrator@,
            r.story_type@ == Story::type_or_default(story_type),
            r.description is None,
            r.created_at@ == created_at@,
            r.status == StoryStatus::Active,
    {
        let story_type = match story_type {
            Some(t) => t,
            None => string_of("diary"),
        };
        Story { name, narrator, story_type, description: None, created_at, status: StoryStatus::Active }
    }

    /// A new active story without description, created now; `None` when the
    /// clock reads before the Unix epoch.
    pub fn new(name: String, narrator: String, story_type: Option<String>) -> (r: Option<Story>)
        ensures
            r matches Some(s) ==> s.name@ == name@
                && s.narrator@ == narrator@
                && s.story_type@ == Story::type_or_default(story_type)
                && s.description is None
                && rfc3339_valid(s.created_at@)
                && s.status == StoryStatus::Active,
    {
        match crate::clock::now_rfc3339() {
            Some(now) => Some(Story::new_at(name, narrator, story_type, now)),
            None => None,
        }
    }

    /// The name of the story directory: `<name>_<type>`.
    pub open spec fn dir_name(name: Seq<char>, story_type: Seq<char>) -> Seq<char> {
        name + "_"@ + story_type
    }

    /// The directory of the story: `stories/<name>_<type>` under the world root.
    pub fn get_story_path(&self, world_root: &str) -> (r: String)
        ensures
            r@ == path_join(path_join(world_root@, "stories"@), Story::dir_name(self.name@, self.story_type@)),
    {
        let mut v = chars_of(self.name.as_str());
        append_chars(&mut v, "_");
        append_chars(&mut v, self.story_type.as_str());
        let dir = string_from_chars(v.as_slice());
        let stories = join_path(world_root, "stories");
        join_path(stories.as_str(), dir.as_str())
    }

    /// The name shown to the user.
    pub fn display_name(&self) -> (r: &str)
        ensures
            r@ == self.name@,
    {
        self.name.as_str()
    }
}

/// An episode of a story, as the story commands keep it.
#[derive(Debug)]
pub struct Episode {
    /// Row id in the database; 0 until stored.
    pub id: i64,
    pub story_name: String,
    pub episode_number: i32,
    pub title: Option<String>,
    pub status: EpisodeStatus,
    pub word_count: Option<i32>,
    /// Creation and last update times, in RFC 3339.
    pub created_at: String,
    pub updated_at: String,
}

impl Episode {
    /// A new draft episode numbered `episode_number` (the number after the
    /// highest one the story has), with no words yet, created and updated at `now`.
    pub fn new_at(story_name: String, title: Option<String>, episode_number: i32, now: String) -> (r: Episode)
        ensures
            r.id == 0,
            r.story_name@ == story_name@,
            r.episode_number == episode_number,
            r.title == title,
            r.status == EpisodeStatus::Draft,
            r.word_count == Some(0i32),
            r.created_at@ == now@,
            r.updated_at@ == now@,
    {
        let updated = now.clone();
        Episode {
            id: 0,
            story_name,
            episode_number,
            title,
            status: EpisodeStatus::Draft,
            word_count: Some(0),
            created_at: now,
            updated_at: updated,
        }
    }

    /// The name of the episode file: the zero-padded number and `.md`.
    pub fn file_name(&self) -> (r: String)
        ensures
            r@ == pad3(self.episode_number as int) + ".md"@,
    {
        let mut v = pad3_chars(self.episode_number);
        append_chars(&mut v, ".md");
        string_from_chars(v.as_slice())
    }

    /// The path of the episode file inside the directory of its story.
    pub fn file_path(&self, story_path: &str) -> (r: String)
        ensures
            r@ == path_join(story_path@, pad3(self.episode_number as int) + ".md"@),
    {
        let name = self.file_name();
        join_path(story_path, name.as_str())
    }
}

impl Story {
    /// A story read back from its stored columns: the creation time must be
    /// an RFC 3339 time; a status column that names no status reads as active.
    pub fn from_columns(name: String, narrator: String, story_type: String, description: Option<String>, created_at: String, status: &str) -> (r: Result<Story, RowError>)
        ensures
            match r {
                Ok(c) => rfc3339_valid(created_at@) && c.name@ == name@ && c.narrator@ == narrator@
                    && c.story_type@ == story_type@ && c.description == description && c.created_at@ == created_at@
                    && c.status == (match StoryStatus::from_label(status@) {
                        Some(s) => s,
                        None => StoryStatus::Active,
                    }),
                Err(RowError::CreatedAt { text }) => !rfc3339_valid(created_at@) && text@ == created_at@,
                _ => false,
            },
    {
        if !is_rfc3339(created_at.as_str()) {
            return Err(RowError::CreatedAt { text: created_at });
        }
        let status = StoryStatus::parse_or_default(status);
        Ok(Story { name, narrator, story_type, description, created_at, status })
    }
}

impl Episode {
    /// An episode read back from its stored columns: the creation time, then
    /// the update time, must be RFC 3339 times; a status column that names no
    /// status reads as a draft.
    pub fn from_columns(
        id: i64,
        story_name: String,
        episode_number: i32,
        title: Option<String>,
        status: &str,
        word_count: Option<i32>,
        created_at: String,
        updated_at: String,
    ) -> (r: Result<Episode, RowError>)
        ensures
            match r {
                Ok(e) => rfc3339_valid(created_at@) && rfc3339_valid(updated_at@) && e.id == id
                    && e.story_name@ == story_name@ && e.episode_number == episode_number && e.title == title
                    && e.word_count == word_count && e.created_at@ == created_at@ && e.updated_at@ == updated_at@
                    && e.status == (match EpisodeStatus::from_label(status@) {
                        Some(s) => s,
                        None => EpisodeStatus::Draft,
                    }),
                Err(RowError::CreatedAt { text }) => !rfc3339_valid(created_at@) && text@ == created_at@,
                Err(RowError::UpdatedAt { text }) => rfc3339_valid(created_at@) && !rfc3339_valid(updated_at@)
                    && text@ == updated_at@,
                _ => false,
            },
    {
        if !is_rfc3339(created_at.as_str()) {
            return Err(RowError::CreatedAt { text: created_at });
        }
        if !is_rfc3339(updated_at.as_str()) {
            return Err(RowError::UpdatedAt { text: updated_at });
        }
        let status = EpisodeStatus::parse_or_default(status);
        Ok(Episode { id, story_name, episode_number, title, status, word_count, created_at, updated_at })
    }
}

} // verus!
