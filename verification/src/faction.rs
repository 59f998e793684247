//! Factions of a world.

use vstd::prelude::*;
use crate::rows::{is_rfc3339, rfc3339_valid, RowError};
use crate::keyval::pairs_view;
use crate::metadata::{insert_texts, with_texts, Metadata, MetaVal};
use crate::setargs::CreateError;
use crate::status::FactionStatus;

verus! {

/// A faction: unique name, display name, type, free metadata, optional
/// description, creation time and status.
#[derive(Debug)]
pub struct Faction {
    pub name: String,
    pub display_name: String,
    pub faction_type: String,
    pub metadata: Metadata,
    pub description: Option<String>,
    /// Creation time, in RFC 3339.
    pub created_at: String,
    pub status: FactionStatus,
}

impl Faction {
    /// A new active faction without description, created at `created_at`.
    pub fn new_at(name: String, display_name: String, faction_type: String, metadata: Metadata, created_at: String) -> (r: Faction)
        ensures
            r.name@ == name@,
            r.display_name@ == display_name@,
            r.faction_type@ == faction_type@,
            r.metadata@ == metadata@,
            r.description is None,
            r.created_at@ == created_at@,
            r.status == FactionStatus::Active,
    {
        Faction {
            name,
            display_name,
            faction_type,
            metadata,
            description: None,
            created_at,
            status: FactionStatus::Active,
        }
    }

    /// A new active faction without description, created now; `None` when
    /// the clock reads before the Unix epoch.
    pub fn new(name: String, display_name: String, faction_type: String, metadata: Metadata) -> (r: Option<Faction>)
        ensures
            r matches Some(f) ==> f.name@ == name@
                && f.display_name@ == display_name@
                && f.faction_type@ == faction_type@
                && f.metadata@ == metadata@
                && f.description is None
                && rfc3339_valid(f.created_at@)
                && f.status == FactionStatus::Active,
    {
        match crate::clock::now_rfc3339() {
            Some(now) => Some(Faction::new_at(name, display_name, faction_type, metadata, now)),
            None => None,
        }
    }

    /// A new faction, created now, whose metadata holds every `--set` value
    /// as text; refused only when the clock reads before the Unix epoch.
    pub fn create_new(name: String, display_name: String, faction_type: String, set_args: Vec<(String, String)>) -> (r: Result<Faction, CreateError>)
        ensures
            match r {
                Ok(f) => f.name@ == name@ && f.display_name@ == display_name@
                    && f.faction_type@ == faction_type@
                    && f.metadata@ == with_texts(Map::<Seq<char>, MetaVal>::empty(), pairs_view(set_args@))
                    && f.description is None && rfc3339_valid(f.created_at@) && f.status == FactionStatus::Active,
                Err(e) => e is Clock,
            },
    {
        let mut metadata = Metadata::new();
        insert_texts(&mut metadata, set_args);
        match Faction::new(name, display_name, faction_type, metadata) {
            Some(f) => Ok(f),
            None => Err(CreateError::Clock),
        }
    }

    /// Changes the display name and the type when given, and names each
    /// `--set` value as text in the metadata.
    pub fn update(&mut self, display_name: Option<String>, faction_type: Option<String>, set_args: Vec<(String, String)>)
        ensures
            final(self).display_name@ == match display_name { Some(d) => d@, None => old(self).display_name@ },
            final(self).faction_type@ == match faction_type { Some(t) => t@, None => old(self).faction_type@ },
            final(self).metadata@ == with_texts(old(self).metadata@, pairs_view(set_args@)),
            final(self).name == old(self).name,
            final(self).description == old(self).description,
            final(self).created_at == old(self).created_at,
            final(self).status == old(self).status,
    {
        if let Some(d) = display_name {
            self.display_name = d;
        }
        if let Some(t) = faction_type {
            self.faction_type = t;
        }
        insert_texts(&mut self.metadata, set_args);
    }
}

impl Faction {
    /// A faction read back from its stored columns: the creation time must be
    /// an RFC 3339 time, then the status column must name a status.
    pub fn from_columns(name: String, display_name: String, faction_type: String, metadata: Metadata, description: Option<String>, created_at: String, status: &str) -> (r: Result<Faction, RowError>)
        ensures
            match r {
                Ok(c) => rfc3339_valid(created_at@) && c.name@ == name@ && c.display_name@ == display_name@ && c.faction_type@ == faction_type@ && c.metadata@ == metadata@ && c.description == description && c.created_at@ == created_at@ && Some(c.status) == FactionStatus::column_status(status@),
                Err(RowError::CreatedAt { text }) => !rfc3339_valid(created_at@) && text@ == created_at@,
                Err(RowError::Status { text }) => rfc3339_valid(created_at@) && FactionStatus::column_status(status@) is None
                    && text@ == status@,
                _ => false,
            },
    {
        if !is_rfc3339(created_at.as_str()) {
            return Err(RowError::CreatedAt { text: created_at });
        }
        match FactionStatus::from_column(status) {
            Some(st) => Ok(Faction { name, display_name, faction_type, metadata, description, created_at, status: st }),
            None => Err(RowError::Status { text: crate::text::string_of(status) }),
        }
    }
}

} // verus!
