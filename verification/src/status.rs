//! The status enumerations of the world's entities and their textual names.
//!
//! Each status is stored in the database as the bare name of its variant.

use vstd::prelude::*;
use crate::text::str_eq;
use crate::jsontext::{decode_quoted, json_plain_char, json_string_value, quoted};

verus! {

broadcast use vstd::string::group_string_axioms;

/// Lifecycle state of a character.
#[derive(Clone, Copy, Debug, PartialEq, Eq, Structural)]
pub enum CharacterStatus {
    Active,
    Inactive,
    Deceased,
    Archived,
}

impl CharacterStatus {
    /// The name under which the status is stored and shown.
    pub open spec fn label(self) -> Seq<char> {
        match self {
            CharacterStatus::Active => "Active"@,
            CharacterStatus::Inactive => "Inactive"@,
            CharacterStatus::Deceased => "Deceased"@,
            CharacterStatus::Archived => "Archived"@,
        }
    }

    /// The status whose name is exactly `t`, if any.
    pub open spec fn from_label(t: Seq<char>) -> Option<CharacterStatus> {
        if t == "Active"@ {
            Some(CharacterStatus::Active)
        } else if t == "Inactive"@ {
            Some(CharacterStatus::Inactive)
        } else if t == "Deceased"@ {
            Some(CharacterStatus::Deceased)
        } else if t == "Archived"@ {
            Some(CharacterStatus::Archived)
        } else {
            None
        }
    }

    /// The status a new record starts with.
    pub open spec fn initial() -> CharacterStatus {
        CharacterStatus::Active
    }

    /// The name of the status.
    pub fn as_str(&self) -> (s: &'static str)
        ensures
            s@ == self.label(),
    {
        match self {
            CharacterStatus::Active => "Active",
            CharacterStatus::Inactive => "Inactive",
            CharacterStatus::Deceased => "Deceased",
            CharacterStatus::Archived => "Archived",
        }
    }

    /// The status whose name is exactly `s`, or `None` for any other text.
    pub fn parse(s: &str) -> (r: Option<CharacterStatus>)
        ensures
            r == CharacterStatus::from_label(s@),
    {
        if str_eq(s, "Active") {
            Some(CharacterStatus::Active)
        } else if str_eq(s, "Inactive") {
            Some(CharacterStatus::Inactive)
        } else if str_eq(s, "Deceased") {
            Some(CharacterStatus::Deceased)
        } else if str_eq(s, "Archived") {
            Some(CharacterStatus::Archived)
        } else {
            None
        }
    }

    /// The status that a database column holding `text` names: the text
    /// read as a JSON string (as if between quotation marks) must be the
    /// name of a status.
    pub open spec fn column_status(text: Seq<char>) -> Option<CharacterStatus> {
        match json_string_value(quoted(text)) {
            Some(t) => CharacterStatus::from_label(t),
            None => None,
        }
    }

    /// The status stored in a database column as `text`: the text is read
    /// as a JSON string (as if between quotation marks), whose value must be
    /// the name of a status; `None` otherwise.
    pub fn from_column(text: &str) -> (r: Option<CharacterStatus>)
        ensures
            r == CharacterStatus::column_status(text@),
            forall|st: CharacterStatus| #![trigger st.label()] text@ == st.label() ==> r == Some(st),
    {
        proof {
            reveal_strlit("Active");
            reveal_strlit("Inactive");
            reveal_strlit("Deceased");
            reveal_strlit("Archived");
            assert forall|st: CharacterStatus| #![trigger st.label()] text@ == st.label()
                implies (forall|i: int| 0 <= i < text@.len() ==> json_plain_char(text@[i]))
                    && CharacterStatus::from_label(text@) == Some(st) by {
                CharacterStatus::lemma_label_round_trip(st);
            }
        }
        match decode_quoted(text) {
            Some(t) => CharacterStatus::parse(t.as_str()),
            None => None,
        }
    }

    /// The status named `s`, falling back to the initial status for an unknown name.
    pub fn parse_or_default(s: &str) -> (r: CharacterStatus)
        ensures
            r == match CharacterStatus::from_label(s@) {
                Some(st) => st,
                None => CharacterStatus::initial(),
            },
    {
        match CharacterStatus::parse(s) {
            Some(st) => st,
            None => CharacterStatus::Active,
        }
    }

    /// The initial status.
    pub fn default_status() -> (r: CharacterStatus)
        ensures
            r == CharacterStatus::initial(),
    {
        CharacterStatus::Active
    }

    /// Reading back the name of a status gives that status.
    pub proof fn lemma_label_round_trip(st: CharacterStatus)
        ensures
            CharacterStatus::from_label(st.label()) == Some(st),
    {
        reveal_strlit("Active");
        reveal_strlit("Inactive");
        reveal_strlit("Deceased");
        reveal_strlit("Archived");

        assert("Inactive"@.len() != "Active"@.len());
        assert("Deceased"@.len() != "Active"@.len());
        assert("Deceased"@[0] != "Inactive"@[0]);
        assert("Archived"@.len() != "Active"@.len());
        assert("Archived"@[0] != "Inactive"@[0]);
        assert("Archived"@[0] != "Deceased"@[0]);
    }
}

/// Lifecycle state of a location.
#[derive(Clone, Copy, Debug, PartialEq, Eq, Structural)]
pub enum LocationStatus {
    Active,
    Inactive,
    Destroyed,
    Hidden,
    Unknown,
}

impl LocationStatus {
    /// The name under which the status is stored and shown.
    pub open spec fn label(self) -> Seq<char> {
        match self {
            LocationStatus::Active => "Active"@,
            LocationStatus::Inactive => "Inactive"@,
            LocationStatus::Destroyed => "Destroyed"@,
            LocationStatus::Hidden => "Hidden"@,
            LocationStatus::Unknown => "Unknown"@,
        }
    }

    /// The status whose name is exactly `t`, if any.
    pub open spec fn from_label(t: Seq<char>) -> Option<LocationStatus> {
        if t == "Active"@ {
            Some(LocationStatus::Active)
        } else if t == "Inactive"@ {
            Some(LocationStatus::Inactive)
        } else if t == "Destroyed"@ {
            Some(LocationStatus::Destroyed)
        } else if t == "Hidden"@ {
            Some(LocationStatus::Hidden)
        } else if t == "Unknown"@ {
            Some(LocationStatus::Unknown)
        } else {
            None
        }
    }

    /// The status a new record starts with.
    pub open spec fn initial() -> LocationStatus {
        LocationStatus::Active
    }

    /// The name of the status.
    pub fn as_str(&self) -> (s: &'static str)
        ensures
            s@ == self.label(),
    {
        match self {
            LocationStatus::Active => "Active",
            LocationStatus::Inactive => "Inactive",
            LocationStatus::Destroyed => "Destroyed",
            LocationStatus::Hidden => "Hidden",
            LocationStatus::Unknown => "Unknown",
        }
    }

    /// The status whose name is exactly `s`, or `None` for any other text.
    pub fn parse(s: &str) -> (r: Option<LocationStatus>)
        ensures
            r == LocationStatus::from_label(s@),
    {
        if str_eq(s, "Active") {
            Some(LocationStatus::Active)
        } else if str_eq(s, "Inactive") {
            Some(LocationStatus::Inactive)
        } else if str_eq(s, "Destroyed") {
            Some(LocationStatus::Destroyed)
        } else if str_eq(s, "Hidden") {
            Some(LocationStatus::Hidden)
        } else if str_eq(s, "Unknown") {
            Some(LocationStatus::Unknown)
        } else {
            None
        }
    }

    /// The status that a database column holding `text` names: the text
    /// read as a JSON string (as if between quotation marks) must be the
    /// name of a status.
    pub open spec fn column_status(text: Seq<char>) -> Option<LocationStatus> {
        match json_string_value(quoted(text)) {
            Some(t) => LocationStatus::from_label(t),
            None => None,
        }
    }

    /// The status stored in a database column as `text`: the text is read
    /// as a JSON string (as if between quotation marks), whose value must be
    /// the name of a status; `None` otherwise.
    pub fn from_column(text: &str) -> (r: Option<LocationStatus>)
        ensures
            r == LocationStatus::column_status(text@),
            forall|st: LocationStatus| #![trigger st.label()] text@ == st.label() ==> r == Some(st),
    {
        proof {
            reveal_strlit("Active");
            reveal_strlit("Inactive");
            reveal_strlit("Destroyed");
            reveal_strlit("Hidden");
            reveal_strlit("Unknown");
            assert forall|st: LocationStatus| #![trigger st.label()] text@ == st.label()
                implies (forall|i: int| 0 <= i < text@.len() ==> json_plain_char(text@[i]))
                    && LocationStatus::from_label(text@) == Some(st) by {
                LocationStatus::lemma_label_round_trip(st);
            }
        }
        match decode_quoted(text) {
            Some(t) => LocationStatus::parse(t.as_str()),
            None => None,
        }
    }

    /// The status named `s`, falling back to the initial status for an unknown name.
    pub fn parse_or_default(s: &str) -> (r: LocationStatus)
        ensures
            r == match LocationStatus::from_label(s@) {
                Some(st) => st,
                None => LocationStatus::initial(),
            },
    {
        match LocationStatus::parse(s) {
            Some(st) => st,
            None => LocationStatus::Active,
        }
    }

    /// The initial status.
    pub fn default_status() -> (r: LocationStatus)
        ensures
            r == LocationStatus::initial(),
    {
        LocationStatus::Active
    }

    /// Reading back the name of a status gives that status.
    pub proof fn lemma_label_round_trip(st: LocationStatus)
        ensures
            LocationStatus::from_label(st.label()) == Some(st),
    {
        reveal_strlit("Active");
        reveal_strlit("Inactive");
        reveal_strlit("Destroyed");
        reveal_strlit("Hidden");
        reveal_strlit("Unknown");

        assert("Inactive"@.len() != "Active"@.len());
        assert("Destroyed"@.len() != "Active"@.len());
        assert("Destroyed"@.len() != "Inactive"@.len());
        assert("Hidden"@[0] != "Active"@[0]);
        assert("Hidden"@.len() != "Inactive"@.len());
        assert("Hidden"@.len() != "Destroyed"@.len());
        assert("Unknown"@.len() != "Active"@.len());
        assert("Unknown"@.len() != "Inactive"@.len());
        assert("Unknown"@.len() != "Destroyed"@.len());
        assert("Unknown"@.len() != "Hidden"@.len());
    }
}

/// Lifecycle state of a race.
#[derive(Clone, Copy, Debug, PartialEq, Eq, Structural)]
pub enum RaceStatus {
    Active,
    Inactive,
    Extinct,
    Legendary,
    Mythical,
}

impl RaceStatus {
    /// The name under which the status is stored and shown.
    pub open spec fn label(self) -> Seq<char> {
        match self {
            RaceStatus::Active => "Active"@,
            RaceStatus::Inactive => "Inactive"@,
            RaceStatus::Extinct => "Extinct"@,
            RaceStatus::Legendary => "Legendary"@,
            RaceStatus::Mythical => "Mythical"@,
        }
    }

    /// The status whose name is exactly `t`, if any.
    pub open spec fn from_label(t: Seq<char>) -> Option<RaceStatus> {
        if t == "Active"@ {
            Some(RaceStatus::Active)
        } else if t == "Inactive"@ {
            Some(RaceStatus::Inactive)
        } else if t == "Extinct"@ {
            Some(RaceStatus::Extinct)
        } else if t == "Legendary"@ {
            Some(RaceStatus::Legendary)
        } else if t == "Mythical"@ {
            Some(RaceStatus::Mythical)
        } else {
            None
        }
    }

    /// The status a new record starts with.
    pub open spec fn initial() -> RaceStatus {
        RaceStatus::Active
    }

    /// The name of the status.
    pub fn as_str(&self) -> (s: &'static str)
        ensures
            s@ == self.label(),
    {
        match self {
            RaceStatus::Active => "Active",
            RaceStatus::Inactive => "Inactive",
            RaceStatus::Extinct => "Extinct",
            RaceStatus::Legendary => "Legendary",
            RaceStatus::Mythical => "Mythical",
        }
    }

    /// The status whose name is exactly `s`, or `None` for any other text.
    pub fn parse(s: &str) -> (r: Option<RaceStatus>)
        ensures
            r == RaceStatus::from_label(s@),
    {
        if str_eq(s, "Active") {
            Some(RaceStatus::Active)
        } else if str_eq(s, "Inactive") {
            Some(RaceStatus::Inactive)
        } else if str_eq(s, "Extinct") {
            Some(RaceStatus::Extinct)
        } else if str_eq(s, "Legendary") {
            Some(RaceStatus::Legendary)
        } else if str_eq(s, "Mythical") {
            Some(RaceStatus::Mythical)
        } else {
            None
        }
    }

    /// The status that a database column holding `text` names: the text
    /// read as a JSON string (as if between quotation marks) must be the
    /// name of a status.
    pub open spec fn column_status(text: Seq<char>) -> Option<RaceStatus> {
        match json_string_value(quoted(text)) {
            Some(t) => RaceStatus::from_label(t),
            None => None,
        }
    }

    /// The status stored in a database column as `text`: the text is read
    /// as a JSON string (as if between quotation marks), whose value must be
    /// the name of a status; `None` otherwise.
    pub fn from_column(text: &str) -> (r: Option<RaceStatus>)
        ensures
            r == RaceStatus::column_status(text@),
            forall|st: RaceStatus| #![trigger st.label()] text@ == st.label() ==> r == Some(st),
    {
        proof {
            reveal_strlit("Active");
            reveal_strlit("Inactive");
            reveal_strlit("Extinct");
            reveal_strlit("Legendary");
            reveal_strlit("Mythical");
            assert forall|st: RaceStatus| #![trigger st.label()] text@ == st.label()
                implies (forall|i: int| 0 <= i < text@.len() ==> json_plain_char(text@[i]))
                    && RaceStatus::from_label(text@) == Some(st) by {
                RaceStatus::lemma_label_round_trip(st);
            }
        }
        match decode_quoted(text) {
            Some(t) => RaceStatus::parse(t.as_str()),
            None => None,
        }
    }

    /// The status named `s`, falling back to the initial status for an unknown name.
    pub fn parse_or_default(s: &str) -> (r: RaceStatus)
        ensures
            r == match RaceStatus::from_label(s@) {
                Some(st) => st,
                None => RaceStatus::initial(),
            },
    {
        match RaceStatus::parse(s) {
            Some(st) => st,
            None => RaceStatus::Active,
        }
    }

    /// The initial status.
    pub fn default_status() -> (r: RaceStatus)
        ensures
            r == RaceStatus::initial(),
    {
        RaceStatus::Active
    }

    /// Reading back the name of a status gives that status.
    pub proof fn lemma_label_round_trip(st: RaceStatus)
        ensures
            RaceStatus::from_label(st.label()) == Some(st),
    {
        reveal_strlit("Active");
        reveal_strlit("Inactive");
        reveal_strlit("Extinct");
        reveal_strlit("Legendary");
        reveal_strlit("Mythical");

        assert("Inactive"@.len() != "Active"@.len());
        assert("Extinct"@.len() != "Active"@.len());
        assert("Extinct"@.len() != "Inactive"@.len());
        assert("Legendary"@.len() != "Active"@.len());
        assert("Legendary"@.len() != "Inactive"@.len());
        assert("Legendary"@.len() != "Extinct"@.len());
        assert("Mythical"@.len() != "Active"@.len());
        assert("Mythical"@[0] != "Inactive"@[0]);
        assert("Mythical"@.len() != "Extinct"@.len());
        assert("Mythical"@.len() != "Legendary"@.len());
    }
}

/// Lifecycle state of an event.
#[derive(Clone, Copy, Debug, PartialEq, Eq, Structural)]
pub enum EventStatus {
    Active,
    Inactive,
    Completed,
    Cancelled,
    Pending,
}

impl EventStatus {
    /// The name under which the status is stored and shown.
    pub open spec fn label(self) -> Seq<char> {
        match self {
            EventStatus::Active => "Active"@,
            EventStatus::Inactive => "Inactive"@,
            EventStatus::Completed => "Completed"@,
            EventStatus::Cancelled => "Cancelled"@,
            EventStatus::Pending => "Pending"@,
        }
    }

    /// The status whose name is exactly `t`, if any.
    pub open spec fn from_label(t: Seq<char>) -> Option<EventStatus> {
        if t == "Active"@ {
            Some(EventStatus::Active)
        } else if t == "Inactive"@ {
            Some(EventStatus::Inactive)
        } else if t == "Completed"@ {
            Some(EventStatus::Completed)
        } else if t == "Cancelled"@ {
            Some(EventStatus::Cancelled)
        } else if t == "Pending"@ {
            Some(EventStatus::Pending)
        } else {
            None
        }
    }

    /// The status a new record starts with.
    pub open spec fn initial() -> EventStatus {
        EventStatus::Active
    }

    /// The name of the status.
    pub fn as_str(&self) -> (s: &'static str)
        ensures
            s@ == self.label(),
    {
        match self {
            EventStatus::Active => "Active",
            EventStatus::Inactive => "Inactive",
            EventStatus::Completed => "Completed",
            EventStatus::Cancelled => "Cancelled",
            EventStatus::Pending => "Pending",
        }
    }

    /// The status whose name is exactly `s`, or `None` for any other text.
    pub fn parse(s: &str) -> (r: Option<EventStatus>)
        ensures
            r == EventStatus::from_label(s@),
    {
        if str_eq(s, "Active") {
            Some(EventStatus::Active)
        } else if str_eq(s, "Inactive") {
            Some(EventStatus::Inactive)
        } else if str_eq(s, "Completed") {
            Some(EventStatus::Completed)
        } else if str_eq(s, "Cancelled") {
            Some(EventStatus::Cancelled)
        } else if str_eq(s, "Pending") {
            Some(EventStatus::Pending)
        } else {
            None
        }
    }

    /// The status that a database column holding `text` names: the text
    /// read as a JSON string (as if between quotation marks) must be the
    /// name of a status.
    pub open spec fn column_status(text: Seq<char>) -> Option<EventStatus> {
        match json_string_value(quoted(text)) {
            Some(t) => EventStatus::from_label(t),
            None => None,
        }
    }

    /// The status stored in a database column as `text`: the text is read
    /// as a JSON string (as if between quotation marks), whose value must be
    /// the name of a status; `None` otherwise.
    pub fn from_column(text: &str) -> (r: Option<EventStatus>)
        ensures
            r == EventStatus::column_status(text@),
            forall|st: EventStatus| #![trigger st.label()] text@ == st.label() ==> r == Some(st),
    {
        proof {
            reveal_strlit("Active");
            reveal_strlit("Inactive");
            reveal_strlit("Completed");
            reveal_strlit("Cancelled");
            reveal_strlit("Pending");
            assert forall|st: EventStatus| #![trigger st.label()] text@ == st.label()
                implies (forall|i: int| 0 <= i < text@.len() ==> json_plain_char(text@[i]))
                    && EventStatus::from_label(text@) == Some(st) by {
                EventStatus::lemma_label_round_trip(st);
            }
        }
        match decode_quoted(text) {
            Some(t) => EventStatus::parse(t.as_str()),
            None => None,
        }
    }

    /// The status named `s`, falling back to the initial status for an unknown name.
    pub fn parse_or_default(s: &str) -> (r: EventStatus)
        ensures
            r == match EventStatus::from_label(s@) {
                Some(st) => st,
                None => EventStatus::initial(),
            },
    {
        match EventStatus::parse(s) {
            Some(st) => st,
            None => EventStatus::Active,
        }
    }

    /// The initial status.
    pub fn default_status() -> (r: EventStatus)
        ensures
            r == EventStatus::initial(),
    {
        EventStatus::Active
    }

    /// Reading back the name of a status gives that status.
    pub proof fn lemma_label_round_trip(st: EventStatus)
        ensures
            EventStatus::from_label(st.label()) == Some(st),
    {
        reveal_strlit("Active");
        reveal_strlit("Inactive");
        reveal_strlit("Completed");
        reveal_strlit("Cancelled");
        reveal_strlit("Pending");

        assert("Inactive"@.len() != "Active"@.len());
        assert("Completed"@.len() != "Active"@.len());
        assert("Completed"@.len() != "Inactive"@.len());
        assert("Cancelled"@.len() != "Active"@.len());
        assert("Cancelled"@.len() != "Inactive"@.len());
        assert("Cancelled"@[1] != "Completed"@[1]);
        assert("Pending"@.len() != "Active"@.len());
        assert("Pending"@.len() != "Inactive"@.len());
        assert("Pending"@.len() != "Completed"@.len());
        assert("Pending"@.len() != "Cancelled"@.len());
    }
}

/// Editorial state of an episode.
#[derive(Clone, Copy, Debug, PartialEq, Eq, Structural)]
pub enum EpisodeStatus {
    Draft,
    InProgress,
    Review,
    Published,
}

impl EpisodeStatus {
    /// The name under which the status is stored and shown.
    pub open spec fn label(self) -> Seq<char> {
        match self {
            EpisodeStatus::Draft => "Draft"@,
            EpisodeStatus::InProgress => "InProgress"@,
            EpisodeStatus::Review => "Review"@,
            EpisodeStatus::Published => "Published"@,
        }
    }

    /// The status whose name is exactly `t`, if any.
    pub open spec fn from_label(t: Seq<char>) -> Option<EpisodeStatus> {
        if t == "Draft"@ {
            Some(EpisodeStatus::Draft)
        } else if t == "InProgress"@ {
            Some(EpisodeStatus::InProgress)
        } else if t == "Review"@ {
            Some(EpisodeStatus::Review)
        } else if t == "Published"@ {
            Some(EpisodeStatus::Published)
        } else {
            None
        }
    }

    /// The status a new record starts with.
    pub open spec fn initial() -> EpisodeStatus {
        EpisodeStatus::Draft
    }

    /// The name of the status.
    pub fn as_str(&self) -> (s: &'static str)
        ensures
            s@ == self.label(),
    {
        match self {
            EpisodeStatus::Draft => "Draft",
            EpisodeStatus::InProgress => "InProgress",
            EpisodeStatus::Review => "Review",
            EpisodeStatus::Published => "Published",
        }
    }

    /// The status whose name is exactly `s`, or `None` for any other text.
    pub fn parse(s: &str) -> (r: Option<EpisodeStatus>)
        ensures
            r == EpisodeStatus::from_label(s@),
    {
        if str_eq(s, "Draft") {
            Some(EpisodeStatus::Draft)
        } else if str_eq(s, "InProgress") {
            Some(EpisodeStatus::InProgress)
        } else if str_eq(s, "Review") {
            Some(EpisodeStatus::Review)
        } else if str_eq(s, "Published") {
            Some(EpisodeStatus::Published)
        } else {
            None
        }
    }

    /// The status that a database column holding `text` names: the text
    /// read as a JSON string (as if between quotation marks) must be the
    /// name of a status.
    pub open spec fn column_status(text: Seq<char>) -> Option<EpisodeStatus> {
        match json_string_value(quoted(text)) {
            Some(t) => EpisodeStatus::from_label(t),
            None => None,
        }
    }

    /// The status stored in a database column as `text`: the text is read
    /// as a JSON string (as if between quotation marks), whose value must be
    /// the name of a status; `None` otherwise.
    pub fn from_column(text: &str) -> (r: Option<EpisodeStatus>)
        ensures
            r == EpisodeStatus::column_status(text@),
            forall|st: EpisodeStatus| #![trigger st.label()] text@ == st.label() ==> r == Some(st),
    {
        proof {
            reveal_strlit("Draft");
            reveal_strlit("InProgress");
            reveal_strlit("Review");
            reveal_strlit("Published");
            assert forall|st: EpisodeStatus| #![trigger st.label()] text@ == st.label()
                implies (forall|i: int| 0 <= i < text@.len() ==> json_plain_char(text@[i]))
                    && EpisodeStatus::from_label(text@) == Some(st) by {
                EpisodeStatus::lemma_label_round_trip(st);
            }
        }
        match decode_quoted(text) {
            Some(t) => EpisodeStatus::parse(t.as_str()),
            None => None,
        }
    }

    /// The status named `s`, falling back to the initial status for an unknown name.
    pub fn parse_or_default(s: &str) -> (r: EpisodeStatus)
        ensures
            r == match EpisodeStatus::from_label(s@) {
                Some(st) => st,
                None => EpisodeStatus::initial(),
            },
    {
        match EpisodeStatus::parse(s) {
            Some(st) => st,
            None => EpisodeStatus::Draft,
        }
    }

    /// The initial status.
    pub fn default_status() -> (r: EpisodeStatus)
        ensures
            r == EpisodeStatus::initial(),
    {
        EpisodeStatus::Draft
    }

    /// Reading back the name of a status gives that status.
    pub proof fn lemma_label_round_trip(st: EpisodeStatus)
        ensures
            EpisodeStatus::from_label(st.label()) == Some(st),
    {
        reveal_strlit("Draft");
        reveal_strlit("InProgress");
        reveal_strlit("Review");
        reveal_strlit("Published");

        assert("InProgress"@.len() != "Draft"@.len());
        assert("Review"@.len() != "Draft"@.len());
        assert("Review"@.len() != "InProgress"@.len());
        assert("Published"@.len() != "Draft"@.len());
        assert("Published"@.len() != "InProgress"@.len());
        assert("Published"@.len() != "Review"@.len());
    }
}

/// Lifecycle state of a faction.
#[derive(Clone, Copy, Debug, PartialEq, Eq, Structural)]
pub enum FactionStatus {
    Active,
    Disbanded,
    Dormant,
    Archived,
}

impl FactionStatus {
    /// The name under which the status is stored and shown.
    pub open spec fn label(self) -> Seq<char> {
        match self {
            FactionStatus::Active => "Active"@,
            FactionStatus::Disbanded => "Disbanded"@,
            FactionStatus::Dormant => "Dormant"@,
            FactionStatus::Archived => "Archived"@,
        }
    }

    /// The status whose name is exactly `t`, if any.
    pub open spec fn from_label(t: Seq<char>) -> Option<FactionStatus> {
        if t == "Active"@ {
            Some(FactionStatus::Active)
        } else if t == "Disbanded"@ {
            Some(FactionStatus::Disbanded)
        } else if t == "Dormant"@ {
            Some(FactionStatus::Dormant)
        } else if t == "Archived"@ {
            Some(FactionStatus::Archived)
        } else {
            None
        }
    }

    /// The status a new record starts with.
    pub open spec fn initial() -> FactionStatus {
        FactionStatus::Active
    }

    /// The name of the status.
    pub fn as_str(&self) -> (s: &'static str)
        ensures
            s@ == self.label(),
    {
        match self {
            FactionStatus::Active => "Active",
            FactionStatus::Disbanded => "Disbanded",
            FactionStatus::Dormant => "Dormant",
            FactionStatus::Archived => "Archived",
        }
    }

    /// The status whose name is exactly `s`, or `None` for any other text.
    pub fn parse(s: &str) -> (r: Option<FactionStatus>)
        ensures
            r == FactionStatus::from_label(s@),
    {
        if str_eq(s, "Active") {
            Some(FactionStatus::Active)
        } else if str_eq(s, "Disbanded") {
            Some(FactionStatus::Disbanded)
        } else if str_eq(s, "Dormant") {
            Some(FactionStatus::Dormant)
        } else if str_eq(s, "Archived") {
            Some(FactionStatus::Archived)
        } else {
            None
        }
    }

    /// The status that a database column holding `text` names: the text
    /// read as a JSON string (as if between quotation marks) must be the
    /// name of a status.
    pub open spec fn column_status(text: Seq<char>) -> Option<FactionStatus> {
        match json_string_value(quoted(text)) {
            Some(t) => FactionStatus::from_label(t),
            None => None,
        }
    }

    /// The status stored in a database column as `text`: the text is read
    /// as a JSON string (as if between quotation marks), whose value must be
    /// the name of a status; `None` otherwise.
    pub fn from_column(text: &str) -> (r: Option<FactionStatus>)
        ensures
            r == FactionStatus::column_status(text@),
            forall|st: FactionStatus| #![trigger st.label()] text@ == st.label() ==> r == Some(st),
    {
        proof {
            reveal_strlit("Active");
            reveal_strlit("Disbanded");
            reveal_strlit("Dormant");
            reveal_strlit("Archived");
            assert forall|st: FactionStatus| #![trigger st.label()] text@ == st.label()
                implies (forall|i: int| 0 <= i < text@.len() ==> json_plain_char(text@[i]))
                    && FactionStatus::from_label(text@) == Some(st) by {
                FactionStatus::lemma_label_round_trip(st);
            }
        }
        match decode_quoted(text) {
            Some(t) => FactionStatus::parse(t.as_str()),
            None => None,
        }
    }

    /// The status named `s`, falling back to the initial status for an unknown name.
    pub fn parse_or_default(s: &str) -> (r: FactionStatus)
        ensures
            r == match FactionStatus::from_label(s@) {
                Some(st) => st,
                None => FactionStatus::initial(),
            },
    {
        match FactionStatus::parse(s) {
            Some(st) => st,
            None => FactionStatus::Active,
        }
    }

    /// The initial status.
    pub fn default_status() -> (r: FactionStatus)
        ensures
            r == FactionStatus::initial(),
    {
        FactionStatus::Active
    }

    /// Reading back the name of a status gives that status.
    pub proof fn lemma_label_round_trip(st: FactionStatus)
        ensures
            FactionStatus::from_label(st.label()) == Some(st),
    {
        reveal_strlit("Active");
        reveal_strlit("Disbanded");
        reveal_strlit("Dormant");
        reveal_strlit("Archived");

        assert("Disbanded"@.len() != "Active"@.len());
        assert("Dormant"@.len() != "Active"@.len());
        assert("Dormant"@.len() != "Disbanded"@.len());
        assert("Archived"@.len() != "Active"@.len());
        assert("Archived"@.len() != "Disbanded"@.len());
        assert("Archived"@.len() != "Dormant"@.len());
    }
}

/// Lifecycle state of a story.
#[derive(Clone, Copy, Debug, PartialEq, Eq, Structural)]
pub enum StoryStatus {
    Active,
    Paused,
    Completed,
    Archived,
}

impl StoryStatus {
    /// The name under which the status is stored and shown.
    pub open spec fn label(self) -> Seq<char> {
        match self {
            StoryStatus::Active => "Active"@,
            StoryStatus::Paused => "Paused"@,
            StoryStatus::Completed => "Completed"@,
            StoryStatus::Archived => "Archived"@,
        }
    }

    /// The status whose name is exactly `t`, if any.
    pub open spec fn from_label(t: Seq<char>) -> Option<StoryStatus> {
        if t == "Active"@ {
            Some(StoryStatus::Active)
        } else if t == "Paused"@ {
            Some(StoryStatus::Paused)
        } else if t == "Completed"@ {
            Some(StoryStatus::Completed)
        } else if t == "Archived"@ {
            Some(StoryStatus::Archived)
        } else {
            None
        }
    }

    /// The status a new record starts with.
    pub open spec fn initial() -> StoryStatus {
        StoryStatus::Active
    }

    /// The name of the status.
    pub fn as_str(&self) -> (s: &'static str)
        ensures
            s@ == self.label(),
    {
        match self {
            StoryStatus::Active => "Active",
            StoryStatus::Paused => "Paused",
            StoryStatus::Completed => "Completed",
            StoryStatus::Archived => "Archived",
        }
    }

    /// The status whose name is exactly `s`, or `None` for any other text.
    pub fn parse(s: &str) -> (r: Option<StoryStatus>)
        ensures
            r == StoryStatus::from_label(s@),
    {
        if str_eq(s, "Active") {
            Some(StoryStatus::Active)
        } else if str_eq(s, "Paused") {
            Some(StoryStatus::Paused)
        } else if str_eq(s, "Completed") {
            Some(StoryStatus::Completed)
        } else if str_eq(s, "Archived") {
            Some(StoryStatus::Archived)
        } else {
            None
        }
    }

    /// The status that a database column holding `text` names: the text
    /// read as a JSON string (as if between quotation marks) must be the
    /// name of a status.
    pub open spec fn column_status(text: Seq<char>) -> Option<StoryStatus> {
        match json_string_value(quoted(text)) {
            Some(t) => StoryStatus::from_label(t),
            None => None,
        }
    }

    /// The status stored in a database column as `text`: the text is read
    /// as a JSON string (as if between quotation marks), whose value must be
    /// the name of a status; `None` otherwise.
    pub fn from_column(text: &str) -> (r: Option<StoryStatus>)
        ensures
            r == StoryStatus::column_status(text@),
            forall|st: StoryStatus| #![trigger st.label()] text@ == st.label() ==> r == Some(st),
    {
        proof {
            reveal_strlit("Active");
            reveal_strlit("Paused");
            reveal_strlit("Completed");
            reveal_strlit("Archived");
            assert forall|st: StoryStatus| #![trigger st.label()] text@ == st.label()
                implies (forall|i: int| 0 <= i < text@.len() ==> json_plain_char(text@[i]))
                    && StoryStatus::from_label(text@) == Some(st) by {
                StoryStatus::lemma_label_round_trip(st);
            }
        }
        match decode_quoted(text) {
            Some(t) => StoryStatus::parse(t.as_str()),
            None => None,
        }
    }

    /// The status named `s`, falling back to the initial status for an unknown name.
    pub fn parse_or_default(s: &str) -> (r: StoryStatus)
        ensures
            r == match StoryStatus::from_label(s@) {
                Some(st) => st,
                None => StoryStatus::initial(),
            },
    {
        match StoryStatus::parse(s) {
            Some(st) => st,
            None => StoryStatus::Active,
        }
    }

    /// The initial status.
    pub fn default_status() -> (r: StoryStatus)
        ensures
            r == StoryStatus::initial(),
    {
        StoryStatus::Active
    }

    /// Reading back the name of a status gives that status.
    pub proof fn lemma_label_round_trip(st: StoryStatus)
        ensures
            StoryStatus::from_label(st.label()) == Some(st),
    {
        reveal_strlit("Active");
        reveal_strlit("Paused");
        reveal_strlit("Completed");
        reveal_strlit("Archived");

        assert("Paused"@[0] != "Active"@[0]);
        assert("Completed"@.len() != "Active"@.len());
        assert("Completed"@.len() != "Paused"@.len());
        assert("Archived"@.len() != "Active"@.len());
        assert("Archived"@.len() != "Paused"@.len());
        assert("Archived"@.len() != "Completed"@.len());
    }
}

} // verus!
