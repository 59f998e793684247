//! What each entity subcommand does: the decisions between looking a record
//! up and storing or showing it.

use vstd::prelude::*;
use crate::character::Character;
use crate::cli::{CharacterCommands, EpisodeCommands, EventCommands, FactionCommands, LocationCommands, RaceCommands};
use crate::episode::Episode;
use crate::event::Event;
use crate::faction::Faction;
use crate::keyval::{is_one_of, keys_view, lemma_select_args_from, select_args, separate_relation_args};
use crate::location::Location;
use crate::race::Race;
use crate::setargs::{CreateError, args_view, number_readable, set_error_matches, SetArg, SetArgView, SetError};
use crate::story::Story;
use crate::text::string_of;
use crate::rows::rfc3339_valid;

verus! {

broadcast use vstd::string::group_string_axioms;

/// Why a command could not go on.
#[derive(Debug)]
pub enum CommandError {
    /// No record of this kind has this name.
    NotFound { kind: String, name: String },
    /// A record of this kind already has this name.
    AlreadyExists { kind: String, name: String },
    /// A `--set` assignment was refused.
    InvalidSet(SetError),
    /// No story has this name.
    StoryNotFound { name: String },
    /// The story has no episode with this number.
    EpisodeNotFound { story: String, number: i32 },
    /// The clock reads before the Unix epoch: no creation time can be stamped.
    ClockUnreadable,
}

impl CommandError {
    /// The message shown for the error.
    pub open spec fn message_text(self) -> Seq<char> {
        match self {
            CommandError::NotFound { kind, name } => kind@ + " '"@ + name@ + "' not found"@,
            CommandError::AlreadyExists { kind, name } => kind@ + " '"@ + name@ + "' already exists"@,
            CommandError::InvalidSet(e) => e.message_text(),
            CommandError::StoryNotFound { name } => "Story '"@ + name@ + "' not found"@,
            CommandError::EpisodeNotFound { story, number } => "Episode "@ + crate::text::signed_decimal(number as int)
                + " not found in story '"@ + story@ + "'"@,
            CommandError::ClockUnreadable => "system time before Unix epoch"@,
        }
    }

    /// The message shown for the error.
    pub fn message(&self) -> (r: String)
        ensures
            r@ == self.message_text(),
    {
        proof {
            reveal_strlit("");
        }
        match self {
            CommandError::NotFound { kind, name } => {
                let k = crate::text::chars_of(kind.as_str());
                crate::text::framed_pair("", k.as_slice(), " '", name.as_str(), "' not found")
            },
            CommandError::AlreadyExists { kind, name } => {
                let k = crate::text::chars_of(kind.as_str());
                crate::text::framed_pair("", k.as_slice(), " '", name.as_str(), "' already exists")
            },
            CommandError::InvalidSet(e) => e.message(),
            CommandError::StoryNotFound { name } => crate::text::framed("Story '", name.as_str(), "' not found"),
            CommandError::EpisodeNotFound { story, number } => {
                let n = crate::text::signed_decimal_chars(*number as i64);
                crate::text::framed_pair("Episode ", n.as_slice(), " not found in story '", story.as_str(), "'")
            },
            CommandError::ClockUnreadable => string_of("system time before Unix epoch"),
        }
    }
}

/// `r` reports that no `kind` is named `name`.
pub open spec fn not_found<T>(r: Result<T, CommandError>, kind: Seq<char>, name: Seq<char>) -> bool {
    r matches Err(CommandError::NotFound { kind: k, name: n }) && k@ == kind && n@ == name
}

fn not_found_error(kind: &str, name: String) -> (e: CommandError)
    ensures
        e matches CommandError::NotFound { kind: k, name: n } && k@ == kind@ && n@ == name@,
{
    CommandError::NotFound { kind: string_of(kind), name }
}

/// What a `character` subcommand does, once the character it names has been looked up.
#[derive(Debug)]
pub enum CharacterPlan {
    /// Store the new character.
    Insert(Character),
    /// Show every character.
    ListAll,
    /// Show this character.
    Show(Character),
    /// Ask for `--force`; nothing is deleted.
    ConfirmDelete { name: String },
    /// Delete this character.
    Delete(Character),
    /// Store the changed character.
    Save(Character),
}

impl CharacterCommands {
    /// The typed values of the command can all be read.
    pub open spec fn readable(&self) -> bool {
        match self {
            CharacterCommands::Create { set, .. } => Character::args_readable(args_view(set@)),
            CharacterCommands::Update { set, .. } => Character::args_readable(args_view(set@)),
            _ => true,
        }
    }

    /// Whether the typed values of the command can all be read.
    pub fn is_readable(&self) -> (r: bool)
        ensures
            r == self.readable(),
    {
        match self {
            CharacterCommands::Create { set, .. } => Character::assignments_readable(set),
            CharacterCommands::Update { set, .. } => Character::assignments_readable(set),
            _ => true,
        }
    }

    /// The name of the character to look up before the command runs, if any.
    pub fn lookup(&self) -> (r: Option<&str>)
        ensures
            match self {
                CharacterCommands::Info { name } => r matches Some(n) && n@ == name@,
                CharacterCommands::Delete { name, .. } => r matches Some(n) && n@ == name@,
                CharacterCommands::Update { name, .. } => r matches Some(n) && n@ == name@,
                _ => r is None,
            },
    {
        match self {
            CharacterCommands::Info { name } => Some(name.as_str()),
            CharacterCommands::Delete { name, .. } => Some(name.as_str()),
            CharacterCommands::Update { name, .. } => Some(name.as_str()),
            _ => None,
        }
    }
}

/// Decides what a `character` subcommand does, given the character that its
/// name found (`None` when there is none, or when the command names none).
pub fn handle_character_command(command: CharacterCommands, found: Option<Character>) -> (r: Result<CharacterPlan, CommandError>)
    requires
        command.readable(),
    ensures
        match command {
            CharacterCommands::Create { name, set } => match r {
                    Ok(CharacterPlan::Insert(c)) => rfc3339_valid(c.created_at@) && Character::run(Character::fresh(name@, c.created_at@), args_view(set@)) == (c@, None::<int>),
                    Err(CommandError::InvalidSet(e)) => exists|t: Seq<char>| #[trigger] Character::run(Character::fresh(name@, t), args_view(set@)).1 matches Some(i)
                        && set_error_matches(e, args_view(set@)[i]),
                    Err(CommandError::ClockUnreadable) => true,
                    _ => false,
                },
            CharacterCommands::List => r matches Ok(CharacterPlan::ListAll),
            CharacterCommands::Info { name } => match found {
                Some(c) => r == Ok::<CharacterPlan, CommandError>(CharacterPlan::Show(c)),
                None => not_found(r, "Character"@, name@),
            },
            CharacterCommands::Delete { name, force } => match found {
                Some(c) => if force {
                    r == Ok::<CharacterPlan, CommandError>(CharacterPlan::Delete(c))
                } else {
                    r matches Ok(CharacterPlan::ConfirmDelete { name: n }) && n@ == name@
                },
                None => not_found(r, "Character"@, name@),
            },
            CharacterCommands::Update { name, set } => match found {
                Some(c) => match r {
                        Ok(CharacterPlan::Save(c2)) => Character::run(c@, args_view(set@)) == (c2@, None::<int>),
                        Err(CommandError::InvalidSet(e)) => Character::run(c@, args_view(set@)).1 matches Some(i)
                            && set_error_matches(e, args_view(set@)[i]),
                        _ => false,
                    },
                None => not_found(r, "Character"@, name@),
            },
        },
{
    match command {
        CharacterCommands::Create { name, set } => {
            match Character::create_new(name, set) {
                Ok(c) => Ok(CharacterPlan::Insert(c)),
                Err(CreateError::Invalid(e)) => Err(CommandError::InvalidSet(e)),
                Err(CreateError::Clock) => Err(CommandError::ClockUnreadable),
            }
        },
        CharacterCommands::List => Ok(CharacterPlan::ListAll),
        CharacterCommands::Info { name } => match found {
            Some(c) => Ok(CharacterPlan::Show(c)),
            None => Err(not_found_error("Character", name)),
        },
        CharacterCommands::Delete { name, force } => match found {
            Some(c) => if force {
                Ok(CharacterPlan::Delete(c))
            } else {
                Ok(CharacterPlan::ConfirmDelete { name })
            },
            None => Err(not_found_error("Character", name)),
        },
        CharacterCommands::Update { name, set } => match found {
            Some(c) => {
                let mut c = c;
                match c.process_set_args(set) {
                        Ok(()) => Ok(CharacterPlan::Save(c)),
                        Err(e) => Err(CommandError::InvalidSet(e)),
                    }
            },
            None => Err(not_found_error("Character", name)),
        },
    }
}

/// What a `location` subcommand does, once the location it names has been looked up.
#[derive(Debug)]
pub enum LocationPlan {
    /// Store the new location.
    Insert(Location),
    /// Show every location.
    ListAll,
    /// Show this location.
    Show(Location),
    /// Ask for `--force`; nothing is deleted.
    ConfirmDelete { name: String },
    /// Delete this location.
    Delete(Location),
    /// Store the changed location.
    Save(Location),
}

impl LocationCommands {
    /// The typed values of the command can all be read.
    pub open spec fn readable(&self) -> bool {
        match self {
            LocationCommands::Create { set, .. } => Location::args_readable(args_view(set@)),
            LocationCommands::Update { set, .. } => Location::args_readable(args_view(set@)),
            _ => true,
        }
    }

    /// Whether the typed values of the command can all be read.
    pub fn is_readable(&self) -> (r: bool)
        ensures
            r == self.readable(),
    {
        match self {
            LocationCommands::Create { set, .. } => Location::assignments_readable(set),
            LocationCommands::Update { set, .. } => Location::assignments_readable(set),
            _ => true,
        }
    }

    /// The name of the location to look up before the command runs, if any.
    pub fn lookup(&self) -> (r: Option<&str>)
        ensures
            match self {
                LocationCommands::Info { name } => r matches Some(n) && n@ == name@,
                LocationCommands::Delete { name, .. } => r matches Some(n) && n@ == name@,
                LocationCommands::Update { name, .. } => r matches Some(n) && n@ == name@,
                _ => r is None,
            },
    {
        match self {
            LocationCommands::Info { name } => Some(name.as_str()),
            LocationCommands::Delete { name, .. } => Some(name.as_str()),
            LocationCommands::Update { name, .. } => Some(name.as_str()),
            _ => None,
        }
    }
}

/// Decides what a `location` subcommand does, given the location that its
/// name found (`None` when there is none, or when the command names none).
pub fn handle_location_command(command: LocationCommands, found: Option<Location>) -> (r: Result<LocationPlan, CommandError>)
    requires
        command.readable(),
    ensures
        match command {
            LocationCommands::Create { name, set } => match r {
                    Ok(LocationPlan::Insert(c)) => rfc3339_valid(c.created_at@) && Location::run(Location::fresh(name@, c.created_at@), args_view(set@)) == (c@, None::<int>),
                    Err(CommandError::InvalidSet(e)) => exists|t: Seq<char>| #[trigger] Location::run(Location::fresh(name@, t), args_view(set@)).1 matches Some(i)
                        && set_error_matches(e, args_view(set@)[i]),
                    Err(CommandError::ClockUnreadable) => true,
                    _ => false,
                },
            LocationCommands::List => r matches Ok(LocationPlan::ListAll),
            LocationCommands::Info { name } => match found {
                Some(c) => r == Ok::<LocationPlan, CommandError>(LocationPlan::Show(c)),
                None => not_found(r, "Location"@, name@),
            },
            LocationCommands::Delete { name, force } => match found {
                Some(c) => if force {
                    r == Ok::<LocationPlan, CommandError>(LocationPlan::Delete(c))
                } else {
                    r matches Ok(LocationPlan::ConfirmDelete { name: n }) && n@ == name@
                },
                None => not_found(r, "Location"@, name@),
            },
            LocationCommands::Update { name, set } => match found {
                Some(c) => match r {
                        Ok(LocationPlan::Save(c2)) => Location::run(c@, args_view(set@)) == (c2@, None::<int>),
                        Err(CommandError::InvalidSet(e)) => Location::run(c@, args_view(set@)).1 matches Some(i)
                            && set_error_matches(e, args_view(set@)[i]),
                        _ => false,
                    },
                None => not_found(r, "Location"@, name@),
            },
        },
{
    match command {
        LocationCommands::Create { name, set } => {
            match Location::create_new(name, set) {
                Ok(c) => Ok(LocationPlan::Insert(c)),
                Err(CreateError::Invalid(e)) => Err(CommandError::InvalidSet(e)),
                Err(CreateError::Clock) => Err(CommandError::ClockUnreadable),
            }
        },
        LocationCommands::List => Ok(LocationPlan::ListAll),
        LocationCommands::Info { name } => match found {
            Some(c) => Ok(LocationPlan::Show(c)),
            None => Err(not_found_error("Location", name)),
        },
        LocationCommands::Delete { name, force } => match found {
            Some(c) => if force {
                Ok(LocationPlan::Delete(c))
            } else {
                Ok(LocationPlan::ConfirmDelete { name })
            },
            None => Err(not_found_error("Location", name)),
        },
        LocationCommands::Update { name, set } => match found {
            Some(c) => {
                let mut c = c;
                match c.process_set_args(set) {
                        Ok(()) => Ok(LocationPlan::Save(c)),
                        Err(e) => Err(CommandError::InvalidSet(e)),
                    }
            },
            None => Err(not_found_error("Location", name)),
        },
    }
}

/// What a `race` subcommand does, once the race it names has been looked up.
#[derive(Debug)]
pub enum RacePlan {
    /// Store the new race.
    Insert { race: Race, relations: Vec<SetArg> },
    /// Show every race.
    ListAll,
    /// Show this race.
    Show(Race),
    /// Ask for `--force`; nothing is deleted.
    ConfirmDelete { name: String },
    /// Delete this race.
    Delete(Race),
    /// Store the changed race.
    Save { race: Race, relations: Vec<SetArg> },
}

impl RaceCommands {
    /// The typed values of the command can all be read.
    pub open spec fn readable(&self) -> bool {
        match self {
            RaceCommands::Create { set, .. } => Race::args_readable(args_view(set@)),
            RaceCommands::Update { set, .. } => Race::args_readable(args_view(set@)),
            _ => true,
        }
    }

    /// Whether the typed values of the command can all be read.
    pub fn is_readable(&self) -> (r: bool)
        ensures
            r == self.readable(),
    {
        match self {
            RaceCommands::Create { set, .. } => Race::assignments_readable(set),
            RaceCommands::Update { set, .. } => Race::assignments_readable(set),
            _ => true,
        }
    }

    /// The name of the race to look up before the command runs, if any.
    pub fn lookup(&self) -> (r: Option<&str>)
        ensures
            match self {
                RaceCommands::Info { name } => r matches Some(n) && n@ == name@,
                RaceCommands::Delete { name, .. } => r matches Some(n) && n@ == name@,
                RaceCommands::Update { name, .. } => r matches Some(n) && n@ == name@,
                _ => r is None,
            },
    {
        match self {
            RaceCommands::Info { name } => Some(name.as_str()),
            RaceCommands::Delete { name, .. } => Some(name.as_str()),
            RaceCommands::Update { name, .. } => Some(name.as_str()),
            _ => None,
        }
    }
}

/// Assignments kept out of the relations stay readable.
proof fn lemma_select_readable_race(s: Seq<SetArgView>, keys: Seq<Seq<char>>)
    requires
        Race::args_readable(s),
    ensures
        Race::args_readable(select_args(s, keys, false)),
{
    assert forall|i: int| 0 <= i < select_args(s, keys, false).len() && Race::typed_key(#[trigger] select_args(s, keys, false)[i].key)
        implies number_readable(select_args(s, keys, false)[i]) by {
        lemma_select_args_from(s, keys, false, i);
    }
}

/// Decides what a `race` subcommand does, given the race that its
/// name found (`None` when there is none, or when the command names none).
pub fn handle_race_command(command: RaceCommands, found: Option<Race>) -> (r: Result<RacePlan, CommandError>)
    requires
        command.readable(),
    ensures
        match command {
            RaceCommands::Create { name, set } => match r {
                    Ok(RacePlan::Insert { race: c, relations }) => rfc3339_valid(c.created_at@) && Race::run(Race::fresh(name@, c.created_at@), select_args(args_view(set@), seq!["system"@], false)) == (c@, None::<int>)
                        && args_view(relations@) == select_args(args_view(set@), seq!["system"@], true),
                    Err(CommandError::InvalidSet(e)) => exists|t: Seq<char>| #[trigger] Race::run(Race::fresh(name@, t), select_args(args_view(set@), seq!["system"@], false)).1 matches Some(i)
                        && set_error_matches(e, select_args(args_view(set@), seq!["system"@], false)[i]),
                    Err(CommandError::ClockUnreadable) => true,
                    _ => false,
                },
            RaceCommands::List => r matches Ok(RacePlan::ListAll),
            RaceCommands::Info { name } => match found {
                Some(c) => r == Ok::<RacePlan, CommandError>(RacePlan::Show(c)),
                None => not_found(r, "Race"@, name@),
            },
            RaceCommands::Delete { name, force } => match found {
                Some(c) => if force {
                    r == Ok::<RacePlan, CommandError>(RacePlan::Delete(c))
                } else {
                    r matches Ok(RacePlan::ConfirmDelete { name: n }) && n@ == name@
                },
                None => not_found(r, "Race"@, name@),
            },
            RaceCommands::Update { name, set } => match found {
                Some(c) => match r {
                        Ok(RacePlan::Save { race: c2, relations }) => Race::run(c@, select_args(args_view(set@), seq!["system"@], false)) == (c2@, None::<int>)
                            && args_view(relations@) == select_args(args_view(set@), seq!["system"@], true),
                        Err(CommandError::InvalidSet(e)) => Race::run(c@, select_args(args_view(set@), seq!["system"@], false)).1 matches Some(i)
                            && set_error_matches(e, select_args(args_view(set@), seq!["system"@], false)[i]),
                        _ => false,
                    },
                None => not_found(r, "Race"@, name@),
            },
        },
{
    match command {
        RaceCommands::Create { name, set } => {
            let keys = ["system"];
            let (relations, regular) = separate_relation_args(set, &keys);
            proof {
                reveal_strlit("system");
                assert(keys_view(keys@) =~= seq!["system"@]);
                lemma_select_readable_race(args_view(set@), keys_view(keys@));
            }
            match Race::create_new(name, regular) {
                Ok(c) => Ok(RacePlan::Insert { race: c, relations }),
                Err(CreateError::Invalid(e)) => Err(CommandError::InvalidSet(e)),
                Err(CreateError::Clock) => Err(CommandError::ClockUnreadable),
            }
        },
        RaceCommands::List => Ok(RacePlan::ListAll),
        RaceCommands::Info { name } => match found {
            Some(c) => Ok(RacePlan::Show(c)),
            None => Err(not_found_error("Race", name)),
        },
        RaceCommands::Delete { name, force } => match found {
            Some(c) => if force {
                Ok(RacePlan::Delete(c))
            } else {
                Ok(RacePlan::ConfirmDelete { name })
            },
            None => Err(not_found_error("Race", name)),
        },
        RaceCommands::Update { name, set } => match found {
            Some(c) => {
                let mut c = c;
                let keys = ["system"];
                    let (relations, regular) = separate_relation_args(set, &keys);
                    proof {
                        reveal_strlit("system");
                        assert(keys_view(keys@) =~= seq!["system"@]);
                        lemma_select_readable_race(args_view(set@), keys_view(keys@));
                    }
                    match c.process_set_args(regular) {
                        Ok(()) => Ok(RacePlan::Save { race: c, relations }),
                        Err(e) => Err(CommandError::InvalidSet(e)),
                    }
            },
            None => Err(not_found_error("Race", name)),
        },
    }
}

/// `a` with the key `title` renamed to `display_name`.
pub open spec fn title_as_display_name(a: SetArgView) -> SetArgView {
    if a.key == "title"@ {
        SetArgView { key: "display_name"@, ..a }
    } else {
        a
    }
}

/// The assignments with every `title` key renamed to `display_name`.
pub open spec fn normalized_event_args(s: Seq<SetArgView>) -> Seq<SetArgView> {
    s.map_values(|a: SetArgView| title_as_display_name(a))
}

/// The value of the first assignment whose key satisfies `wanted`, if any.
pub open spec fn first_value(s: Seq<SetArgView>, wanted: spec_fn(Seq<char>) -> bool) -> Option<Seq<char>>
    decreases s.len(),
{
    if s.len() == 0 {
        None
    } else if wanted(s[0].key) {
        Some(s[0].value)
    } else {
        first_value(s.drop_first(), wanted)
    }
}

/// Renames every `title` key to `display_name`, keeping the order.
pub fn normalize_event_args(set: Vec<SetArg>) -> (r: Vec<SetArg>)
    ensures
        args_view(r@) == normalized_event_args(args_view(set@)),
{
    let ghost all = args_view(set@);
    let mut out: Vec<SetArg> = Vec::new();
    for arg in it: set.into_iter()
        invariant
            all == args_view(it.seq()),
            out@.len() == it.index(),
            forall|j: int| 0 <= j < it.index() ==> #[trigger] out@[j]@ == title_as_display_name(all[j]),
    {
        let ghost k = it.index();
        assert(all[k] == arg@);
        if crate::text::str_eq(arg.key.as_str(), "title") {
            out.push(SetArg { key: string_of("display_name"), value: arg.value, float: arg.float });
        } else {
            out.push(arg);
        }
    }
    assert(args_view(out@) =~= normalized_event_args(all));
    out
}

/// The value of the first assignment whose key is `key`.
pub fn first_value_of(set: &Vec<SetArg>, key: &str) -> (r: Option<String>)
    ensures
        match r {
            Some(v) => first_value(args_view(set@), |k: Seq<char>| k == key@) == Some(v@),
            None => first_value(args_view(set@), |k: Seq<char>| k == key@) is None,
        },
{
    let ghost all = args_view(set@);
    let ghost wanted = |k: Seq<char>| k == key@;
    let mut i: usize = 0;
    assert(all.skip(0) == all);
    while i < set.len()
        invariant
            i <= set@.len(),
            all == args_view(set@),
            wanted == (|k: Seq<char>| k == key@),
            first_value(all, wanted) == first_value(all.skip(i as int), wanted),
        decreases set@.len() - i,
    {
        assert(all.skip(i as int).drop_first() == all.skip(i + 1));
        assert(all.skip(i as int)[0] == set@[i as int]@);
        if crate::text::str_eq(set[i].key.as_str(), key) {
            return Some(set[i].value.clone());
        }
        i = i + 1;
    }
    None
}

/// The title announced when an event is created: the value of the first
/// `title` or `display_name` assignment, else the name.
pub open spec fn announced_title(name: Seq<char>, args: Seq<SetArgView>) -> Seq<char> {
    match first_value(args, |k: Seq<char>| k == "title"@ || k == "display_name"@) {
        Some(t) => t,
        None => name,
    }
}

fn announced_title_of(name: &String, set: &Vec<SetArg>) -> (r: String)
    ensures
        r@ == announced_title(name@, args_view(set@)),
{
    let ghost all = args_view(set@);
    let ghost wanted = |k: Seq<char>| k == "title"@ || k == "display_name"@;
    let mut i: usize = 0;
    assert(all.skip(0) == all);
    while i < set.len()
        invariant
            i <= set@.len(),
            all == args_view(set@),
            wanted == (|k: Seq<char>| k == "title"@ || k == "display_name"@),
            first_value(all, wanted) == first_value(all.skip(i as int), wanted),
        decreases set@.len() - i,
    {
        assert(all.skip(i as int).drop_first() == all.skip(i + 1));
        assert(all.skip(i as int)[0] == set@[i as int]@);
        if crate::text::str_eq(set[i].key.as_str(), "title") || crate::text::str_eq(set[i].key.as_str(), "display_name") {
            return set[i].value.clone();
        }
        i = i + 1;
    }
    name.clone()
}

/// Whether every assignment to a typed event field, `title` counting as
/// `display_name`, carries a readable value.
fn event_assignments_readable(set: &Vec<SetArg>) -> (r: bool)
    ensures
        r == Event::args_readable(normalized_event_args(args_view(set@))),
{
    let ghost all = normalized_event_args(args_view(set@));
    let mut i: usize = 0;
    while i < set.len()
        invariant
            i <= set@.len(),
            all == normalized_event_args(args_view(set@)),
            forall|j: int| 0 <= j < i && Event::typed_key(#[trigger] all[j].key) ==> number_readable(all[j]),
        decreases set@.len() - i,
    {
        proof {
            reveal_strlit("title");
            reveal_strlit("display_name");
        }
        assert(all[i as int] == title_as_display_name(set@[i as int]@));
        let key = set[i].key.as_str();
        let typed = crate::text::str_eq(key, "title") || Event::is_typed_key(key);
        if typed && !crate::setargs::value_readable(&set[i]) {
            assert(Event::typed_key(all[i as int].key) && !number_readable(all[i as int]));
            return false;
        }
        i = i + 1;
    }
    true
}

/// What an `event` subcommand does, once the event it names has been looked up.
#[derive(Debug)]
pub enum EventPlan {
    /// Announce `title`, then read `date` (when given) as a timeline date and
    /// set it on the event, then store the event.
    Insert { event: Event, title: String, date: Option<String> },
    /// Show every event.
    ListAll,
    /// Show every event in chronological order.
    ListChronological,
    /// Show this event.
    Show(Event),
    /// Ask for `--force`; nothing is deleted.
    ConfirmDelete { name: String },
    /// Delete this event.
    Delete(Event),
    /// Store the changed event; then, when `date` is given, read it as a
    /// timeline date, set it on the event and store the event again.
    Save { event: Event, date: Option<String> },
}

impl EventCommands {
    /// The typed values of the command can all be read, once `title` keys are renamed.
    pub open spec fn readable(&self) -> bool {
        match self {
            EventCommands::Create { set, .. } => Event::args_readable(normalized_event_args(args_view(set@))),
            EventCommands::Update { set, .. } => Event::args_readable(normalized_event_args(args_view(set@))),
            _ => true,
        }
    }

    /// Whether the typed values of the command can all be read, once `title`
    /// assignments are taken as `display_name` ones.
    pub fn is_readable(&self) -> (r: bool)
        ensures
            r == self.readable(),
    {
        match self {
            EventCommands::Create { set, .. } => event_assignments_readable(set),
            EventCommands::Update { set, .. } => event_assignments_readable(set),
            _ => true,
        }
    }

    /// The name of the event to look up before the command runs, if any.
    pub fn lookup(&self) -> (r: Option<&str>)
        ensures
            match self {
                EventCommands::Info { name } => r matches Some(n) && n@ == name@,
                EventCommands::Delete { name, .. } => r matches Some(n) && n@ == name@,
                EventCommands::Update { name, .. } => r matches Some(n) && n@ == name@,
                _ => r is None,
            },
    {
        match self {
            EventCommands::Info { name } => Some(name.as_str()),
            EventCommands::Delete { name, .. } => Some(name.as_str()),
            EventCommands::Update { name, .. } => Some(name.as_str()),
            _ => None,
        }
    }
}

/// Decides what an `event` subcommand does, given the event that its name
/// found (`None` when there is none, or when the command names none). A
/// `title` assignment sets the display name.
pub fn handle_event_command(command: EventCommands, found: Option<Event>) -> (r: Result<EventPlan, CommandError>)
    requires
        command.readable(),
    ensures
        match command {
            EventCommands::Create { name, set } => match r {
                Ok(EventPlan::Insert { event: e, title, date }) => {
                    &&& rfc3339_valid(e.created_at@)
                    &&& Event::run(Event::fresh(name@, e.created_at@), normalized_event_args(args_view(set@))) == (e@, None::<int>)
                    &&& title@ == announced_title(name@, args_view(set@))
                    &&& match date {
                        Some(d) => e@.metadata.contains_key("date"@) && e@.metadata["date"@] == crate::metadata::MetaVal::Text(d@),
                        None => !(e@.metadata.contains_key("date"@) && e@.metadata["date"@] is Text),
                    }
                },
                Err(CommandError::InvalidSet(err)) => exists|t: Seq<char>| #[trigger] Event::run(Event::fresh(name@, t), normalized_event_args(args_view(set@))).1 matches Some(i)
                    && set_error_matches(err, normalized_event_args(args_view(set@))[i]),
                Err(CommandError::ClockUnreadable) => true,
                _ => false,
            },
            EventCommands::List => r matches Ok(EventPlan::ListAll),
            EventCommands::Timeline => r matches Ok(EventPlan::ListChronological),
            EventCommands::Info { name } => match found {
                Some(e) => r == Ok::<EventPlan, CommandError>(EventPlan::Show(e)),
                None => not_found(r, "Event"@, name@),
            },
            EventCommands::Delete { name, force } => match found {
                Some(e) => if force {
                    r == Ok::<EventPlan, CommandError>(EventPlan::Delete(e))
                } else {
                    r matches Ok(EventPlan::ConfirmDelete { name: n }) && n@ == name@
                },
                None => not_found(r, "Event"@, name@),
            },
            EventCommands::Update { name, set } => match found {
                Some(e) => match r {
                    Ok(EventPlan::Save { event: e2, date }) => {
                        &&& Event::run(e@, normalized_event_args(args_view(set@))) == (e2@, None::<int>)
                        &&& match date {
                            Some(d) => first_value(args_view(set@), |k: Seq<char>| k == "date"@) == Some(d@),
                            None => first_value(args_view(set@), |k: Seq<char>| k == "date"@) is None,
                        }
                    },
                    Err(CommandError::InvalidSet(err)) => Event::run(e@, normalized_event_args(args_view(set@))).1 matches Some(i)
                        && set_error_matches(err, normalized_event_args(args_view(set@))[i]),
                    _ => false,
                },
                None => not_found(r, "Event"@, name@),
            },
        },
{
    match command {
        EventCommands::Create { name, set } => {
            let title = announced_title_of(&name, &set);
            let normalized = normalize_event_args(set);
            match Event::create_new(name, normalized) {
                Ok(e) => {
                    let date = match e.metadata.get("date") {
                        Some(v) => match v.as_text() {
                            Some(t) => Some(t.clone()),
                            None => None,
                        },
                        None => None,
                    };
                    Ok(EventPlan::Insert { event: e, title, date })
                },
                Err(CreateError::Invalid(err)) => Err(CommandError::InvalidSet(err)),
                Err(CreateError::Clock) => Err(CommandError::ClockUnreadable),
            }
        },
        EventCommands::List => Ok(EventPlan::ListAll),
        EventCommands::Timeline => Ok(EventPlan::ListChronological),
        EventCommands::Info { name } => match found {
            Some(e) => Ok(EventPlan::Show(e)),
            None => Err(not_found_error("Event", name)),
        },
        EventCommands::Delete { name, force } => match found {
            Some(e) => if force {
                Ok(EventPlan::Delete(e))
            } else {
                Ok(EventPlan::ConfirmDelete { name })
            },
            None => Err(not_found_error("Event", name)),
        },
        EventCommands::Update { name, set } => match found {
            Some(e) => {
                let mut e = e;
                let date = first_value_of(&set, "date");
                let normalized = normalize_event_args(set);
                match e.process_set_args(normalized) {
                    Ok(()) => Ok(EventPlan::Save { event: e, date }),
                    Err(err) => Err(CommandError::InvalidSet(err)),
                }
            },
            None => Err(not_found_error("Event", name)),
        },
    }
}

/// What an `episode` subcommand does, once the episode it names has been looked up.
#[derive(Debug)]
pub enum EpisodePlan {
    /// Store the new episode, write its file in the directory of `story`,
    /// then record the `relations` assignments.
    Insert { episode: Episode, story: Story, relations: Vec<SetArg> },
    /// Show the episodes of the story.
    ListStory { story: String },
    /// Show this episode.
    Show(Episode),
    /// Ask for `--force`; nothing is deleted.
    ConfirmDelete { story: String, number: i32 },
    /// Delete this episode and its file.
    Delete(Episode),
    /// Record the `relations` assignments, then store the changed episode.
    Save { episode: Episode, relations: Vec<SetArg> },
}

/// The relation keys of an episode.
pub open spec fn episode_keys() -> Seq<Seq<char>> {
    seq!["character"@]
}

/// Assignments kept out of the relations stay readable.
proof fn lemma_select_readable_episode(s: Seq<SetArgView>, keys: Seq<Seq<char>>)
    requires
        Episode::args_readable(s),
    ensures
        Episode::args_readable(select_args(s, keys, false)),
{
    assert forall|i: int| 0 <= i < select_args(s, keys, false).len() && Episode::typed_key(#[trigger] select_args(s, keys, false)[i].key)
        implies number_readable(select_args(s, keys, false)[i]) by {
        lemma_select_args_from(s, keys, false, i);
    }
}

/// `r` reports that `story` has no episode `number`.
pub open spec fn episode_not_found<T>(r: Result<T, CommandError>, story: Seq<char>, number: i32) -> bool {
    r matches Err(CommandError::EpisodeNotFound { story: s, number: n }) && s@ == story && n == number
}

impl EpisodeCommands {
    /// The typed values of the command can all be read.
    pub open spec fn readable(&self) -> bool {
        match self {
            EpisodeCommands::Create { set, .. } => Episode::args_readable(args_view(set@)),
            EpisodeCommands::Update { set, .. } => Episode::args_readable(args_view(set@)),
            _ => true,
        }
    }

    /// Whether the typed values of the command can all be read.
    pub fn is_readable(&self) -> (r: bool)
        ensures
            r == self.readable(),
    {
        match self {
            EpisodeCommands::Create { set, .. } => Episode::assignments_readable(set),
            EpisodeCommands::Update { set, .. } => Episode::assignments_readable(set),
            _ => true,
        }
    }

    /// The story and number of the episode to look up before the command runs, if any.
    pub fn lookup(&self) -> (r: Option<(&str, i32)>)
        ensures
            match self {
                EpisodeCommands::Info { story, number } => r matches Some((s, n)) && s@ == story@ && n == number,
                EpisodeCommands::Delete { story, number, .. } => r matches Some((s, n)) && s@ == story@ && n == number,
                EpisodeCommands::Update { story, number, .. } => r matches Some((s, n)) && s@ == story@ && n == number,
                _ => r is None,
            },
    {
        match self {
            EpisodeCommands::Info { story, number } => Some((story.as_str(), *number)),
            EpisodeCommands::Delete { story, number, .. } => Some((story.as_str(), *number)),
            EpisodeCommands::Update { story, number, .. } => Some((story.as_str(), *number)),
            _ => None,
        }
    }
}

/// Decides what an `episode` subcommand does, given the episode that its
/// story and number found, and, for `create`, the number after the highest
/// one the story has and the story itself (`None` when there is no such story).
/// A `character` assignment names a relation rather than a field.
pub fn handle_episode_command(command: EpisodeCommands, found: Option<Episode>, next_number: i32, story: Option<Story>) -> (r: Result<EpisodePlan, CommandError>)
    requires
        command.readable(),
    ensures
        match command {
            EpisodeCommands::Create { story: story_name, set } => {
                let regular = select_args(args_view(set@), episode_keys(), false);
                match r {
                    Ok(EpisodePlan::Insert { episode: e, story: s, relations }) => {
                        &&& rfc3339_valid(e.created_at@)
                        &&& Episode::run(Episode::fresh(story_name@, next_number, e.created_at@), regular) == (e@, None::<int>)
                        &&& story == Some(s)
                        &&& args_view(relations@) == select_args(args_view(set@), episode_keys(), true)
                    },
                    Err(CommandError::InvalidSet(err)) => exists|t: Seq<char>| #[trigger] Episode::run(Episode::fresh(story_name@, next_number, t), regular).1 matches Some(i)
                        && set_error_matches(err, regular[i]),
                    Err(CommandError::StoryNotFound { name }) => story is None && name@ == story_name@
                        && exists|t: Seq<char>| #[trigger] Episode::run(Episode::fresh(story_name@, next_number, t), regular).1 is None,
                    Err(CommandError::ClockUnreadable) => true,
                    _ => false,
                }
            },
            EpisodeCommands::List { story: story_name } => r matches Ok(EpisodePlan::ListStory { story: s }) && s@ == story_name@,
            EpisodeCommands::Info { story: story_name, number } => match found {
                Some(e) => r == Ok::<EpisodePlan, CommandError>(EpisodePlan::Show(e)),
                None => episode_not_found(r, story_name@, number),
            },
            EpisodeCommands::Delete { story: story_name, number, force } => match found {
                Some(e) => if force {
                    r == Ok::<EpisodePlan, CommandError>(EpisodePlan::Delete(e))
                } else {
                    r matches Ok(EpisodePlan::ConfirmDelete { story: s, number: n }) && s@ == story_name@ && n == number
                },
                None => episode_not_found(r, story_name@, number),
            },
            EpisodeCommands::Update { story: story_name, number, set } => match found {
                Some(e) => {
                    let regular = select_args(args_view(set@), episode_keys(), false);
                    match r {
                        Ok(EpisodePlan::Save { episode: e2, relations }) => {
                            &&& Episode::run(e@, regular) == (e2@, None::<int>)
                            &&& args_view(relations@) == select_args(args_view(set@), episode_keys(), true)
                        },
                        Err(CommandError::InvalidSet(err)) => Episode::run(e@, regular).1 matches Some(i)
                            && set_error_matches(err, regular[i]),
                        _ => false,
                    }
                },
                None => episode_not_found(r, story_name@, number),
            },
        },
{
    match command {
        EpisodeCommands::Create { story: story_name, set } => {
            let keys = ["character"];
            let (relations, regular) = separate_relation_args(set, &keys);
            proof {
                reveal_strlit("character");
                assert(keys_view(keys@) =~= episode_keys());
                lemma_select_readable_episode(args_view(set@), keys_view(keys@));
            }
            let ghost sv = story_name@;
            let mut e = match Episode::new_with_next_number(story_name, next_number) {
                Some(e) => e,
                None => {
                    return Err(CommandError::ClockUnreadable);
                },
            };
            let ghost t = e.created_at@;
            let ghost regular_v = select_args(args_view(set@), episode_keys(), false);
            proof {
                Episode::lemma_run_keeps_identity(Episode::fresh(sv, next_number, t), regular_v);
            }
            match e.process_set_args(regular) {
                Ok(()) => {},
                Err(err) => {
                    assert(Episode::run(Episode::fresh(sv, next_number, t), regular_v).1 is Some);
                    return Err(CommandError::InvalidSet(err));
                },
            }
            assert(Episode::run(Episode::fresh(sv, next_number, t), regular_v).1 is None);
            match story {
                Some(s) => Ok(EpisodePlan::Insert { episode: e, story: s, relations }),
                None => Err(CommandError::StoryNotFound { name: e.story.clone() }),
            }
        },
        EpisodeCommands::List { story: story_name } => Ok(EpisodePlan::ListStory { story: story_name }),
        EpisodeCommands::Info { story: story_name, number } => match found {
            Some(e) => Ok(EpisodePlan::Show(e)),
            None => Err(CommandError::EpisodeNotFound { story: story_name, number }),
        },
        EpisodeCommands::Delete { story: story_name, number, force } => match found {
            Some(e) => if force {
                Ok(EpisodePlan::Delete(e))
            } else {
                Ok(EpisodePlan::ConfirmDelete { story: story_name, number })
            },
            None => Err(CommandError::EpisodeNotFound { story: story_name, number }),
        },
        EpisodeCommands::Update { story: story_name, number, set } => match found {
            Some(e) => {
                let mut e = e;
                let keys = ["character"];
                let (relations, regular) = separate_relation_args(set, &keys);
                proof {
                    reveal_strlit("character");
                    assert(keys_view(keys@) =~= episode_keys());
                    lemma_select_readable_episode(args_view(set@), keys_view(keys@));
                }
                match e.process_set_args(regular) {
                    Ok(()) => Ok(EpisodePlan::Save { episode: e, relations }),
                    Err(err) => Err(CommandError::InvalidSet(err)),
                }
            },
            None => Err(CommandError::EpisodeNotFound { story: story_name, number }),
        },
    }
}

/// What a `faction` subcommand does, once the faction it names has been looked up.
#[derive(Debug)]
pub enum FactionPlan {
    /// Store the new faction.
    Insert(Faction),
    /// Show every faction.
    ListAll,
    /// Show this faction.
    Show(Faction),
    /// Ask for `--force`; nothing is deleted.
    ConfirmDelete { name: String },
    /// Delete this faction.
    Delete(Faction),
    /// Store the changed faction.
    Save(Faction),
}

impl FactionCommands {
    /// The name of the faction to look up before the command runs (every
    /// subcommand but `list` names one).
    pub fn lookup(&self) -> (r: Option<&str>)
        ensures
            match self {
                FactionCommands::Create { name, .. } => r matches Some(n) && n@ == name@,
                FactionCommands::Info { name } => r matches Some(n) && n@ == name@,
                FactionCommands::Delete { name, .. } => r matches Some(n) && n@ == name@,
                FactionCommands::Update { name, .. } => r matches Some(n) && n@ == name@,
                FactionCommands::List => r is None,
            },
    {
        match self {
            FactionCommands::Create { name, .. } => Some(name.as_str()),
            FactionCommands::Info { name } => Some(name.as_str()),
            FactionCommands::Delete { name, .. } => Some(name.as_str()),
            FactionCommands::Update { name, .. } => Some(name.as_str()),
            FactionCommands::List => None,
        }
    }
}

/// Decides what a `faction` subcommand does, given the faction that its name
/// found (`None` when there is none). A new faction keeps every `--set` value
/// as text metadata; its name must not be taken.
pub fn handle_faction_command(command: FactionCommands, found: Option<Faction>) -> (r: Result<FactionPlan, CommandError>)
    ensures
        match command {
            FactionCommands::Create { name, display_name, faction_type, set } => match found {
                Some(_) => r matches Err(CommandError::AlreadyExists { kind, name: n }) && kind@ == "Faction"@ && n@ == name@,
                None => match r {
                    Ok(FactionPlan::Insert(f)) => f.name@ == name@ && f.display_name@ == display_name@
                        && f.faction_type@ == faction_type@
                        && f.metadata@ == crate::metadata::with_texts(Map::empty(), crate::keyval::pairs_view(set@))
                        && f.description is None && rfc3339_valid(f.created_at@)
                        && f.status == crate::status::FactionStatus::Active,
                    Err(CommandError::ClockUnreadable) => true,
                    _ => false,
                },
            },
            FactionCommands::List => r matches Ok(FactionPlan::ListAll),
            FactionCommands::Info { name } => match found {
                Some(f) => r == Ok::<FactionPlan, CommandError>(FactionPlan::Show(f)),
                None => not_found(r, "Faction"@, name@),
            },
            FactionCommands::Delete { name, force } => match found {
                Some(f) => if force {
                    r == Ok::<FactionPlan, CommandError>(FactionPlan::Delete(f))
                } else {
                    r matches Ok(FactionPlan::ConfirmDelete { name: n }) && n@ == name@
                },
                None => not_found(r, "Faction"@, name@),
            },
            FactionCommands::Update { name, display_name, faction_type, set } => match found {
                Some(f) => r matches Ok(FactionPlan::Save(f2))
                    && f2.display_name@ == (match display_name { Some(d) => d@, None => f.display_name@ })
                    && f2.faction_type@ == (match faction_type { Some(t) => t@, None => f.faction_type@ })
                    && f2.metadata@ == crate::metadata::with_texts(f.metadata@, crate::keyval::pairs_view(set@))
                    && f2.name == f.name && f2.description == f.description
                    && f2.created_at == f.created_at && f2.status == f.status,
                None => not_found(r, "Faction"@, name@),
            },
        },
{
    match command {
        FactionCommands::Create { name, display_name, faction_type, set } => match found {
            Some(_) => Err(CommandError::AlreadyExists { kind: string_of("Faction"), name }),
            None => match Faction::create_new(name, display_name, faction_type, set) {
                Ok(f) => Ok(FactionPlan::Insert(f)),
                Err(_) => Err(CommandError::ClockUnreadable),
            },
        },
        FactionCommands::List => Ok(FactionPlan::ListAll),
        FactionCommands::Info { name } => match found {
            Some(f) => Ok(FactionPlan::Show(f)),
            None => Err(not_found_error("Faction", name)),
        },
        FactionCommands::Delete { name, force } => match found {
            Some(f) => if force {
                Ok(FactionPlan::Delete(f))
            } else {
                Ok(FactionPlan::ConfirmDelete { name })
            },
            None => Err(not_found_error("Faction", name)),
        },
        FactionCommands::Update { name, display_name, faction_type, set } => match found {
            Some(f) => {
                let mut f = f;
                f.update(display_name, faction_type, set);
                Ok(FactionPlan::Save(f))
            },
            None => Err(not_found_error("Faction", name)),
        },
    }
}

} // verus!
