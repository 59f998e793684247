use multiverse::character::Character;
use multiverse::cli::{CharacterCommands, EpisodeCommands, EventCommands, RaceCommands};
use multiverse::episode::Episode;
use multiverse::event::{DateError, Event};
use multiverse::handlers::{
    handle_character_command, handle_episode_command, handle_event_command, handle_race_command, CharacterPlan,
    CommandError, EpisodePlan, EventPlan, RacePlan,
};
use multiverse::location::Location;
use multiverse::metadata::{MetaValue, Metadata};
use multiverse::rows::RowError;
use multiverse::race::Race;
use multiverse::setargs::{FloatReading, SetArg, SetError};
use multiverse::status::{CharacterStatus, EpisodeStatus, EventStatus, LocationStatus, RaceStatus, StoryStatus};
use multiverse::story::{Episode as StoryEpisode, Story};

fn arg(k: &str, v: &str) -> SetArg {
    let float = match v.parse::<f64>() {
        Ok(x) if x.is_finite() => FloatReading::Finite,
        Ok(_) => FloatReading::NonFinite,
        Err(_) => FloatReading::NotFloat,
    };
    SetArg { key: k.to_string(), value: v.to_string(), float }
}

fn text_of(v: Option<&MetaValue>) -> Option<String> {
    match v {
        Some(MetaValue::Text(t)) => Some(t.clone()),
        _ => None,
    }
}

#[test]
fn character_create_applies_assignments_in_order() {
    let c = Character::create_new_at(
        "fenrik".to_string(),
        vec![
            arg("display_name", "Fenrik Mealor"),
            arg("profession", "explorer"),
            arg("profession", "cartographer"),
            arg("status", "Deceased"),
        ],
        "2024-01-01T00:00:00+00:00".to_string(),
    )
    .unwrap();
    assert_eq!(c.name, "fenrik");
    assert_eq!(c.display_name, "Fenrik Mealor");
    assert_eq!(c.status, CharacterStatus::Deceased);
    assert_eq!(c.id, 0);
    assert_eq!(c.created_at, "2024-01-01T00:00:00+00:00");
    assert_eq!(text_of(c.metadata.get("profession")), Some("cartographer".to_string()));
    assert_eq!(c.metadata.len(), 1);
    assert_eq!(c.display_name(), "Fenrik Mealor");
    assert_eq!(c.display_key(), "fenrik");
}

#[test]
fn character_without_display_name_shows_its_name() {
    let c = Character::create_new_at("lyra".to_string(), vec![], "t".to_string()).unwrap();
    assert_eq!(c.display_name(), "lyra");
    assert_eq!(c.status, CharacterStatus::Active);
    assert!(c.metadata.is_empty());
}

#[test]
fn numeric_display_name_is_refused() {
    match Character::create_new_at("x".to_string(), vec![arg("display_name", "123")], "t".to_string()) {
        Err(SetError::InvalidValue { field, value }) => {
            assert_eq!(field, "display_name");
            assert_eq!(value, "123");
        }
        other => panic!("unexpected {:?}", other),
    }
    assert!(Character::create_new_at("x".to_string(), vec![arg("display_name", "1.5")], "t".to_string()).is_err());
}

#[test]
fn unknown_status_is_refused() {
    match Character::create_new_at("x".to_string(), vec![arg("age", "25"), arg("status", "active")], "t".to_string()) {
        Err(SetError::InvalidStatus { value }) => assert_eq!(value, "active"),
        other => panic!("unexpected {:?}", other),
    }
}

#[test]
fn race_and_location_assignments() {
    let r = Race::create_new_at(
        "high_elves".to_string(),
        vec![arg("display_name", "High Elves"), arg("lifespan", "1000"), arg("status", "Legendary")],
        "t".to_string(),
    )
    .unwrap();
    assert_eq!(r.display_name(), "High Elves");
    assert_eq!(r.status, RaceStatus::Legendary);
    assert_eq!(text_of(r.metadata.get("lifespan")), Some("1000".to_string()));
    let l = Location::create_new_at(
        "glass_gardens".to_string(),
        vec![arg("type", "region"), arg("status", "Destroyed")],
        "t".to_string(),
    )
    .unwrap();
    assert_eq!(l.display_name(), "glass_gardens");
    assert_eq!(l.status, LocationStatus::Destroyed);
    assert_eq!(text_of(l.metadata.get("type")), Some("region".to_string()));
}

#[test]
fn event_date_update() {
    let mut e = Event::create_new_at("first_contact".to_string(), vec![], "t".to_string()).unwrap();
    assert_eq!(e.status, EventStatus::default_status());
    e.update_date("1A/1/1".to_string(), Some(42)).unwrap();
    assert_eq!(e.date_text, "1A/1/1");
    assert_eq!(e.sort_key, 42);
    match e.update_date("nonsense".to_string(), None) {
        Err(DateError::Unreadable { text }) => assert_eq!(text, "nonsense"),
        other => panic!("unexpected {:?}", other),
    }
    assert_eq!(e.date_text, "1A/1/1");
    assert_eq!(e.sort_key, 42);
}

#[test]
fn episode_names_and_content() {
    let mut ep = Episode::new_with_next_number_at("fenrik_mealor".to_string(), 3, "2024-01-01T10:00:00+02:00".to_string());
    assert_eq!(ep.status, EpisodeStatus::Draft);
    assert_eq!(ep.episode_file_name(), "003.md");
    assert_eq!(ep.display_title(), "003. Episode 3");
    assert_eq!(ep.display_key(), "fenrik_mealor:3");
    let content = ep.generate_episode_content("Fenrik");
    assert_eq!(
        content,
        "# Untitled Episode\n\n**Story:** Fenrik\n**Episode:** 3\n**Status:** Draft\n**Created:** 2024-01-01 08:00\n\n---\n\n[Episode content goes here]\n\n---\n\n**Word Count:** 0\n"
    );
    assert_eq!(multiverse::clock::created_display("2024-03-05T23:59:59Z"), "2024-03-05 23:59");
    assert_eq!(multiverse::clock::created_display("not a time"), "not a time");
    ep.title = "Il Giardino di Vetro".to_string();
    assert_eq!(ep.display_title(), "003. Il Giardino di Vetro");
    let path = ep.get_episode_path("stories/fenrik_mealor_diary");
    assert!(path.ends_with("003.md"));
    assert!(path.starts_with("stories/fenrik_mealor_diary"));
}

#[test]
fn episode_word_count_is_typed() {
    let ep = Episode::create_new_at("s".to_string(), 1, vec![arg("word_count", "1200"), arg("title", "Alba")], "t".to_string()).unwrap();
    assert_eq!(ep.word_count, 1200);
    assert_eq!(ep.title, "Alba");
    assert!(Episode::create_new_at("s".to_string(), 1, vec![arg("word_count", "many")], "t".to_string()).is_err());
}

#[test]
fn character_command_plans() {
    let found = Character::create_new_at("fenrik".to_string(), vec![], "t".to_string()).unwrap();
    match handle_character_command(CharacterCommands::Delete { name: "fenrik".to_string(), force: false }, Some(found)) {
        Ok(CharacterPlan::ConfirmDelete { name }) => assert_eq!(name, "fenrik"),
        other => panic!("unexpected {:?}", other),
    }
    match handle_character_command(CharacterCommands::Info { name: "ghost".to_string() }, None) {
        Err(CommandError::NotFound { kind, name }) => {
            assert_eq!(kind, "Character");
            assert_eq!(name, "ghost");
        }
        other => panic!("unexpected {:?}", other),
    }
    let found = Character::create_new_at("fenrik".to_string(), vec![arg("age", "24")], "t".to_string()).unwrap();
    match handle_character_command(
        CharacterCommands::Update { name: "fenrik".to_string(), set: vec![arg("age", "25")] },
        Some(found),
    ) {
        Ok(CharacterPlan::Save(c)) => assert_eq!(text_of(c.metadata.get("age")), Some("25".to_string())),
        other => panic!("unexpected {:?}", other),
    }
    assert!(matches!(handle_character_command(CharacterCommands::List, None), Ok(CharacterPlan::ListAll)));
}

#[test]
fn race_relations_are_kept_apart() {
    match handle_race_command(
        RaceCommands::Create {
            name: "high_elves".to_string(),
            set: vec![arg("system", "aetherial_magic"), arg("lifespan", "1000")],
        },
        None,
    ) {
        Ok(RacePlan::Insert { race, relations }) => {
            assert!(race.metadata.get("system").is_none());
            assert_eq!(text_of(race.metadata.get("lifespan")), Some("1000".to_string()));
            assert_eq!(relations.len(), 1);
            assert_eq!(relations[0].key, "system");
            assert_eq!(relations[0].value, "aetherial_magic");
        }
        other => panic!("unexpected {:?}", other),
    }
}

#[test]
fn event_title_becomes_display_name() {
    match handle_event_command(
        EventCommands::Create { name: "summit".to_string(), set: vec![arg("title", "The Summit")] },
        None,
    ) {
        Ok(EventPlan::Insert { event, title, date }) => {
            assert_eq!(event.display_name, "The Summit");
            assert_eq!(title, "The Summit");
            assert_eq!(date, None);
        }
        other => panic!("unexpected {:?}", other),
    }
}

#[test]
fn episode_commands_need_the_story() {
    match handle_episode_command(
        EpisodeCommands::Create { story: "missing".to_string(), set: vec![] },
        None,
        1,
        None,
    ) {
        Err(CommandError::StoryNotFound { name }) => assert_eq!(name, "missing"),
        other => panic!("unexpected {:?}", other),
    }
    let story = Story::new_at("fenrik_mealor".to_string(), "Fenrik".to_string(), None, "t".to_string());
    match handle_episode_command(
        EpisodeCommands::Create { story: "fenrik_mealor".to_string(), set: vec![arg("title", "Alba")] },
        None,
        4,
        Some(story),
    ) {
        Ok(EpisodePlan::Insert { episode, story, relations }) => {
            assert_eq!(story.name, "fenrik_mealor");
            assert!(relations.is_empty());
            assert_eq!(episode.number, 4);
            assert_eq!(episode.title, "Alba");
        }
        other => panic!("unexpected {:?}", other),
    }
}

#[test]
fn next_episode_numbers() {
    assert_eq!(Episode::get_next_episode_number(&vec![]), Some(1));
    assert_eq!(Episode::get_next_episode_number(&vec![1, 3, 2]), Some(4));
    assert_eq!(Episode::get_next_episode_number(&vec![-5]), Some(-4));
    assert_eq!(Episode::get_next_episode_number(&vec![7, i32::MAX]), None);
}

#[test]
fn readable_assignments() {
    assert!(Character::assignments_readable(&vec![arg("display_name", "Fenrik"), arg("age", "inf")]));
    assert!(!Character::assignments_readable(&vec![arg("display_name", "inf")]));
    assert!(Character::assignments_readable(&vec![arg("display_name", "1e400")]) == false);
    assert!(Episode::assignments_readable(&vec![arg("word_count", "12"), arg("title", "NaN")]) == false);
    let c = EventCommands::Create { name: "e".to_string(), set: vec![arg("title", "-inf")] };
    assert!(!c.is_readable());
    let c = EventCommands::Create { name: "e".to_string(), set: vec![arg("title", "The Summit")] };
    assert!(c.is_readable());
    assert!(CharacterCommands::List.is_readable());
}

#[test]
fn stored_records_read_back() {
    let c = Character::from_columns(
        3,
        "fenrik".to_string(),
        "Fenrik".to_string(),
        Metadata::new(),
        "2024-01-01T10:00:00+00:00".to_string(),
        "Deceased",
    )
    .unwrap();
    assert_eq!(c.id, 3);
    assert_eq!(c.status, CharacterStatus::Deceased);
    match Character::from_columns(1, "a".to_string(), "".to_string(), Metadata::new(), "yesterday".to_string(), "Active") {
        Err(RowError::CreatedAt { text }) => assert_eq!(text, "yesterday"),
        other => panic!("unexpected {:?}", other),
    }
    match Episode::from_columns(
        1,
        "s".to_string(),
        2,
        "".to_string(),
        0,
        Metadata::new(),
        "2024-01-01T10:00:00Z".to_string(),
        "Done",
    ) {
        Err(RowError::Status { text }) => assert_eq!(text, "Done"),
        other => panic!("unexpected {:?}", other),
    }
}

#[test]
fn stored_stories_read_back_with_lenient_status() {
    let s = Story::from_columns(
        "saga".to_string(),
        "Fenrik".to_string(),
        "diary".to_string(),
        None,
        "2024-01-01T10:00:00Z".to_string(),
        "Paused",
    )
    .unwrap();
    assert_eq!(s.status, StoryStatus::Paused);
    let s = Story::from_columns(
        "saga".to_string(),
        "Fenrik".to_string(),
        "diary".to_string(),
        Some("d".to_string()),
        "2024-01-01T10:00:00Z".to_string(),
        "Forgotten",
    )
    .unwrap();
    assert_eq!(s.status, StoryStatus::Active);
    assert_eq!(s.description, Some("d".to_string()));
    match Story::from_columns("a".to_string(), "n".to_string(), "diary".to_string(), None, "soon".to_string(), "Active") {
        Err(RowError::CreatedAt { text }) => assert_eq!(text, "soon"),
        other => panic!("unexpected {:?}", other),
    }
}

#[test]
fn stored_story_episodes_read_back() {
    let e = StoryEpisode::from_columns(
        7,
        "saga".to_string(),
        3,
        Some("Dawn".to_string()),
        "Review",
        Some(1200),
        "2024-01-01T10:00:00Z".to_string(),
        "2024-01-02T10:00:00+02:00".to_string(),
    )
    .unwrap();
    assert_eq!(e.id, 7);
    assert_eq!(e.episode_number, 3);
    assert_eq!(e.status, EpisodeStatus::Review);
    assert_eq!(e.word_count, Some(1200));
    assert_eq!(e.updated_at, "2024-01-02T10:00:00+02:00");
    let e = StoryEpisode::from_columns(
        1,
        "saga".to_string(),
        1,
        None,
        "Lost",
        None,
        "2024-01-01T10:00:00Z".to_string(),
        "2024-01-01T10:00:00Z".to_string(),
    )
    .unwrap();
    assert_eq!(e.status, EpisodeStatus::Draft);
    assert_eq!(e.title, None);
    match StoryEpisode::from_columns(1, "s".to_string(), 1, None, "Draft", None, "x".to_string(), "y".to_string()) {
        Err(RowError::CreatedAt { text }) => assert_eq!(text, "x"),
        other => panic!("unexpected {:?}", other),
    }
    match StoryEpisode::from_columns(
        1,
        "s".to_string(),
        1,
        None,
        "Draft",
        None,
        "2024-01-01T10:00:00Z".to_string(),
        "later".to_string(),
    ) {
        Err(RowError::UpdatedAt { text }) => assert_eq!(text, "later"),
        other => panic!("unexpected {:?}", other),
    }
}

#[test]
fn command_error_messages() {
    let e = CommandError::NotFound { kind: "Character".to_string(), name: "fenrik".to_string() };
    assert_eq!(e.message(), "Character 'fenrik' not found");
    let e = CommandError::AlreadyExists { kind: "Race".to_string(), name: "elf".to_string() };
    assert_eq!(e.message(), "Race 'elf' already exists");
    let e = CommandError::InvalidSet(SetError::InvalidValue { field: "sort_key".to_string(), value: "x".to_string() });
    assert_eq!(e.message(), "invalid value for field 'sort_key': x");
    let e = CommandError::InvalidSet(SetError::InvalidStatus { value: "Gone".to_string() });
    assert_eq!(e.message(), "unknown status: Gone");
    let e = CommandError::StoryNotFound { name: "saga".to_string() };
    assert_eq!(e.message(), "Story 'saga' not found");
    let e = CommandError::EpisodeNotFound { story: "saga".to_string(), number: -3 };
    assert_eq!(e.message(), "Episode -3 not found in story 'saga'");
    assert_eq!(CommandError::ClockUnreadable.message(), "system time before Unix epoch");
    assert_eq!(RowError::UpdatedAt { text: "later".to_string() }.message(), "invalid updated_at column: later");
    assert_eq!(RowError::Status { text: "Done".to_string() }.message(), "invalid status column: Done");
}
