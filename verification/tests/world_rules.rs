use multiverse::cli::WorldCommands;
use multiverse::config::{parse_bool, Config, ConfigSetError, GitConfig};
use multiverse::core_cli::ConfigCommands;
use multiverse::core_handlers::{
    handle_config_command, handle_world_command, is_directory_not_empty, plan_world_create, plan_world_init,
    ConfigCommandError, ConfigPlan, WorldCreatePlan, WorldInitError, WorldInitPlan, WorldPlan,
};
use multiverse::handlers::CommandError;
use multiverse::metadata::{MetaValue, Metadata};
use multiverse::story::Story;
use multiverse::world::{
    cloned_world_name, fundamental_files_to_write, has_extension, new_world_meta, should_generate_extraction_guide,
    list_worlds, sql_files_to_import, DirEntryInfo, SqlImportError, WorldCandidate, WorldSummary,
};
use multiverse::world_config::{GlobalConfig, StoryTypeError, WorldConfig};

fn names(v: &[&str]) -> Vec<String> {
    v.iter().map(|s| s.to_string()).collect()
}

fn file(name: &str) -> DirEntryInfo {
    DirEntryInfo { name: name.to_string(), is_dir: false, is_file: true, children: vec![] }
}

fn dir(name: &str, children: &[&str]) -> DirEntryInfo {
    DirEntryInfo { name: name.to_string(), is_dir: true, is_file: false, children: names(children) }
}

#[test]
fn extensions_follow_path_rules() {
    assert!(has_extension("001.md", "md"));
    assert!(has_extension("a.b.md", "md"));
    assert!(has_extension(".hidden.md", "md"));
    assert!(!has_extension(".md", "md"));
    assert!(!has_extension("md", "md"));
    assert!(!has_extension("notes.mdx", "md"));
    assert!(!has_extension("..", ""));
    assert!(has_extension("a.", ""));
    assert!(has_extension("03_characters.sql", "sql"));
}

#[test]
fn extraction_guide_for_existing_stories() {
    let stories = vec![dir("fenrik_mealor", &["001.md"])];
    assert!(should_generate_extraction_guide(&stories, &vec![]));
    let stories = vec![dir("empty", &["notes.txt"]), file("prologue.md")];
    assert!(should_generate_extraction_guide(&stories, &vec![]));
    let stories = vec![dir("empty", &["notes.txt"])];
    assert!(!should_generate_extraction_guide(&stories, &vec![]));
}

#[test]
fn extraction_guide_for_top_level_narrative() {
    let top = vec![file("README.md"), file("EXTRACTION_GUIDE.md"), dir("lore.md", &[])];
    assert!(!should_generate_extraction_guide(&vec![], &top));
    let top = vec![file("README.md"), file("chapter1.md")];
    assert!(should_generate_extraction_guide(&vec![], &top));
    assert!(!should_generate_extraction_guide(&vec![], &vec![]));
}

#[test]
fn fundamental_files() {
    assert_eq!(
        fundamental_files_to_write(false, &names(&["README.md"])),
        names(&["00_ESSENTIAL.md", "01_HISTORY.md", "README.md"])
    );
    assert_eq!(
        fundamental_files_to_write(true, &names(&["README.md", "notes"])),
        names(&["00_ESSENTIAL.md", "01_HISTORY.md"])
    );
}

#[test]
fn sql_files_sorted() {
    let listed = names(&["05_relations.sql", "notes.txt", "03_characters.sql", "04_locations.sql", ".sql"]);
    assert_eq!(
        sql_files_to_import(&listed, true).unwrap(),
        names(&["03_characters.sql", "04_locations.sql", "05_relations.sql"])
    );
    assert!(matches!(sql_files_to_import(&names(&["a.txt"]), true), Err(SqlImportError::NoSqlFiles)));
    assert_eq!(sql_files_to_import(&names(&["a.txt"]), false).unwrap(), Vec::<String>::new());
}

#[test]
fn new_world_metadata() {
    let m = new_world_meta("wandering-sun".to_string(), None, Some("cyberpunk".to_string()));
    assert_eq!(m.name, "wandering-sun");
    assert_eq!(m.visual_identity.estetica, "cyberpunk");
    assert_eq!(m.visual_identity.descrizione, "Custom aesthetic");
    let m = new_world_meta("w".to_string(), Some("d".to_string()), None);
    assert_eq!(m.description, Some("d".to_string()));
    assert_eq!(m.visual_identity.estetica, "moderna");
    assert_eq!(m.global_config.formato_numerazione, "001");
    assert_eq!(m.global_config.template_default, "diary");
}

#[test]
fn cloned_world_names() {
    assert_eq!(cloned_world_name("/home/me/wandering-sun"), "wandering-sun");
    assert_eq!(cloned_world_name("/"), "Unknown World");
}

#[test]
fn story_types_and_metadata() {
    let g = GlobalConfig::default_config();
    let listed = g.list_story_types();
    assert_eq!(listed, names(&["diary", "book"]));
    let diary = g.get_story_type("diary").unwrap();
    let m: Metadata = diary.build_metadata(vec![("narrator".to_string(), "Fenrik".to_string())]).unwrap();
    match m.get("signature") {
        Some(MetaValue::Text(t)) => assert_eq!(t, "F.M."),
        other => panic!("unexpected {:?}", other),
    }
    match m.get("narrator") {
        Some(MetaValue::Text(t)) => assert_eq!(t, "Fenrik"),
        other => panic!("unexpected {:?}", other),
    }
    match diary.build_metadata(vec![]) {
        Err(StoryTypeError::MissingRequiredFields { fields }) => assert_eq!(fields, names(&["narrator"])),
        other => panic!("unexpected {:?}", other),
    }
    match diary.build_metadata(vec![("mood".to_string(), "dark".to_string())]) {
        Err(StoryTypeError::InvalidField { field, valid_fields }) => {
            assert_eq!(field, "mood");
            assert_eq!(valid_fields, names(&["narrator", "signature", "perspective"]));
        }
        other => panic!("unexpected {:?}", other),
    }
    assert!(g.get_story_type("poem").is_err());
    let w = WorldConfig::new("w".to_string(), None);
    assert!(w.get_story_type("book").is_ok());
}

#[test]
fn story_type_error_messages() {
    let g = GlobalConfig::default_config();
    let diary = g.get_story_type("diary").unwrap();
    assert_eq!(diary.build_metadata(vec![]).unwrap_err().message(), "Missing required fields: narrator");
    assert_eq!(
        diary.build_metadata(vec![("mood".to_string(), "dark".to_string())]).unwrap_err().message(),
        "Field 'mood' is not valid for this story type. Valid fields: narrator, signature, perspective"
    );
    let two = StoryTypeError::MissingRequiredFields { fields: names(&["title", "author"]) };
    assert_eq!(two.message(), "Missing required fields: title, author");
    let none = StoryTypeError::MissingRequiredFields { fields: vec![] };
    assert_eq!(none.message(), "Missing required fields: ");
}

#[test]
fn story_paths() {
    let s = Story::new_at("fenrik_mealor".to_string(), "Fenrik".to_string(), None, "t".to_string());
    assert_eq!(s.story_type, "diary");
    let p = s.get_story_path("/w");
    assert!(p.ends_with("fenrik_mealor_diary"));
    assert!(p.contains("stories"));
}

#[test]
fn workspace_config_values() {
    assert_eq!(parse_bool("true"), Some(true));
    assert_eq!(parse_bool("false"), Some(false));
    assert_eq!(parse_bool("yes"), None);
    let mut c = Config::for_workspace("/ws".to_string());
    assert!(c.set_value("git.auto_push", "true".to_string()).is_ok());
    assert_eq!(c.git, Some(GitConfig { auto_commit: true, auto_push: true }));
    assert!(c.set_value("workspace.default_world", "wandering-sun".to_string()).is_ok());
    assert_eq!(c.workspace.default_world, Some("wandering-sun".to_string()));
    match c.set_value("git.auto_commit", "maybe".to_string()) {
        Err(ConfigSetError::InvalidBool { value }) => assert_eq!(value, "maybe"),
        other => panic!("unexpected {:?}", other),
    }
    match c.set_value("colour", "blue".to_string()) {
        Err(ConfigSetError::UnknownKey { key }) => assert_eq!(key, "colour"),
        other => panic!("unexpected {:?}", other),
    }
    assert_eq!(c.git, Some(GitConfig { auto_commit: true, auto_push: true }));
}

#[test]
fn config_commands() {
    let loaded = Config::load_or_default(None, Some("/ws".to_string()));
    assert_eq!(loaded.0.workspace.path, "/ws");
    assert_eq!(loaded.1, None);
    match handle_config_command(ConfigCommands::Init { workspace: None }, None, loaded) {
        Err(ConfigCommandError::NoCurrentDirectory) => {}
        other => panic!("unexpected {:?}", other),
    }
    let loaded = Config::load_or_default(None, Some("/ws".to_string()));
    match handle_config_command(
        ConfigCommands::SetValue { key: "git.auto_commit".to_string(), value: "false".to_string() },
        Some("/ws".to_string()),
        loaded,
    ) {
        Ok(ConfigPlan::Save { config, path }) => {
            assert_eq!(config.git, Some(GitConfig { auto_commit: false, auto_push: false }));
            assert_eq!(path, ".multiverse.toml");
        }
        other => panic!("unexpected {:?}", other),
    }
    let loaded = Config::load_or_default(None, None);
    assert_eq!(loaded.0.workspace.path, ".");
    match handle_config_command(ConfigCommands::Init { workspace: Some("/x".to_string()) }, None, loaded) {
        Ok(ConfigPlan::Init { config, path }) => {
            assert_eq!(config.workspace.path, "/x");
            assert!(path.ends_with(".multiverse.toml"));
        }
        other => panic!("unexpected {:?}", other),
    }
}

#[test]
fn world_init_rules() {
    assert!(is_directory_not_empty(&names(&[".git", "notes.md"])));
    assert!(!is_directory_not_empty(&names(&[".git", ".multiverse"])));
    match plan_world_init("w".to_string(), None, None, None, false, "/d".to_string(), true, &vec![]) {
        Err(WorldInitError::AlreadyInProject) => {}
        other => panic!("unexpected {:?}", other),
    }
    match plan_world_init("w".to_string(), None, None, None, false, "/d".to_string(), false, &names(&["a"])) {
        Err(WorldInitError::DirectoryNotEmpty) => {}
        other => panic!("unexpected {:?}", other),
    }
    match plan_world_init("w".to_string(), None, None, None, true, "/d".to_string(), false, &names(&["a"])) {
        Ok(WorldInitPlan::Local { name, merge, dir, .. }) => {
            assert_eq!(name, "w");
            assert!(merge);
            assert_eq!(dir, "/d");
        }
        other => panic!("unexpected {:?}", other),
    }
    match handle_world_command(
        WorldCommands::Init {
            name: "w".to_string(),
            description: None,
            aesthetic: None,
            from_git: Some("git@host:w.git".to_string()),
        },
        "/d".to_string(),
        false,
        &names(&[".git"]),
    ) {
        Ok(WorldPlan::Init(WorldInitPlan::CloneFrom { repo_url, dir })) => {
            assert_eq!(repo_url, "git@host:w.git");
            assert_eq!(dir, "/d");
        }
        other => panic!("unexpected {:?}", other),
    }
}

#[test]
fn nearest_marked_directory() {
    let dirs = vec![
        ("/a/b/c".to_string(), false),
        ("/a/b".to_string(), true),
        ("/a".to_string(), true),
        ("/".to_string(), false),
    ];
    assert_eq!(multiverse::world::nearest_marked(&dirs), Some("/a/b".to_string()));
    assert_eq!(multiverse::world::nearest_marked(&vec![("/".to_string(), false)]), None);
    assert_eq!(multiverse::world::nearest_marked(&vec![]), None);
}

#[test]
fn world_create_refuses_an_existing_world() {
    match plan_world_create("gaia".to_string(), None, None, None, "/ws".to_string(), true) {
        Err(CommandError::AlreadyExists { kind, name }) => {
            assert_eq!(kind, "World");
            assert_eq!(name, "gaia");
        }
        other => panic!("unexpected {:?}", other),
    }
}

#[test]
fn world_create_clones_into_the_workspace() {
    match plan_world_create("gaia".to_string(), None, None, Some("https://h/r.git".to_string()), "/ws".to_string(), false)
    {
        Ok(WorldCreatePlan::Clone { repo_url, path }) => {
            assert_eq!(repo_url, "https://h/r.git");
            assert_eq!(path, "/ws/gaia");
        }
        other => panic!("unexpected {:?}", other),
    }
}

#[test]
fn world_create_applies_the_aesthetic() {
    match plan_world_create(
        "gaia".to_string(),
        Some("Terra".to_string()),
        Some("fantasy".to_string()),
        None,
        "/ws".to_string(),
        false,
    ) {
        Ok(WorldCreatePlan::Local { name, path, meta }) => {
            assert_eq!(name, "gaia");
            assert_eq!(path, "/ws/gaia");
            assert_eq!(meta.name, "gaia");
            assert_eq!(meta.description, Some("Terra".to_string()));
            assert_eq!(meta.visual_identity.estetica, "fantasy");
            assert_eq!(meta.visual_identity.descrizione, "Mondo con estetica fantasy");
        }
        other => panic!("unexpected {:?}", other),
    }
    match plan_world_create("gaia".to_string(), None, None, None, "/ws".to_string(), false) {
        Ok(WorldCreatePlan::Local { meta, .. }) => {
            assert_eq!(meta.visual_identity.estetica, "moderna");
            assert_eq!(meta.visual_identity.descrizione, "Interfaccia pulita e minimalista");
        }
        other => panic!("unexpected {:?}", other),
    }
}

fn candidate(name: &str, is_dir: bool, has_meta_file: bool, loaded: Option<&str>, has_database: bool) -> WorldCandidate {
    WorldCandidate {
        name: name.to_string(),
        is_dir,
        has_meta_file,
        loaded: loaded.map(|d| WorldSummary {
            description: Some(d.to_string()),
            estetica: "moderna".to_string(),
            descrizione: "Interfaccia pulita e minimalista".to_string(),
        }),
        has_database,
    }
}

#[test]
fn world_listing_keeps_loadable_worlds_in_order() {
    let cs = vec![
        candidate("notes.txt", false, false, None, false),
        candidate("gaia", true, true, Some("Terra"), true),
        candidate("empty", true, false, None, false),
        candidate("broken", true, true, None, true),
        candidate("luna", true, true, Some("Moon"), false),
    ];
    let listing = list_worlds(&cs);
    assert_eq!(listing.listed.len(), 2);
    assert_eq!(listing.listed[0].name, "gaia");
    assert!(listing.listed[0].has_database);
    assert_eq!(listing.listed[0].summary.description, Some("Terra".to_string()));
    assert_eq!(listing.listed[1].name, "luna");
    assert!(!listing.listed[1].has_database);
    assert_eq!(listing.invalid, vec!["broken".to_string()]);
    let none = list_worlds(&Vec::new());
    assert!(none.listed.is_empty());
    assert!(none.invalid.is_empty());
}
