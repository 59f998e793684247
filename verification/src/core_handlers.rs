//! What the workspace, world and story subcommands do: the decisions between
//! reading the state of the workspace and changing it.

use vstd::prelude::*;
use crate::cli::{StoryCommands, WorldCommands};
use crate::config::{Config, ConfigSetError};
use crate::core_cli::ConfigCommands;
use crate::handlers::{not_found, CommandError};
use crate::paths::{join_path, path_join};
use crate::story::Story;
use crate::text::{append_chars, chars_of, string_from_chars, string_of};
use crate::world_config::{type_names, VisualIdentity, WorldMeta};

verus! {

broadcast use vstd::string::group_string_axioms;

/// What a `story` subcommand does, once the story it names has been looked up.
#[derive(Debug)]
pub enum StoryPlan {
    /// Create the directory of the new story and store it.
    Insert(Story),
    /// Show every story.
    ListAll,
    /// Show this story.
    Show(Story),
    /// Ask for `--force`; nothing is deleted.
    ConfirmDelete { name: String },
    /// Delete this story and its directory.
    Delete(Story),
}

impl StoryCommands {
    /// The name of the story to look up before the command runs, if any.
    pub fn lookup(&self) -> (r: Option<&str>)
        ensures
            match self {
                StoryCommands::Create { name, .. } => r matches Some(n) && n@ == name@,
                StoryCommands::Info { name } => r matches Some(n) && n@ == name@,
                StoryCommands::Delete { name, .. } => r matches Some(n) && n@ == name@,
                StoryCommands::List => r is None,
            },
    {
        match self {
            StoryCommands::Create { name, .. } => Some(name.as_str()),
            StoryCommands::Info { name } => Some(name.as_str()),
            StoryCommands::Delete { name, .. } => Some(name.as_str()),
            StoryCommands::List => None,
        }
    }
}

/// Decides what a `story` subcommand does, given the story that its name
/// found (`None` when there is none). A new story's name must not be taken.
pub fn handle_story_command(command: StoryCommands, found: Option<Story>) -> (r: Result<StoryPlan, CommandError>)
    ensures
        match command {
            StoryCommands::Create { name, narrator, story_type } => match found {
                Some(_) => r matches Err(CommandError::AlreadyExists { kind, name: n }) && kind@ == "Story"@ && n@ == name@,
                None => match r {
                    Ok(StoryPlan::Insert(s)) => s.name@ == name@ && s.narrator@ == narrator@
                        && s.story_type@ == Story::type_or_default(story_type) && s.description is None
                        && crate::rows::rfc3339_valid(s.created_at@)
                        && s.status == crate::status::StoryStatus::Active,
                    Err(CommandError::ClockUnreadable) => true,
                    _ => false,
                },
            },
            StoryCommands::List => r matches Ok(StoryPlan::ListAll),
            StoryCommands::Info { name } => match found {
                Some(s) => r == Ok::<StoryPlan, CommandError>(StoryPlan::Show(s)),
                None => not_found(r, "Story"@, name@),
            },
            StoryCommands::Delete { name, force } => match found {
                Some(s) => if force {
                    r == Ok::<StoryPlan, CommandError>(StoryPlan::Delete(s))
                } else {
                    r matches Ok(StoryPlan::ConfirmDelete { name: n }) && n@ == name@
                },
                None => not_found(r, "Story"@, name@),
            },
        },
{
    match command {
        StoryCommands::Create { name, narrator, story_type } => match found {
            Some(_) => Err(CommandError::AlreadyExists { kind: string_of("Story"), name }),
            None => match Story::new(name, narrator, story_type) {
                Some(st) => Ok(StoryPlan::Insert(st)),
                None => Err(CommandError::ClockUnreadable),
            },
        },
        StoryCommands::List => Ok(StoryPlan::ListAll),
        StoryCommands::Info { name } => match found {
            Some(s) => Ok(StoryPlan::Show(s)),
            None => Err(CommandError::NotFound { kind: string_of("Story"), name }),
        },
        StoryCommands::Delete { name, force } => match found {
            Some(s) => if force {
                Ok(StoryPlan::Delete(s))
            } else {
                Ok(StoryPlan::ConfirmDelete { name })
            },
            None => Err(CommandError::NotFound { kind: string_of("Story"), name }),
        },
    }
}

/// What a `config` subcommand does.
#[derive(Debug)]
pub enum ConfigPlan {
    /// Write `config` to `path`, unless a file is already there.
    Init { config: Config, path: String },
    /// Show `config`, read from `path` (or the defaults when `None`).
    Show { config: Config, path: Option<String> },
    /// Write the changed `config` to `path`.
    Save { config: Config, path: String },
    /// Report that `key` is not a configuration key; nothing is written.
    UnknownKey { key: String },
}

/// Why a `config` subcommand failed.
#[derive(Debug)]
pub enum ConfigCommandError {
    /// No workspace was given and the current directory is unknown.
    NoCurrentDirectory,
    /// The value of a boolean setting is neither `true` nor `false`.
    InvalidBool { value: String },
}

/// The name of the workspace configuration file.
pub open spec fn config_file_name() -> Seq<char> {
    ".multiverse.toml"@
}

/// `r` writes the default configuration for the workspace `ws` into the
/// configuration file of `ws`.
pub open spec fn init_plan_for(r: Result<ConfigPlan, ConfigCommandError>, ws: Seq<char>) -> bool {
    r matches Ok(ConfigPlan::Init { config, path })
        && config.workspace.path@ == ws
        && config.workspace.default_world is None
        && config.git == Some(crate::config::GitConfig { auto_commit: true, auto_push: false })
        && path@ == path_join(ws, config_file_name())
}

/// Decides what a `config` subcommand does, given the current directory and
/// the configuration in use with the file it came from.
pub fn handle_config_command(command: ConfigCommands, current_dir: Option<String>, loaded: (Config, Option<String>)) -> (r: Result<ConfigPlan, ConfigCommandError>)
    ensures
        match command {
            ConfigCommands::Init { workspace } => match (workspace, current_dir) {
                (None, None) => r matches Err(ConfigCommandError::NoCurrentDirectory),
                (Some(w), _) => init_plan_for(r, w@),
                (None, Some(d)) => init_plan_for(r, d@),
            },
            ConfigCommands::Show => r matches Ok(ConfigPlan::Show { config, path }) && config == loaded.0 && path == loaded.1,
            ConfigCommands::SetValue { key, value } => {
                &&& key@ == "workspace.default_world"@ ==> (r matches Ok(ConfigPlan::Save { config, path })
                    && config.workspace.default_world matches Some(w) && w@ == value@
                    && config.workspace.path == loaded.0.workspace.path && config.git == loaded.0.git
                    && path@ == match loaded.1 { Some(p) => p@, None => config_file_name() })
                &&& (key@ == "git.auto_commit"@ || key@ == "git.auto_push"@) ==> (match crate::config::bool_literal(value@) {
                    Some(b) => r matches Ok(ConfigPlan::Save { config, path })
                        && config.workspace == loaded.0.workspace
                        && config.git == Some(crate::config::git_with_setting(loaded.0.git, key@, b))
                        && path@ == match loaded.1 { Some(p) => p@, None => config_file_name() },
                    None => r matches Err(ConfigCommandError::InvalidBool { value: v }) && v@ == value@,
                })
                &&& !(key@ == "workspace.default_world"@ || key@ == "git.auto_commit"@ || key@ == "git.auto_push"@)
                    ==> (r matches Ok(ConfigPlan::UnknownKey { key: k }) && k@ == key@)
            },
        },
{
    match command {
        ConfigCommands::Init { workspace } => {
            let ws = match workspace {
                Some(w) => w,
                None => match current_dir {
                    Some(d) => d,
                    None => {
                        return Err(ConfigCommandError::NoCurrentDirectory);
                    },
                },
            };
            let path = join_path(ws.as_str(), ".multiverse.toml");
            Ok(ConfigPlan::Init { config: Config::for_workspace(ws), path })
        },
        ConfigCommands::Show => {
            let (config, path) = loaded;
            Ok(ConfigPlan::Show { config, path })
        },
        ConfigCommands::SetValue { key, value } => {
            proof {
                reveal_strlit("workspace.default_world");
                reveal_strlit("git.auto_commit");
                reveal_strlit("git.auto_push");
                assert("workspace.default_world"@.len() != "git.auto_commit"@.len());
                assert("workspace.default_world"@.len() != "git.auto_push"@.len());
                assert("git.auto_commit"@.len() != "git.auto_push"@.len());
            }
            let (mut config, path) = loaded;
            match config.set_value(key.as_str(), value) {
                Ok(()) => {
                    let save_path = match path {
                        Some(p) => p,
                        None => string_of(".multiverse.toml"),
                    };
                    Ok(ConfigPlan::Save { config, path: save_path })
                },
                Err(ConfigSetError::UnknownKey { key: k }) => Ok(ConfigPlan::UnknownKey { key: k }),
                Err(ConfigSetError::InvalidBool { value: v }) => Err(ConfigCommandError::InvalidBool { value: v }),
            }
        },
    }
}

/// Why a world cannot be initialized here.
#[derive(Debug)]
pub enum WorldInitError {
    /// The directory already belongs to a world.
    AlreadyInProject,
    /// The directory holds visible entries and merging was not asked for.
    DirectoryNotEmpty,
}

/// How a world is initialized.
#[derive(Debug)]
pub enum WorldInitPlan {
    /// Clone the world from `repo_url` into `dir`.
    CloneFrom { repo_url: String, dir: String },
    /// Create a new world named `name` in `dir`.
    Local { name: String, description: Option<String>, aesthetic: Option<String>, merge: bool, dir: String },
}

/// Whether some entry name does not begin with a dot.
pub open spec fn has_visible_entry(names: Seq<Seq<char>>) -> bool {
    exists|i: int| 0 <= i < names.len() && !(names[i].len() > 0 && names[i][0] == '.')
}

/// A directory counts as holding a visible entry as soon as any one of its
/// entry names, wherever it stands among them, does not begin with a dot.
pub proof fn lemma_visible_entry_anywhere(names: Seq<Seq<char>>, i: int)
    requires
        0 <= i < names.len(),
        names[i].len() == 0 || names[i][0] != '.',
    ensures
        has_visible_entry(names),
{
}

/// A directory whose entry names all begin with a dot holds no visible entry.
pub proof fn lemma_only_hidden_entries(names: Seq<Seq<char>>)
    requires
        forall|i: int| 0 <= i < names.len() ==> #[trigger] names[i].len() > 0 && names[i][0] == '.',
    ensures
        !has_visible_entry(names),
{
}

/// Whether a directory holds a visible entry does not depend on the order
/// in which its entries are listed.
pub proof fn lemma_visible_entry_order_free(names: Seq<Seq<char>>)
    ensures
        has_visible_entry(names) == has_visible_entry(names.reverse()),
{
    if has_visible_entry(names) {
        let i = choose|i: int| 0 <= i < names.len() && !(names[i].len() > 0 && names[i][0] == '.');
        assert(names.reverse()[names.len() - 1 - i] == names[i]);
        lemma_visible_entry_anywhere(names.reverse(), names.len() - 1 - i);
    }
    if has_visible_entry(names.reverse()) {
        let j = choose|j: int| 0 <= j < names.reverse().len() && !(names.reverse()[j].len() > 0 && names.reverse()[j][0] == '.');
        assert(names.reverse()[j] == names[names.len() - 1 - j]);
        lemma_visible_entry_anywhere(names, names.len() - 1 - j);
    }
}

/// Whether a directory whose entries have these names holds a visible one
/// (one whose name does not begin with a dot).
pub fn is_directory_not_empty(names: &Vec<String>) -> (r: bool)
    ensures
        r == has_visible_entry(crate::world_config::strings_view(names@)),
{
    let ghost v = crate::world_config::strings_view(names@);
    let mut i: usize = 0;
    while i < names.len()
        invariant
            i <= names@.len(),
            v == crate::world_config::strings_view(names@),
            forall|j: int| 0 <= j < i ==> v[j].len() > 0 && v[j][0] == '.',
        decreases names@.len() - i,
    {
        let c = crate::text::chars_of(names[i].as_str());
        assert(v[i as int] == c@);
        if c.len() == 0 || c[0] != '.' {
            return true;
        }
        i = i + 1;
    }
    false
}

/// Decides how `world init` proceeds in the directory `dir`, given whether
/// `dir` already holds a `.multiverse` directory and the names of its entries.
pub fn plan_world_init(name: String, description: Option<String>, aesthetic: Option<String>, from_git: Option<String>, merge: bool, dir: String, in_project: bool, entry_names: &Vec<String>) -> (r: Result<WorldInitPlan, WorldInitError>)
    ensures
        if in_project {
            r matches Err(WorldInitError::AlreadyInProject)
        } else if !merge && has_visible_entry(crate::world_config::strings_view(entry_names@)) {
            r matches Err(WorldInitError::DirectoryNotEmpty)
        } else {
            match from_git {
                Some(url) => r matches Ok(WorldInitPlan::CloneFrom { repo_url, dir: d }) && repo_url@ == url@ && d@ == dir@,
                None => r matches Ok(WorldInitPlan::Local { name: n, description: ds, aesthetic: a, merge: m, dir: d })
                    && n@ == name@ && ds == description && a == aesthetic && m == merge && d@ == dir@,
            }
        },
{
    if in_project {
        return Err(WorldInitError::AlreadyInProject);
    }
    if !merge && is_directory_not_empty(entry_names) {
        return Err(WorldInitError::DirectoryNotEmpty);
    }
    match from_git {
        Some(url) => Ok(WorldInitPlan::CloneFrom { repo_url: url, dir }),
        None => Ok(WorldInitPlan::Local { name, description, aesthetic, merge, dir }),
    }
}

/// What a `world` subcommand does.
#[derive(Debug)]
pub enum WorldPlan {
    Init(WorldInitPlan),
    ShowInfo,
    Pull,
    Push,
    ShowStatus,
    /// Change a world setting; no setting can be changed this way yet.
    Configure { set: Option<String>, value: Option<String> },
}

/// Decides what a `world` subcommand does, given (for `init`) the current
/// directory, whether it already holds a `.multiverse` directory and the
/// names of its entries. `init` never merges into a non-empty directory.
pub fn handle_world_command(command: WorldCommands, current_dir: String, in_project: bool, entry_names: &Vec<String>) -> (r: Result<WorldPlan, WorldInitError>)
    ensures
        match command {
            WorldCommands::Init { name, description, aesthetic, from_git } => if in_project {
                r matches Err(WorldInitError::AlreadyInProject)
            } else if has_visible_entry(crate::world_config::strings_view(entry_names@)) {
                r matches Err(WorldInitError::DirectoryNotEmpty)
            } else {
                match from_git {
                    Some(url) => r matches Ok(WorldPlan::Init(WorldInitPlan::CloneFrom { repo_url, dir: d })) && repo_url@ == url@ && d@ == current_dir@,
                    None => r matches Ok(WorldPlan::Init(WorldInitPlan::Local { name: n, description: ds, aesthetic: a, merge: m, dir: d }))
                        && n@ == name@ && ds == description && a == aesthetic && !m && d@ == current_dir@,
                }
            },
            WorldCommands::Info => r matches Ok(WorldPlan::ShowInfo),
            WorldCommands::Pull => r matches Ok(WorldPlan::Pull),
            WorldCommands::Push => r matches Ok(WorldPlan::Push),
            WorldCommands::Status => r matches Ok(WorldPlan::ShowStatus),
            WorldCommands::Config { set, value } => r matches Ok(WorldPlan::Configure { set: s, value: v }) && s == set && v == value,
        },
{
    match command {
        WorldCommands::Init { name, description, aesthetic, from_git } => {
            match plan_world_init(name, description, aesthetic, from_git, false, current_dir, in_project, entry_names) {
                Ok(p) => Ok(WorldPlan::Init(p)),
                Err(e) => Err(e),
            }
        },
        WorldCommands::Info => Ok(WorldPlan::ShowInfo),
        WorldCommands::Pull => Ok(WorldPlan::Pull),
        WorldCommands::Push => Ok(WorldPlan::Push),
        WorldCommands::Status => Ok(WorldPlan::ShowStatus),
        WorldCommands::Config { set, value } => Ok(WorldPlan::Configure { set, value }),
    }
}

/// How `world create` proceeds in the workspace.
#[derive(Debug)]
pub enum WorldCreatePlan {
    /// Clone the world from `repo_url` into `path`, then give it a database if it has none.
    Clone { repo_url: String, path: String },
    /// Create the world `name` in `path`: its directories, metadata `meta`,
    /// fundamental files, database and repository.
    Local { name: String, path: String, meta: WorldMeta },
}

/// The description of a world created with the aesthetic `a`.
pub open spec fn aesthetic_description(a: Seq<char>) -> Seq<char> {
    "Mondo con estetica "@ + a
}

/// Decides how `world create` proceeds for the world `name` in the workspace
/// at `workspace_path`, given whether `workspace_path/name` already exists:
/// an existing world is refused; otherwise the world is cloned from
/// `from_git` or created locally, with the aesthetic, if any, as its look.
pub fn plan_world_create(
    name: String,
    description: Option<String>,
    aesthetic: Option<String>,
    from_git: Option<String>,
    workspace_path: String,
    world_exists: bool,
) -> (r: Result<WorldCreatePlan, CommandError>)
    ensures
        r is Err <==> world_exists,
        if world_exists {
            r matches Err(CommandError::AlreadyExists { kind, name: n }) && kind@ == "World"@ && n@ == name@
        } else {
            match from_git {
                Some(url) => r matches Ok(WorldCreatePlan::Clone { repo_url, path })
                    && repo_url@ == url@ && path@ == path_join(workspace_path@, name@),
                None => r matches Ok(WorldCreatePlan::Local { name: n, path, meta })
                    && n@ == name@ && path@ == path_join(workspace_path@, name@)
                    && meta.name@ == name@ && meta.description == description
                    && meta.global_config.formato_numerazione@ == "001"@
                    && meta.global_config.template_default@ == "diary"@
                    && type_names(meta.global_config.story_types@) == seq!["diary"@, "book"@]
                    && match aesthetic {
                        Some(a) => meta.visual_identity.estetica@ == a@
                            && meta.visual_identity.descrizione@ == aesthetic_description(a@),
                        None => meta.visual_identity.estetica@ == "moderna"@
                            && meta.visual_identity.descrizione@ == "Interfaccia pulita e minimalista"@,
                    },
            }
        },
{
    if world_exists {
        return Err(CommandError::AlreadyExists { kind: string_of("World"), name });
    }
    let path = join_path(workspace_path.as_str(), name.as_str());
    match from_git {
        Some(repo_url) => Ok(WorldCreatePlan::Clone { repo_url, path }),
        None => {
            let mut meta = WorldMeta::new(name.clone(), description);
            match aesthetic {
                Some(a) => {
                    let mut v = chars_of("Mondo con estetica ");
                    append_chars(&mut v, a.as_str());
                    let descrizione = string_from_chars(v.as_slice());
                    meta.visual_identity = VisualIdentity { estetica: a, descrizione };
                },
                None => {},
            }
            Ok(WorldCreatePlan::Local { name, path, meta })
        },
    }
}

} // verus!
