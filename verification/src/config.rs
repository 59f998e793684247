//! The workspace configuration (`.multiverse.toml`): where worlds live and
//! the git preferences.

use vstd::prelude::*;
use crate::text::{str_eq, string_of};

verus! {

broadcast use vstd::string::group_string_axioms;

/// Git preferences of the workspace.
#[derive(Debug, Clone, Copy, PartialEq, Eq, Structural)]
pub struct GitConfig {
    pub auto_commit: bool,
    pub auto_push: bool,
}

impl GitConfig {
    /// Commit automatically, never push automatically.
    pub fn default_config() -> (r: GitConfig)
        ensures
            r == (GitConfig { auto_commit: true, auto_push: false }),
    {
        GitConfig { auto_commit: true, auto_push: false }
    }
}

/// Where the worlds of the workspace live.
#[derive(Debug)]
pub struct WorkspaceConfig {
    pub path: String,
    pub default_world: Option<String>,
}

/// The workspace configuration.
#[derive(Debug)]
pub struct Config {
    pub workspace: WorkspaceConfig,
    pub git: Option<GitConfig>,
}

/// A configuration key that `config set` does not know, or a value it cannot read.
#[derive(Debug)]
pub enum ConfigSetError {
    UnknownKey { key: String },
    InvalidBool { value: String },
}

/// The boolean that `s` spells, as `str::parse::<bool>` reads it.
pub open spec fn bool_literal(s: Seq<char>) -> Option<bool> {
    if s == "true"@ {
        Some(true)
    } else if s == "false"@ {
        Some(false)
    } else {
        None
    }
}

/// The git preferences `git` (their defaults when there are none) with the
/// setting `key` (`git.auto_commit`, else `git.auto_push`) set to `b`.
pub open spec fn git_with_setting(git: Option<GitConfig>, key: Seq<char>, b: bool) -> GitConfig {
    let g = match git {
        Some(g) => g,
        None => GitConfig { auto_commit: true, auto_push: false },
    };
    if key == "git.auto_commit"@ {
        GitConfig { auto_commit: b, auto_push: g.auto_push }
    } else {
        GitConfig { auto_commit: g.auto_commit, auto_push: b }
    }
}

/// Setting one git preference sets it and leaves the other as it was; when
/// there were no git preferences yet, the other one takes its default
/// (commit automatically, never push automatically).
pub proof fn lemma_git_setting_changes_only_its_key(git: Option<GitConfig>, key: Seq<char>, b: bool)
    requires
        key == "git.auto_commit"@ || key == "git.auto_push"@,
    ensures
        key == "git.auto_commit"@ ==> git_with_setting(git, key, b).auto_commit == b,
        key == "git.auto_push"@ ==> git_with_setting(git, key, b).auto_push == b,
        key == "git.auto_commit"@ ==> git_with_setting(git, key, b).auto_push == match git {
            Some(g) => g.auto_push,
            None => false,
        },
        key == "git.auto_push"@ ==> git_with_setting(git, key, b).auto_commit == match git {
            Some(g) => g.auto_commit,
            None => true,
        },
{
    reveal_strlit("git.auto_commit");
    reveal_strlit("git.auto_push");
    assert("git.auto_commit"@.len() != "git.auto_push"@.len());
}

/// Reads `true` or `false`.
pub fn parse_bool(s: &str) -> (r: Option<bool>)
    ensures
        r == bool_literal(s@),
{
    if str_eq(s, "true") {
        Some(true)
    } else if str_eq(s, "false") {
        Some(false)
    } else {
        None
    }
}

impl Config {
    /// The configuration used when none is found: the workspace is the
    /// current directory (`.` when it cannot be known), commits are automatic
    /// and pushes are not.
    pub fn default_for(current_dir: Option<String>) -> (r: Config)
        ensures
            match current_dir {
                Some(d) => r.workspace.path@ == d@,
                None => r.workspace.path@ == "."@,
            },
            r.workspace.default_world is None,
            r.git == Some(GitConfig { auto_commit: true, auto_push: false }),
    {
        let path = match current_dir {
            Some(d) => d,
            None => string_of("."),
        };
        Config {
            workspace: WorkspaceConfig { path, default_world: None },
            git: Some(GitConfig::default_config()),
        }
    }

    /// The configuration that `config init` writes for `workspace_path`.
    pub fn for_workspace(workspace_path: String) -> (r: Config)
        ensures
            r.workspace.path@ == workspace_path@,
            r.workspace.default_world is None,
            r.git == Some(GitConfig { auto_commit: true, auto_push: false }),
    {
        Config {
            workspace: WorkspaceConfig { path: workspace_path, default_world: None },
            git: Some(GitConfig::default_config()),
        }
    }

    /// The configuration to use and the file it came from: the file found (by
    /// walking up from the current directory) when it could be read, else the
    /// default for the current directory and no file.
    pub fn load_or_default(found: Option<(String, Option<Config>)>, current_dir: Option<String>) -> (r: (Config, Option<String>))
        ensures
            match found {
                Some((path, Some(c))) => {
                    &&& r.1 matches Some(p) && p@ == path@
                    &&& r.0 == c
                },
                _ => {
                    &&& r.1 is None
                    &&& r.0.workspace.default_world is None
                    &&& r.0.git == Some(GitConfig { auto_commit: true, auto_push: false })
                    &&& match current_dir {
                        Some(d) => r.0.workspace.path@ == d@,
                        None => r.0.workspace.path@ == "."@,
                    }
                },
            },
    {
        match found {
            Some((path, Some(c))) => (c, Some(path)),
            _ => (Config::default_for(current_dir), None),
        }
    }

    /// Sets one configuration value, as `config set KEY VALUE` does:
    /// `workspace.default_world`, `git.auto_commit` or `git.auto_push` (the
    /// last two take `true` or `false`, and create the git preferences with
    /// their defaults when there were none).
    pub fn set_value(&mut self, key: &str, value: String) -> (r: Result<(), ConfigSetError>)
        ensures
            if key@ == "workspace.default_world"@ {
                &&& r is Ok
                &&& final(self).workspace.default_world matches Some(w) && w@ == value@
                &&& final(self).workspace.path == old(self).workspace.path
                &&& final(self).git == old(self).git
            } else if key@ == "git.auto_commit"@ || key@ == "git.auto_push"@ {
                match bool_literal(value@) {
                    Some(b) => {
                        &&& r is Ok
                        &&& final(self).workspace == old(self).workspace
                        &&& final(self).git == Some(git_with_setting(old(self).git, key@, b))
                        &&& final(self).git matches Some(g) && (if key@ == "git.auto_commit"@ {
                            g.auto_commit == b && g.auto_push == (match old(self).git {
                                Some(o) => o.auto_push,
                                None => false,
                            })
                        } else {
                            g.auto_push == b && g.auto_commit == (match old(self).git {
                                Some(o) => o.auto_commit,
                                None => true,
                            })
                        })
                    },
                    None => {
                        &&& r matches Err(ConfigSetError::InvalidBool { value: v }) && v@ == value@
                        &&& final(self).workspace == old(self).workspace
                        &&& final(self).git == old(self).git
                    },
                }
            } else {
                &&& r matches Err(ConfigSetError::UnknownKey { key: k }) && k@ == key@
                &&& final(self).workspace == old(self).workspace
                &&& final(self).git == old(self).git
            },
    {
        if str_eq(key, "workspace.default_world") {
            self.workspace.default_world = Some(value);
            Ok(())
        } else if str_eq(key, "git.auto_commit") || str_eq(key, "git.auto_push") {
            match parse_bool(value.as_str()) {
                Some(b) => {
                    let mut g = match self.git {
                        Some(g) => g,
                        None => GitConfig::default_config(),
                    };
                    if str_eq(key, "git.auto_commit") {
                        g.auto_commit = b;
                    } else {
                        g.auto_push = b;
                    }
                    self.git = Some(g);
                    Ok(())
                },
                None => Err(ConfigSetError::InvalidBool { value }),
            }
        } else {
            Err(ConfigSetError::UnknownKey { key: string_of(key) })
        }
    }
}

} // verus!
