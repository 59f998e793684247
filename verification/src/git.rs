//! Git state of a world repository, and the decisions taken on it.

use vstd::prelude::*;
use crate::paths::{file_name_of, path_file_name};
use crate::text::{append_chars, append_slice, decimal, decimal_chars, framed_number, prefixed, string_from_chars, string_of};

verus! {

broadcast use vstd::string::group_string_axioms;

/// The state of a world repository: commits ahead of and behind the remote,
/// and the modified and untracked files of the working tree.
#[derive(Debug)]
pub struct WorldGitStatus {
    pub ahead: usize,
    pub behind: usize,
    pub modified_files: Vec<String>,
    pub untracked_files: Vec<String>,
}

impl WorldGitStatus {
    /// No file is modified or untracked.
    pub open spec fn clean(self) -> bool {
        self.modified_files@.len() == 0 && self.untracked_files@.len() == 0
    }

    /// Whether no file is modified or untracked.
    pub fn is_clean(&self) -> (r: bool)
        ensures
            r == self.clean(),
    {
        self.modified_files.len() == 0 && self.untracked_files.len() == 0
    }

    /// Whether local commits are missing from the remote.
    pub fn needs_push(&self) -> (r: bool)
        ensures
            r == (self.ahead > 0),
    {
        self.ahead > 0
    }

    /// Whether remote commits are missing locally.
    pub fn needs_pull(&self) -> (r: bool)
        ensures
            r == (self.behind > 0),
    {
        self.behind > 0
    }
}

/// One entry of the working-tree status: its path and the flags that matter here.
#[derive(Debug)]
pub struct StatusEntry {
    pub path: String,
    pub worktree_modified: bool,
    pub index_modified: bool,
    pub worktree_new: bool,
}

/// The paths of the entries that pass `keep`, in order.
pub open spec fn entry_paths(s: Seq<StatusEntry>, keep: spec_fn(StatusEntry) -> bool) -> Seq<Seq<char>>
    decreases s.len(),
{
    if s.len() == 0 {
        Seq::empty()
    } else {
        let rest = entry_paths(s.drop_last(), keep);
        if keep(s.last()) {
            rest.push(s.last().path@)
        } else {
            rest
        }
    }
}

/// A modified entry: changed in the working tree or in the index.
pub open spec fn is_modified(e: StatusEntry) -> bool {
    e.worktree_modified || e.index_modified
}

/// An untracked entry: new in the working tree.
pub open spec fn is_untracked(e: StatusEntry) -> bool {
    e.worktree_new
}

/// The views of a list of strings.
pub open spec fn paths_view(s: Seq<String>) -> Seq<Seq<char>> {
    s.map_values(|x: String| x@)
}

/// The status of a repository from the entries of its working tree (entries
/// without a path are left out by the caller) and the number of commits its
/// branch is ahead of and behind its remote branch.
pub fn status_from_entries(entries: &Vec<StatusEntry>, ahead: usize, behind: usize) -> (r: WorldGitStatus)
    ensures
        r.ahead == ahead,
        r.behind == behind,
        paths_view(r.modified_files@) == entry_paths(entries@, |e: StatusEntry| is_modified(e)),
        paths_view(r.untracked_files@) == entry_paths(entries@, |e: StatusEntry| is_untracked(e)),
{
    let mut modified: Vec<String> = Vec::new();
    let mut untracked: Vec<String> = Vec::new();
    let ghost m = |e: StatusEntry| is_modified(e);
    let ghost u = |e: StatusEntry| is_untracked(e);
    let mut i: usize = 0;
    while i < entries.len()
        invariant
            i <= entries@.len(),
            m == (|e: StatusEntry| is_modified(e)),
            u == (|e: StatusEntry| is_untracked(e)),
            paths_view(modified@) == entry_paths(entries@.take(i as int), m),
            paths_view(untracked@) == entry_paths(entries@.take(i as int), u),
        decreases entries@.len() - i,
    {
        let e = &entries[i];
        assert(entries@.take(i + 1).drop_last() == entries@.take(i as int));
        assert(entries@.take(i + 1).last() == *e);
        if e.worktree_modified || e.index_modified {
            let ghost before = modified@;
            modified.push(e.path.clone());
            assert(paths_view(modified@) =~= paths_view(before).push(e.path@));
        }
        if e.worktree_new {
            let ghost before = untracked@;
            untracked.push(e.path.clone());
            assert(paths_view(untracked@) =~= paths_view(before).push(e.path@));
        }
        i = i + 1;
    }
    assert(entries@.take(entries@.len() as int) == entries@);
    WorldGitStatus { ahead, behind, modified_files: modified, untracked_files: untracked }
}

/// What a pull does once the remote is fetched.
#[derive(Debug, Clone, Copy, PartialEq, Eq, Structural)]
pub enum PullPlan {
    /// Nothing to bring in.
    UpToDate,
    /// Move the branch forward to the remote commit and check it out.
    FastForward,
    /// Local and remote histories diverged; the user must merge by hand.
    Diverged,
}

/// The pull plan for a branch `ahead` commits ahead of and `behind` commits behind its remote.
pub fn plan_pull(ahead: usize, behind: usize) -> (r: PullPlan)
    ensures
        r == (if behind == 0 { PullPlan::UpToDate } else if ahead > 0 { PullPlan::Diverged } else { PullPlan::FastForward }),
{
    if behind == 0 {
        PullPlan::UpToDate
    } else if ahead > 0 {
        PullPlan::Diverged
    } else {
        PullPlan::FastForward
    }
}

/// Why a directory is not a world repository.
#[derive(Debug)]
pub enum GitRepoError {
    /// The path has no final component to name the world after.
    InvalidPath { path: String },
    /// The directory does not exist.
    MissingDirectory { path: String },
    /// The directory has no `.multiverse` configuration directory.
    NotAWorld { path: String },
}

impl GitRepoError {
    /// The message shown for the error.
    pub open spec fn message_text(self) -> Seq<char> {
        match self {
            GitRepoError::InvalidPath { .. } => "Invalid world path"@,
            GitRepoError::MissingDirectory { path } => "World directory does not exist: "@ + path@,
            GitRepoError::NotAWorld { path } => "Not a valid world directory (missing config dir): "@ + path@,
        }
    }

    /// The message shown for the error, naming the directory where there is one.
    pub fn message(&self) -> (r: String)
        ensures
            r@ == self.message_text(),
    {
        match self {
            GitRepoError::InvalidPath { .. } => string_of("Invalid world path"),
            GitRepoError::MissingDirectory { path } => prefixed("World directory does not exist: ", path.as_str()),
            GitRepoError::NotAWorld { path } => prefixed("Not a valid world directory (missing config dir): ", path.as_str()),
        }
    }
}

/// A world directory under git.
#[derive(Debug)]
pub struct WorldGitRepo {
    world_path: String,
    world_name: String,
}

impl WorldGitRepo {
    /// The directory of the world.
    pub closed spec fn path_view(self) -> Seq<char> {
        self.world_path@
    }

    /// The name of the world: the last component of its directory.
    pub closed spec fn name_view(self) -> Seq<char> {
        self.world_name@
    }

    /// The world repository at `world_path`, given whether that directory
    /// exists and whether it holds a `.multiverse` directory.
    pub fn new(world_path: String, exists: bool, has_config_dir: bool) -> (r: Result<WorldGitRepo, GitRepoError>)
        ensures
            match path_file_name(world_path@) {
                None => r matches Err(GitRepoError::InvalidPath { path }) && path@ == world_path@,
                Some(n) => if !exists {
                    r matches Err(GitRepoError::MissingDirectory { path }) && path@ == world_path@
                } else if !has_config_dir {
                    r matches Err(GitRepoError::NotAWorld { path }) && path@ == world_path@
                } else {
                    r matches Ok(repo) && repo.path_view() == world_path@ && repo.name_view() == n
                },
            },
    {
        let world_name = match file_name_of(world_path.as_str()) {
            Some(n) => n,
            None => {
                return Err(GitRepoError::InvalidPath { path: world_path });
            },
        };
        if !exists {
            return Err(GitRepoError::MissingDirectory { path: world_path });
        }
        if !has_config_dir {
            return Err(GitRepoError::NotAWorld { path: world_path });
        }
        Ok(WorldGitRepo { world_path, world_name })
    }

    /// The repository that cloning a world into `target_path` gives, named
    /// after the last component of that path; a path without one is refused
    /// before anything is cloned. The caller clones once this succeeds.
    pub fn clone_from(target_path: String) -> (r: Result<WorldGitRepo, GitRepoError>)
        ensures
            match path_file_name(target_path@) {
                None => r matches Err(GitRepoError::InvalidPath { path }) && path@ == target_path@,
                Some(n) => r matches Ok(repo) && repo.path_view() == target_path@ && repo.name_view() == n,
            },
    {
        match file_name_of(target_path.as_str()) {
            Some(n) => Ok(WorldGitRepo { world_path: target_path, world_name: n }),
            None => Err(GitRepoError::InvalidPath { path: target_path }),
        }
    }

    /// The name of the world.
    pub fn name(&self) -> (r: &str)
        ensures
            r@ == self.name_view(),
    {
        self.world_name.as_str()
    }

    /// The directory of the world.
    pub fn path(&self) -> (r: &str)
        ensures
            r@ == self.path_view(),
    {
        self.world_path.as_str()
    }

    /// Whether the repository, whose state is `status`, is clean and in step with its remote.
    pub fn is_clean_and_synced(&self, status: &WorldGitStatus) -> (r: bool)
        ensures
            r == (status.clean() && status.ahead == 0 && status.behind == 0),
    {
        status.is_clean() && !status.needs_push() && !status.needs_pull()
    }
}

/// Git operations on the world that contains the current directory.
#[derive(Debug)]
pub struct WorkspaceGitManager {
    workspace_path: String,
}

impl WorkspaceGitManager {
    /// The root of the world that the manager works on.
    pub closed spec fn root(self) -> Seq<char> {
        self.workspace_path@
    }

    /// A manager for the world rooted at `world_root`.
    pub fn new(world_root: String) -> (r: WorkspaceGitManager)
        ensures
            r.root() == world_root@,
    {
        WorkspaceGitManager { workspace_path: world_root }
    }

    /// The root directory of the world.
    pub fn workspace_path(&self) -> (r: &str)
        ensures
            r@ == self.root(),
    {
        self.workspace_path.as_str()
    }

    /// The repository of the current world, given whether its root exists and
    /// holds a `.multiverse` directory.
    pub fn get_current_world_repo(&self, exists: bool, has_config_dir: bool) -> (r: Result<WorldGitRepo, GitRepoError>)
        ensures
            match path_file_name(self.root()) {
                None => r matches Err(GitRepoError::InvalidPath { path }) && path@ == self.root(),
                Some(n) => if !exists {
                    r matches Err(GitRepoError::MissingDirectory { path }) && path@ == self.root()
                } else if !has_config_dir {
                    r matches Err(GitRepoError::NotAWorld { path }) && path@ == self.root()
                } else {
                    r matches Ok(repo) && repo.path_view() == self.root() && repo.name_view() == n
                },
            },
    {
        WorldGitRepo::new(self.workspace_path.clone(), exists, has_config_dir)
    }
}

/// Renders the state of a repository for the user.
#[derive(Debug)]
pub struct GitStatusPrinter;

/// The one-line summary of a status: its non-empty parts joined by spaces.
pub open spec fn compact_parts(s: WorldGitStatus) -> Seq<Seq<char>> {
    let p1: Seq<Seq<char>> = if s.behind > 0 { seq!["📥 -"@ + decimal(s.behind as nat)] } else { Seq::empty() };
    let p2: Seq<Seq<char>> = if s.ahead > 0 { seq!["📤 +"@ + decimal(s.ahead as nat)] } else { Seq::empty() };
    let p3: Seq<Seq<char>> = if s.modified_files@.len() > 0 { seq!["📝 "@ + decimal(s.modified_files@.len()) + "M"@] } else { Seq::empty() };
    let p4: Seq<Seq<char>> = if s.untracked_files@.len() > 0 { seq!["➕ "@ + decimal(s.untracked_files@.len()) + "?"@] } else { Seq::empty() };
    p1 + p2 + p3 + p4
}

/// The compact summary has nothing to report exactly when no file is
/// modified or untracked and the branch is level with its remote; otherwise
/// it reports each direction the branch is out of step in, with its number
/// of commits, and the numbers of modified and untracked files.
pub proof fn lemma_compact_parts_show_sync_state(s: WorldGitStatus)
    ensures
        (compact_parts(s).len() == 0)
            <==> (s.modified_files@.len() == 0 && s.untracked_files@.len() == 0 && s.ahead == 0 && s.behind == 0),
        s.behind > 0 ==> compact_parts(s).contains("📥 -"@ + decimal(s.behind as nat)),
        s.ahead > 0 ==> compact_parts(s).contains("📤 +"@ + decimal(s.ahead as nat)),
        s.modified_files@.len() > 0 ==> compact_parts(s).contains("📝 "@ + decimal(s.modified_files@.len()) + "M"@),
        s.untracked_files@.len() > 0 ==> compact_parts(s).contains("➕ "@ + decimal(s.untracked_files@.len()) + "?"@),
{
    let p1: Seq<Seq<char>> = if s.behind > 0 { seq!["📥 -"@ + decimal(s.behind as nat)] } else { Seq::empty() };
    let p2: Seq<Seq<char>> = if s.ahead > 0 { seq!["📤 +"@ + decimal(s.ahead as nat)] } else { Seq::empty() };
    let p3: Seq<Seq<char>> = if s.modified_files@.len() > 0 { seq!["📝 "@ + decimal(s.modified_files@.len()) + "M"@] } else { Seq::empty() };
    let p4: Seq<Seq<char>> = if s.untracked_files@.len() > 0 { seq!["➕ "@ + decimal(s.untracked_files@.len()) + "?"@] } else { Seq::empty() };
    let c = compact_parts(s);
    assert(c == p1 + p2 + p3 + p4);
    if s.behind > 0 {
        assert(c[0] == p1[0]);
    }
    if s.ahead > 0 {
        assert(c[p1.len() as int] == p2[0]);
    }
    if s.modified_files@.len() > 0 {
        assert(c[(p1.len() + p2.len()) as int] == p3[0]);
    }
    if s.untracked_files@.len() > 0 {
        assert(c[(p1.len() + p2.len() + p3.len()) as int] == p4[0]);
    }
}

/// `parts` joined by single spaces.
pub open spec fn join_spaced(parts: Seq<Seq<char>>) -> Seq<char>
    decreases parts.len(),
{
    if parts.len() == 0 {
        Seq::empty()
    } else if parts.len() == 1 {
        parts[0]
    } else {
        join_spaced(parts.drop_last()) + " "@ + parts.last()
    }
}

/// Each of `files` behind `pre`.
pub open spec fn lines_with_prefix(pre: Seq<char>, files: Seq<Seq<char>>) -> Seq<Seq<char>> {
    files.map_values(|f: Seq<char>| pre + f)
}

/// The detailed report of a status, line by line: one line when the
/// repository is clean and in step with its remote, else a line for each
/// direction it is out of step in, then the modified files and the untracked
/// files, each list under a header with its length.
pub open spec fn detailed_report(s: WorldGitStatus) -> Seq<Seq<char>> {
    if s.clean() && s.ahead == 0 && s.behind == 0 {
        seq!["   ✅ Repository is clean and up to date"@]
    } else {
        let pull: Seq<Seq<char>> = if s.behind > 0 {
            seq!["   📥 Behind remote by "@ + decimal(s.behind as nat) + " commits - run 'pull' to update"@]
        } else {
            Seq::empty()
        };
        let push: Seq<Seq<char>> = if s.ahead > 0 {
            seq!["   📤 Ahead of remote by "@ + decimal(s.ahead as nat) + " commits - run 'push' to sync"@]
        } else {
            Seq::empty()
        };
        let modified: Seq<Seq<char>> = if s.modified_files@.len() > 0 {
            seq!["   📝 Modified files ("@ + decimal(s.modified_files@.len()) + "):"@]
                + lines_with_prefix("      M  "@, paths_view(s.modified_files@))
        } else {
            Seq::empty()
        };
        let untracked: Seq<Seq<char>> = if s.untracked_files@.len() > 0 {
            seq!["   ➕ Untracked files ("@ + decimal(s.untracked_files@.len()) + "):"@]
                + lines_with_prefix("      ?  "@, paths_view(s.untracked_files@))
        } else {
            Seq::empty()
        };
        pull + push + modified + untracked
    }
}

/// The detailed report is the single "clean and up to date" line exactly
/// when no file is modified or untracked and the branch is level with its
/// remote; commits not yet pushed are always reported with their number, and
/// so are commits not yet pulled.
pub proof fn lemma_detailed_report_shows_sync_state(s: WorldGitStatus)
    ensures
        (detailed_report(s) == seq!["   ✅ Repository is clean and up to date"@])
            <==> (s.modified_files@.len() == 0 && s.untracked_files@.len() == 0 && s.ahead == 0 && s.behind == 0),
        s.ahead > 0 ==> detailed_report(s).contains(
            "   📤 Ahead of remote by "@ + decimal(s.ahead as nat) + " commits - run 'push' to sync"@,
        ),
        s.behind > 0 ==> detailed_report(s).contains(
            "   📥 Behind remote by "@ + decimal(s.behind as nat) + " commits - run 'pull' to update"@,
        ),
{
    reveal_strlit("   ✅ Repository is clean and up to date");
    reveal_strlit("   📤 Ahead of remote by ");
    reveal_strlit("   📥 Behind remote by ");
    let clean_line = "   ✅ Repository is clean and up to date"@;
    let r = detailed_report(s);
    if !(s.clean() && s.ahead == 0 && s.behind == 0) {
        let pull_line = "   📥 Behind remote by "@ + decimal(s.behind as nat) + " commits - run 'pull' to update"@;
        let push_line = "   📤 Ahead of remote by "@ + decimal(s.ahead as nat) + " commits - run 'push' to sync"@;
        let pull: Seq<Seq<char>> = if s.behind > 0 { seq![pull_line] } else { Seq::empty() };
        let push: Seq<Seq<char>> = if s.ahead > 0 { seq![push_line] } else { Seq::empty() };
        let modified: Seq<Seq<char>> = if s.modified_files@.len() > 0 {
            seq!["   📝 Modified files ("@ + decimal(s.modified_files@.len()) + "):"@]
                + lines_with_prefix("      M  "@, paths_view(s.modified_files@))
        } else {
            Seq::empty()
        };
        let untracked: Seq<Seq<char>> = if s.untracked_files@.len() > 0 {
            seq!["   ➕ Untracked files ("@ + decimal(s.untracked_files@.len()) + "):"@]
                + lines_with_prefix("      ?  "@, paths_view(s.untracked_files@))
        } else {
            Seq::empty()
        };
        assert(r == pull + push + modified + untracked);
        if s.behind > 0 {
            assert(r[0] == pull_line);
        }
        if s.ahead > 0 {
            assert(r[pull.len() as int] == push_line);
        }
        assert(pull_line[3] != clean_line[3]);
        assert(push_line[3] != clean_line[3]);
        if r.len() == 1 {
            if s.behind > 0 {
                assert(r[0] != clean_line);
            } else if s.ahead > 0 {
                assert(r[0] == push_line);
                assert(r[0] != clean_line);
            } else if s.modified_files@.len() > 0 {
                assert(modified.len() >= 2);
            } else {
                assert(untracked.len() >= 2);
            }
        }
        assert(r != seq![clean_line]) by {
            if r == seq![clean_line] {
                assert(r.len() == 1);
                assert(r[0] == clean_line);
            }
        }
    }
}

impl GitStatusPrinter {
    /// The lines of the detailed report of a status.
    pub fn detailed_lines(status: &WorldGitStatus) -> (r: Vec<String>)
        ensures
            paths_view(r@) == detailed_report(*status),
    {
        let mut out: Vec<String> = Vec::new();
        if status.is_clean() && !status.needs_push() && !status.needs_pull() {
            out.push(string_of("   ✅ Repository is clean and up to date"));
            assert(paths_view(out@) =~= detailed_report(*status));
            return out;
        }
        if status.needs_pull() {
            out.push(framed_number("   📥 Behind remote by ", status.behind as u64, " commits - run 'pull' to update"));
        }
        if status.needs_push() {
            out.push(framed_number("   📤 Ahead of remote by ", status.ahead as u64, " commits - run 'push' to sync"));
        }
        let ghost head = paths_view(out@);
        if status.modified_files.len() > 0 {
            out.push(framed_number("   📝 Modified files (", status.modified_files.len() as u64, "):"));
            let ghost h1 = paths_view(out@);
            assert(h1 =~= head.push("   📝 Modified files ("@ + decimal(status.modified_files@.len()) + "):"@));
            Self::push_prefixed(&mut out, "      M  ", &status.modified_files);
        }
        let ghost mid = paths_view(out@);
        if status.untracked_files.len() > 0 {
            out.push(framed_number("   ➕ Untracked files (", status.untracked_files.len() as u64, "):"));
            let ghost m1 = paths_view(out@);
            assert(m1 =~= mid.push("   ➕ Untracked files ("@ + decimal(status.untracked_files@.len()) + "):"@));
            Self::push_prefixed(&mut out, "      ?  ", &status.untracked_files);
        }
        proof {
            let s = *status;
            let pull: Seq<Seq<char>> = if s.behind > 0 {
                seq!["   📥 Behind remote by "@ + decimal(s.behind as nat) + " commits - run 'pull' to update"@]
            } else {
                Seq::empty()
            };
            let push: Seq<Seq<char>> = if s.ahead > 0 {
                seq!["   📤 Ahead of remote by "@ + decimal(s.ahead as nat) + " commits - run 'push' to sync"@]
            } else {
                Seq::empty()
            };
            assert(head =~= pull + push);
            let modified: Seq<Seq<char>> = if s.modified_files@.len() > 0 {
                seq!["   📝 Modified files ("@ + decimal(s.modified_files@.len()) + "):"@]
                    + lines_with_prefix("      M  "@, paths_view(s.modified_files@))
            } else {
                Seq::empty()
            };
            let untracked: Seq<Seq<char>> = if s.untracked_files@.len() > 0 {
                seq!["   ➕ Untracked files ("@ + decimal(s.untracked_files@.len()) + "):"@]
                    + lines_with_prefix("      ?  "@, paths_view(s.untracked_files@))
            } else {
                Seq::empty()
            };
            assert(mid =~= head + modified);
            assert(paths_view(out@) =~= mid + untracked);
            assert(pull + push + modified + untracked =~= head + modified + untracked);
        }
        assert(paths_view(out@) =~= detailed_report(*status));
        out
    }

    /// Appends each of `files` behind `pre`.
    fn push_prefixed(out: &mut Vec<String>, pre: &str, files: &Vec<String>)
        ensures
            paths_view(final(out)@) == paths_view(old(out)@) + lines_with_prefix(pre@, paths_view(files@)),
    {
        let ghost start = paths_view(out@);
        let mut i: usize = 0;
        while i < files.len()
            invariant
                i <= files@.len(),
                paths_view(out@) == start + lines_with_prefix(pre@, paths_view(files@.take(i as int))),
            decreases files@.len() - i,
        {
            let ghost before = paths_view(out@);
            out.push(prefixed(pre, files[i].as_str()));
            assert(paths_view(files@.take(i + 1)) =~= paths_view(files@.take(i as int)).push(files@[i as int]@));
            assert(paths_view(out@) =~= before.push(pre@ + files@[i as int]@));
            assert(lines_with_prefix(pre@, paths_view(files@.take(i + 1))) =~= lines_with_prefix(pre@, paths_view(files@.take(i as int))).push(pre@ + files@[i as int]@));
            i = i + 1;
        }
        assert(files@.take(files@.len() as int) == files@);
    }
    /// The compact summary of a status (without indentation), or `None` when
    /// there is nothing to report.
    pub fn compact_summary(status: &WorldGitStatus) -> (r: Option<String>)
        ensures
            match r {
                Some(t) => compact_parts(*status).len() > 0 && t@ == join_spaced(compact_parts(*status)),
                None => compact_parts(*status).len() == 0,
            },
    {
        let ghost parts = compact_parts(*status);
        let mut out: Vec<char> = Vec::new();
        let mut n: usize = 0;
        let ghost mut done: Seq<Seq<char>> = Seq::empty();
        if status.behind > 0 {
            let mut p: Vec<char> = Vec::new();
            append_chars(&mut p, "📥 -");
            let d = decimal_chars(status.behind as u64);
            append_slice(&mut p, d.as_slice());
            Self::add_part(&mut out, &mut n, p.as_slice(), Ghost(done));
            proof { done = done.push(p@); }
        }
        if status.ahead > 0 {
            let mut p: Vec<char> = Vec::new();
            append_chars(&mut p, "📤 +");
            let d = decimal_chars(status.ahead as u64);
            append_slice(&mut p, d.as_slice());
            Self::add_part(&mut out, &mut n, p.as_slice(), Ghost(done));
            proof { done = done.push(p@); }
        }
        if status.modified_files.len() > 0 {
            let mut p: Vec<char> = Vec::new();
            append_chars(&mut p, "📝 ");
            let d = decimal_chars(status.modified_files.len() as u64);
            append_slice(&mut p, d.as_slice());
            append_chars(&mut p, "M");
            Self::add_part(&mut out, &mut n, p.as_slice(), Ghost(done));
            proof { done = done.push(p@); }
        }
        if status.untracked_files.len() > 0 {
            let mut p: Vec<char> = Vec::new();
            append_chars(&mut p, "➕ ");
            let d = decimal_chars(status.untracked_files.len() as u64);
            append_slice(&mut p, d.as_slice());
            append_chars(&mut p, "?");
            Self::add_part(&mut out, &mut n, p.as_slice(), Ghost(done));
            proof { done = done.push(p@); }
        }
        assert(done =~= parts);
        if n == 0 {
            None
        } else {
            Some(string_from_chars(out.as_slice()))
        }
    }

    fn add_part(out: &mut Vec<char>, n: &mut usize, part: &[char], Ghost(done): Ghost<Seq<Seq<char>>>)
        requires
            old(out)@ == join_spaced(done),
            *old(n) == done.len(),
            done.len() < 4,
        ensures
            final(out)@ == join_spaced(done.push(part@)),
            *final(n) == done.len() + 1,
    {
        if *n > 0 {
            out.push(' ');
        }
        append_slice(out, part);
        *n = *n + 1;
        proof {
            reveal_strlit(" ");
            assert(done.push(part@).drop_last() == done);
            assert(done.push(part@).last() == part@);
            if done.len() == 0 {
                assert(done.push(part@)[0] == part@);
            }
        }
    }
}

} // verus!
