use multiverse::event::Event;
use multiverse::git::{
    plan_pull, status_from_entries, GitRepoError, GitStatusPrinter, PullPlan, StatusEntry, WorkspaceGitManager,
    WorldGitRepo, WorldGitStatus,
};
use multiverse::location::Location;
use multiverse::order::{count_in_order, sorted_strings, text_less};
use multiverse::status::{CharacterStatus, EpisodeStatus, EventStatus, FactionStatus, LocationStatus, RaceStatus, StoryStatus};

fn names(v: &[&str]) -> Vec<String> {
    v.iter().map(|s| s.to_string()).collect()
}

fn status(ahead: usize, behind: usize, modified: &[&str], untracked: &[&str]) -> WorldGitStatus {
    WorldGitStatus { ahead, behind, modified_files: names(modified), untracked_files: names(untracked) }
}

#[test]
fn pull_plans() {
    assert_eq!(plan_pull(0, 0), PullPlan::UpToDate);
    assert_eq!(plan_pull(3, 0), PullPlan::UpToDate);
    assert_eq!(plan_pull(0, 2), PullPlan::FastForward);
    assert_eq!(plan_pull(1, 2), PullPlan::Diverged);
}

#[test]
fn status_from_working_tree() {
    let entries = vec![
        StatusEntry { path: "a.md".to_string(), worktree_modified: true, index_modified: false, worktree_new: false },
        StatusEntry { path: "b.md".to_string(), worktree_modified: false, index_modified: false, worktree_new: true },
        StatusEntry { path: "c.md".to_string(), worktree_modified: false, index_modified: true, worktree_new: false },
        StatusEntry { path: "d.md".to_string(), worktree_modified: false, index_modified: false, worktree_new: false },
    ];
    let s = status_from_entries(&entries, 2, 0);
    assert_eq!(s.modified_files, names(&["a.md", "c.md"]));
    assert_eq!(s.untracked_files, names(&["b.md"]));
    assert_eq!((s.ahead, s.behind), (2, 0));
    assert!(!s.is_clean());
    assert!(s.needs_push());
    assert!(!s.needs_pull());
    let clean = status_from_entries(&vec![], 1, 0);
    let repo = WorldGitRepo::new("/w/x".to_string(), true, true).unwrap();
    assert!(!repo.is_clean_and_synced(&clean));
}

#[test]
fn compact_summaries() {
    assert_eq!(GitStatusPrinter::compact_summary(&status(0, 0, &[], &[])), None);
    assert_eq!(
        GitStatusPrinter::compact_summary(&status(2, 1, &["a", "b"], &["c"])),
        Some("📥 -1 📤 +2 📝 2M ➕ 1?".to_string())
    );
    assert_eq!(GitStatusPrinter::compact_summary(&status(0, 0, &[], &["c"])), Some("➕ 1?".to_string()));
}

#[test]
fn detailed_reports() {
    assert_eq!(
        GitStatusPrinter::detailed_lines(&status(0, 0, &[], &[])),
        names(&["   ✅ Repository is clean and up to date"])
    );
    assert_eq!(
        GitStatusPrinter::detailed_lines(&status(2, 1, &["a.md"], &["b.md", "c.md"])),
        names(&[
            "   📥 Behind remote by 1 commits - run 'pull' to update",
            "   📤 Ahead of remote by 2 commits - run 'push' to sync",
            "   📝 Modified files (1):",
            "      M  a.md",
            "   ➕ Untracked files (2):",
            "      ?  b.md",
            "      ?  c.md",
        ])
    );
}

#[test]
fn repositories_are_named_after_their_directory() {
    let repo = WorldGitRepo::new("/worlds/wandering-sun".to_string(), true, true).unwrap();
    assert_eq!(repo.name(), "wandering-sun");
    assert_eq!(repo.path(), "/worlds/wandering-sun");
    assert!(repo.is_clean_and_synced(&status(0, 0, &[], &[])));
    assert!(!repo.is_clean_and_synced(&status(1, 0, &[], &[])));
    assert!(matches!(WorldGitRepo::new("/w".to_string(), false, true), Err(GitRepoError::MissingDirectory { .. })));
    assert!(matches!(WorldGitRepo::new("/w".to_string(), true, false), Err(GitRepoError::NotAWorld { .. })));
    assert!(matches!(WorldGitRepo::new("/".to_string(), true, true), Err(GitRepoError::InvalidPath { .. })));
    let cloned = WorldGitRepo::clone_from("/tmp/lyra".to_string()).unwrap();
    assert_eq!(cloned.name(), "lyra");
    let manager = WorkspaceGitManager::new("/worlds/w".to_string());
    assert_eq!(manager.workspace_path(), "/worlds/w");
    assert_eq!(manager.get_current_world_repo(true, true).unwrap().name(), "w");
}

#[test]
fn text_order() {
    assert!(text_less("a", "b"));
    assert!(text_less("ab", "abc"));
    assert!(!text_less("abc", "ab"));
    assert!(!text_less("x", "x"));
    assert!(text_less("Z", "a"));
    assert!(text_less("z", "é"));
}

#[test]
fn sorting_matches_std() {
    let v = names(&["pear", "Apple", "apple", "éclair", "pea", "", "pear"]);
    let mut expected = v.clone();
    expected.sort();
    assert_eq!(sorted_strings(&v), expected);
}

#[test]
fn counting_by_status() {
    let statuses = names(&["Active", "Cancelled", "Active", "Pending", "Active"]);
    assert_eq!(
        count_in_order(&statuses),
        vec![("Active".to_string(), 3), ("Cancelled".to_string(), 1), ("Pending".to_string(), 1)]
    );
    assert_eq!(Event::count_by_status(&names(&[])), vec![]);
    assert_eq!(
        Location::count_by_status(&names(&["Hidden", "Active"])),
        vec![("Active".to_string(), 1), ("Hidden".to_string(), 1)]
    );
}

#[test]
fn status_counts_add_up_to_the_total() {
    let statuses = names(&["Past", "Future", "Past", "Present", "Past", "Future", "Legend"]);
    let counts = Event::count_by_status(&statuses);
    let total: usize = counts.iter().map(|(_, n)| *n).sum();
    assert_eq!(total, statuses.len());
    assert_eq!(counts.len(), 4);
}

#[test]
fn status_names_round_trip() {
    for st in [CharacterStatus::Active, CharacterStatus::Inactive, CharacterStatus::Deceased, CharacterStatus::Archived] {
        assert_eq!(CharacterStatus::parse(st.as_str()), Some(st));
        assert_eq!(CharacterStatus::from_column(st.as_str()), Some(st));
    }
    for st in [LocationStatus::Active, LocationStatus::Destroyed, LocationStatus::Hidden, LocationStatus::Unknown] {
        assert_eq!(LocationStatus::from_column(st.as_str()), Some(st));
    }
    for st in [RaceStatus::Extinct, RaceStatus::Legendary, RaceStatus::Mythical] {
        assert_eq!(RaceStatus::from_column(st.as_str()), Some(st));
    }
    for st in [EventStatus::Completed, EventStatus::Cancelled, EventStatus::Pending] {
        assert_eq!(EventStatus::from_column(st.as_str()), Some(st));
    }
    for st in [EpisodeStatus::Draft, EpisodeStatus::InProgress, EpisodeStatus::Review, EpisodeStatus::Published] {
        assert_eq!(EpisodeStatus::from_column(st.as_str()), Some(st));
    }
    assert_eq!(FactionStatus::parse(FactionStatus::default_status().as_str()), Some(FactionStatus::default_status()));
    assert_eq!(StoryStatus::parse("Active"), Some(StoryStatus::Active));
}

#[test]
fn status_columns_are_read_as_json_strings() {
    assert_eq!(EpisodeStatus::from_column("Dr\\u0061ft"), Some(EpisodeStatus::Draft));
    assert_eq!(EpisodeStatus::from_column("draft"), None);
    assert_eq!(EpisodeStatus::from_column("Draft\""), None);
    assert_eq!(CharacterStatus::parse_or_default("gone"), CharacterStatus::Active);
    assert_eq!(CharacterStatus::parse_or_default("Deceased"), CharacterStatus::Deceased);
}

#[test]
fn stored_status_reads_back_for_every_status() {
    for st in [FactionStatus::Active, FactionStatus::Disbanded, FactionStatus::Dormant, FactionStatus::Archived] {
        assert_eq!(FactionStatus::from_column(st.as_str()), Some(st));
    }
    for st in [StoryStatus::Active, StoryStatus::Paused, StoryStatus::Completed, StoryStatus::Archived] {
        assert_eq!(StoryStatus::from_column(st.as_str()), Some(st));
    }
}

#[test]
fn repository_error_messages() {
    assert_eq!(GitRepoError::InvalidPath { path: "/".to_string() }.message(), "Invalid world path");
    assert_eq!(
        GitRepoError::MissingDirectory { path: "/w".to_string() }.message(),
        "World directory does not exist: /w"
    );
    assert_eq!(
        GitRepoError::NotAWorld { path: "/w".to_string() }.message(),
        "Not a valid world directory (missing config dir): /w"
    );
}
