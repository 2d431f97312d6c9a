use anchor::git::WorktreeStatus;
use anchor::github::Repo;
use anchor::project_store::{ProjectRecord, ProjectRepoRecord};
use anchor::projects::{order_statuses, repo_record_from_github, split_full_name, unlisted_dirs, unknown_project, ProjectStatus};
use anchor::sync_memory::{LastSync, SyncOutcome};
use anchor::error::AppError;

fn repo(full: &str, name: &str) -> Repo {
    Repo { name: name.into(), full_name: full.into(), private: true, default_branch: "dev".into(), clone_url: "u".into() }
}

#[test]
fn full_names_split_on_one_slash() {
    assert_eq!(split_full_name("alice/anchor"), Some(("alice".to_string(), "anchor".to_string())));
    assert_eq!(split_full_name("anchor"), None);
    assert_eq!(split_full_name("/anchor"), None);
    assert_eq!(split_full_name("alice/"), None);
    assert_eq!(split_full_name("a/b/c"), None);
}

#[test]
fn member_from_github_repo() {
    let m = repo_record_from_github(&repo("alice/anchor", "anchor"));
    assert_eq!((m.owner.as_str(), m.name.as_str(), m.full_name.as_str()), ("alice", "anchor", "alice/anchor"));
    assert!(m.private);
    assert_eq!(m.default_branch, "dev");
    let m = repo_record_from_github(&repo("weird", "weird-name"));
    assert_eq!((m.owner.as_str(), m.name.as_str()), ("unknown", "weird-name"));
}

fn record(slug: &str, n: usize) -> ProjectRecord {
    ProjectRecord {
        id: "i".into(),
        slug: slug.into(),
        name: slug.to_uppercase(),
        default_branch: None,
        created_at: "t".into(),
        repos: (0..n)
            .map(|i| ProjectRepoRecord {
                owner: "o".into(),
                name: format!("r{i}"),
                full_name: format!("o/r{i}"),
                clone_url: String::new(),
                private: false,
                default_branch: "main".into(),
            })
            .collect(),
    }
}

fn wt(agent: &str) -> WorktreeStatus {
    WorktreeStatus { agent: agent.into(), branch: format!("agent/{agent}"), ahead: 0, behind: 2, dirty: true, diverged: false }
}

#[test]
fn status_assembles_members_in_order() {
    let last = LastSync { outcome: SyncOutcome::Partial, message: "m".into(), at: 77, skipped_dirty: 1, skipped_diverged: 0 };
    let s = ProjectStatus::assemble(record("demo", 2), vec![vec![wt("cursor")], vec![wt("opencode"), wt("cursor")]], true, false, Some(last));
    assert_eq!(s.slug, "demo");
    assert_eq!(s.name, "DEMO");
    assert_eq!(s.member_count, 2);
    assert_eq!(s.members[0].name, "r0");
    assert_eq!(s.members[1].worktrees.len(), 2);
    assert_eq!(s.members[1].worktrees[0].agent, "opencode");
    assert_eq!(s.last_synced, Some(77));
    assert!(s.on_disk && !s.tmux_window_exists);
}

#[test]
fn unlisted_dirs_and_order() {
    let listed = vec![record("b", 0), record("a", 0)];
    let dirs = vec!["a".to_string(), "c".to_string(), "b".to_string(), "d".to_string()];
    assert_eq!(unlisted_dirs(&listed, dirs), vec!["c".to_string(), "d".to_string()]);
    let st = |slug: &str| ProjectStatus::assemble(record(slug, 0), vec![], false, false, None);
    let ordered = order_statuses(vec![st("b"), st("a"), st("c")]);
    let slugs: Vec<&str> = ordered.iter().map(|p| p.slug.as_str()).collect();
    assert_eq!(slugs, vec!["a", "b", "c"]);
    match unknown_project("zz") {
        AppError::NotFound(m) => assert_eq!(m, "unknown project: zz"),
        other => panic!("unexpected {other:?}"),
    }
}

#[test]
fn on_disk_names_keeps_bare_dirs_in_order() {
    let names = anchor::projects::on_disk_names(vec![
        ("other".to_string(), true),
        ("not-a-project".to_string(), false),
        ("demo".to_string(), true),
    ]);
    assert_eq!(names, vec!["demo".to_string(), "other".to_string()]);
}
