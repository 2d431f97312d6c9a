use anchor::dashboard::{
    add_repo_target, added_flash, create_repo_options, flash_html, html_escape, legacy_record,
    member_or_flash, parse_add_repo_form, parse_create_form, plan_create, repo_rows_page,
    sync_flash, AddRepoForm, CreateProjectForm, RepoRow,
};
use anchor::git::WorktreeStatus;
use anchor::github::{Repo, RepoList};
use anchor::pages::{
    DashboardTemplate, LoginTemplate, ProjectOption, ProjectsPartial, ReposPartial, SettingsTemplate,
};
use anchor::project_store::{ProjectRecord, ProjectRepoRecord};
use anchor::projects::{MemberStatus, ProjectStatus};
use anchor::sync_memory::{LastSync, SyncOutcome};

#[test]
fn dashboard_shell_defers_lists() {
    let html = DashboardTemplate {
        healthy: true,
        projects_dir: "/home/agent/projects".into(),
        github_user: "alice".into(),
        github_host: "github.com".into(),
        create_repos: vec![],
    }
    .render();
    assert!(html.contains("hx-get=\"/partials/projects\""));
    assert!(html.contains("hx-get=\"/partials/repos\""));
    assert!(html.contains("hx-trigger=\"load\""));
    assert!(html.contains("skeleton-block"));
    assert!(html.contains("Create project") || html.contains("create-project"));
}

#[test]
fn projects_partial_renders_empty() {
    let html = ProjectsPartial { projects: vec![] }.render();
    assert!(html.contains("No projects yet"));
}

#[test]
fn projects_partial_renders_row() {
    let html = ProjectsPartial {
        projects: vec![ProjectStatus {
            slug: "platform".into(),
            name: "Platform".into(),
            member_count: 1,
            members: vec![MemberStatus {
                owner: "alice".into(),
                name: "anchor".into(),
                full_name: "alice/anchor".into(),
                private: true,
                default_branch: "main".into(),
                worktrees: vec![WorktreeStatus {
                    agent: "cursor".into(),
                    branch: "agent/cursor".into(),
                    ahead: 0,
                    behind: 1,
                    dirty: false,
                    diverged: false,
                }],
            }],
            on_disk: true,
            tmux_window_exists: false,
            last_synced: None,
            last_sync: Some(LastSync {
                outcome: SyncOutcome::Failed,
                message: "GitHub authentication required or denied".into(),
                at: 0,
                skipped_dirty: 0,
                skipped_diverged: 0,
            }),
        }],
    }
    .render();
    assert!(html.contains("platform"));
    assert!(html.contains("1"));
    assert!(html.contains("Sync"));
}

#[test]
fn repos_partial_renders() {
    let html = ReposPartial {
        github_user: "alice".into(),
        github_host: "github.com".into(),
        projects: vec![ProjectOption { slug: "platform".into(), name: "Platform".into() }],
        repos: vec![RepoRow {
            full_name: "alice/anchor".into(),
            private: true,
            default_branch: "main".into(),
            in_projects: vec![],
        }],
        offset: 0,
        has_more: false,
        next_offset: 1,
    }
    .render();
    assert!(html.contains("alice/anchor"));
    assert!(html.contains("Add to project") || html.contains("add"));
    assert!(html.contains("private"));
    assert!(html.contains("github.com"));
}

#[test]
fn repos_partial_show_more() {
    let html = ReposPartial {
        github_user: "alice".into(),
        github_host: "github.com".into(),
        projects: vec![],
        repos: vec![RepoRow {
            full_name: "alice/a".into(),
            private: false,
            default_branch: "main".into(),
            in_projects: vec![],
        }],
        offset: 0,
        has_more: true,
        next_offset: 40,
    }
    .render();
    assert!(html.contains("Show more"));
    assert!(html.contains("offset=40"));
}

#[test]
fn dashboard_shell_does_not_block_on_create_repos() {
    let html = DashboardTemplate {
        healthy: true,
        projects_dir: "/tmp/p".into(),
        github_user: "alice".into(),
        github_host: "github.com".into(),
        create_repos: vec![],
    }
    .render();
    assert!(html.contains("hx-get=\"/partials/projects\""));
    assert!(html.contains("hx-trigger=\"load delay:50ms\"") || html.contains("delay:50ms"));
}

#[test]
fn rendered_text_is_escaped() {
    let html = LoginTemplate { error: Some("<bad>".into()), username: "a\"b".into() }.render();
    assert!(html.contains("&lt;bad&gt;"));
    assert!(html.contains("a&quot;b"));
    assert!(!html.contains("<bad>"));
    let html = SettingsTemplate {
        cursor_cmd: "c".into(),
        opencode_cmd: String::new(),
        cursor_args: "--x".into(),
        opencode_args: String::new(),
        cursor_enabled: true,
        opencode_enabled: false,
        install_notes: "<i>".into(),
        env_cursor: "cursor-agent".into(),
        env_opencode: "opencode".into(),
        db_path: "/d.db".into(),
        saved: true,
        error: None,
    }
    .render();
    assert!(html.contains("Saved."));
    assert!(html.contains("name=\"cursor_enabled\" checked"));
    assert!(!html.contains("name=\"opencode_enabled\" checked"));
    assert!(html.contains("&lt;i&gt;"));
}

#[test]
fn html_escape_replaces_markup() {
    assert_eq!(html_escape("a & b <c> \"d\""), "a &amp; b &lt;c&gt; &quot;d&quot;");
    assert_eq!(html_escape("plain"), "plain");
    assert_eq!(flash_html(true, "x<y"), "<div class=\"flash error\" id=\"flash\" hx-swap-oob=\"true\">x&lt;y</div>");
    assert_eq!(flash_html(false, "ok"), "<div class=\"flash\" id=\"flash\" hx-swap-oob=\"true\">ok</div>");
}

#[test]
fn sync_flash_redacts_errors() {
    let ok = sync_flash("demo", Ok("synced".into()));
    assert!(ok.contains("Synced <span class=\"mono\">demo</span> — synced."));
    let err = sync_flash("demo", Err("push failed: ghp_abc123 rejected".into()));
    assert!(err.contains("Sync failed: push failed: [redacted] rejected"));
    assert!(!err.contains("abc123"));
    assert_eq!(
        added_flash("a/b", "p"),
        "<div class=\"flash\" id=\"flash\" hx-swap-oob=\"true\">Added <span class=\"mono\">a/b</span> to <span class=\"mono\">p</span>.</div>"
    );
}

#[test]
fn create_form_keeps_last_values_and_nonempty_repos() {
    let f = parse_create_form(b"name=First&name=My+App&slug=&repos=alice%2Fone&repos=&repos=bob%2Ftwo&other=1");
    assert_eq!(f.name, "My App");
    assert_eq!(f.slug, "");
    assert_eq!(f.repos, vec!["alice/one".to_string(), "bob/two".to_string()]);
    let a = parse_add_repo_form(b"full_name=alice%2Fanchor&project_slug=+platform+");
    assert_eq!(a.full_name, "alice/anchor");
    assert_eq!(a.project_slug, " platform ");
}

#[test]
fn create_plan_derives_and_checks_slug() {
    let f = |name: &str, slug: &str| CreateProjectForm { name: name.into(), slug: slug.into(), repos: vec![] };
    assert_eq!(plan_create(&f("  ", "x")), Err("Project name is required.".to_string()));
    assert_eq!(plan_create(&f(" My App ", "")), Ok(("My App".to_string(), "my-app".to_string())));
    assert_eq!(plan_create(&f("App", " custom_1 ")), Ok(("App".to_string(), "custom_1".to_string())));
    assert_eq!(
        plan_create(&f("App", "Bad")),
        Err("slug must be lowercase alphanumeric, hyphen, or underscore".to_string())
    );
}

fn repo(full: &str, name: &str) -> Repo {
    Repo {
        name: name.into(),
        full_name: full.into(),
        private: false,
        default_branch: "main".into(),
        clone_url: format!("https://github.com/{full}.git"),
    }
}

#[test]
fn members_come_from_github_lookups() {
    let m = member_or_flash("alice/anchor", Ok(Some(repo("alice/anchor", "anchor")))).unwrap();
    assert_eq!(m.owner, "alice");
    assert_eq!(m.name, "anchor");
    assert_eq!(member_or_flash("x/y", Ok(None)).unwrap_err(), "Unknown GitHub repo: x/y");
    assert_eq!(member_or_flash("x/y", Err("boom".into())).unwrap_err(), "boom");
}

#[test]
fn legacy_wrap_uses_slug_or_repo_name() {
    let g = repo("alice/My.Repo", "My.Repo");
    let r = legacy_record("demo", &g, "id".into(), "t".into());
    assert_eq!(r.slug, "demo");
    assert_eq!(r.default_branch.as_deref(), Some("main"));
    assert_eq!(r.repos.len(), 1);
    let r = legacy_record("My.Repo", &g, "id".into(), "t".into());
    assert_eq!(r.slug, "my-repo");
    assert_eq!(r.name, "My.Repo");
}

#[test]
fn add_target_prefers_form_slug() {
    let form = AddRepoForm { full_name: "a/b".into(), project_slug: "  ".into() };
    assert_eq!(add_repo_target("path".into(), &form), "path");
    let form = AddRepoForm { full_name: "a/b".into(), project_slug: " other ".into() };
    assert_eq!(add_repo_target("path".into(), &form), "other");
}

fn project(slug: &str, members: &[(&str, &str, &str)]) -> ProjectRecord {
    ProjectRecord {
        id: "id".into(),
        slug: slug.into(),
        name: slug.into(),
        default_branch: None,
        created_at: "t".into(),
        repos: members
            .iter()
            .map(|(owner, name, full)| ProjectRepoRecord {
                owner: (*owner).into(),
                name: (*name).into(),
                full_name: (*full).into(),
                clone_url: String::new(),
                private: false,
                default_branch: "main".into(),
            })
            .collect(),
    }
}

#[test]
fn repo_rows_page_marks_memberships_and_pages() {
    let repos: Vec<Repo> = (0..5).map(|i| repo(&format!("alice/r{i}"), &format!("r{i}"))).collect();
    let projects = vec![
        project("p1", &[("alice", "r1", "alice/r1")]),
        project("p2", &[("alice", "r1", "other/r1"), ("bob", "r2", "bob/r2")]),
    ];
    let (rows, more) = repo_rows_page(&repos, &projects, 0, 2);
    assert_eq!(rows.len(), 2);
    assert!(more);
    assert_eq!(rows[0].full_name, "alice/r0");
    assert!(rows[0].in_projects.is_empty());
    assert_eq!(rows[1].in_projects, vec!["p1".to_string(), "p2".to_string()]);
    let (rows, more) = repo_rows_page(&repos, &projects, 4, 40);
    assert_eq!(rows.len(), 1);
    assert!(!more);
    let (rows, more) = repo_rows_page(&repos, &projects, 9, usize::MAX);
    assert!(rows.is_empty());
    assert!(!more);
}

#[test]
fn create_options_come_from_cache_only() {
    assert!(create_repo_options(None).is_empty());
    let list = RepoList { repos: vec![repo("a/b", "b")], cached_at: 0 };
    let opts = create_repo_options(Some(&list));
    assert_eq!(opts.len(), 1);
    assert_eq!(opts[0].full_name, "a/b");
}
