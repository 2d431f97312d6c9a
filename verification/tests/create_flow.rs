use anchor::create_flow::{CreateEvent, CreateFlow, CreatePhase, CreateStep};
use anchor::dashboard::CreateProjectForm;
use anchor::github::Repo;

fn form(name: &str, slug: &str, repos: &[&str]) -> CreateProjectForm {
    CreateProjectForm {
        name: name.to_string(),
        slug: slug.to_string(),
        repos: repos.iter().map(|r| r.to_string()).collect(),
    }
}

fn gh(full_name: &str) -> Repo {
    Repo {
        name: full_name.split('/').last().unwrap().to_string(),
        full_name: full_name.to_string(),
        private: false,
        default_branch: "main".to_string(),
        clone_url: format!("https://github.com/{full_name}.git"),
    }
}

fn flash(step: CreateStep) -> (bool, String) {
    match step {
        CreateStep::Flash { is_error, message } => (is_error, message),
        _ => panic!("expected a flash"),
    }
}

#[test]
fn create_missing_name_is_refused_at_once() {
    let (flow, step) = CreateFlow::start(&form("   ", "", &[]));
    assert_eq!(flow.phase(), CreatePhase::Finished);
    assert_eq!(flash(step), (true, "Project name is required.".to_string()));
}

#[test]
fn create_invalid_slug_is_refused_at_once() {
    let (_, step) = CreateFlow::start(&form("Demo", "-bad", &[]));
    assert_eq!(flash(step), (true, "slug must not start or end with a hyphen".to_string()));
}

#[test]
fn create_checks_the_slug_from_the_name() {
    let (flow, step) = CreateFlow::start(&form("My Project", "", &[]));
    assert_eq!(flow.phase(), CreatePhase::CheckSlug);
    match step {
        CreateStep::CheckSlug { slug } => assert_eq!(slug, "my-project"),
        _ => panic!("expected a slug check"),
    }
}

#[test]
fn create_taken_slug_ends_with_error() {
    let (flow, _) = CreateFlow::start(&form("Demo", "demo", &["acme/api"]));
    let (flow, step) = flow.step(CreateEvent::SlugTaken(true));
    assert_eq!(flow.phase(), CreatePhase::Finished);
    assert_eq!(flash(step), (true, "Slug already exists: demo".to_string()));
}

#[test]
fn create_unknown_repo_ends_with_error() {
    let (flow, _) = CreateFlow::start(&form("Demo", "demo", &["acme/api"]));
    let (flow, step) = flow.step(CreateEvent::SlugTaken(false));
    match step {
        CreateStep::FindRepo { spec } => assert_eq!(spec, "acme/api"),
        _ => panic!("expected a lookup"),
    }
    let (_, step) = flow.step(CreateEvent::Found(Ok(None)));
    assert_eq!(flash(step), (true, "Unknown GitHub repo: acme/api".to_string()));
}

#[test]
fn create_lookup_error_is_the_flash() {
    let (flow, _) = CreateFlow::start(&form("Demo", "demo", &["acme/api"]));
    let (flow, _) = flow.step(CreateEvent::SlugTaken(false));
    let (_, step) = flow.step(CreateEvent::Found(Err("GitHub is down".to_string())));
    assert_eq!(flash(step), (true, "GitHub is down".to_string()));
}

#[test]
fn create_with_members_saves_then_syncs() {
    let (flow, _) = CreateFlow::start(&form("Demo", "demo", &["acme/api", "acme/web"]));
    let (flow, _) = flow.step(CreateEvent::SlugTaken(false));
    let (flow, step) = flow.step(CreateEvent::Found(Ok(Some(gh("acme/api")))));
    match step {
        CreateStep::FindRepo { spec } => assert_eq!(spec, "acme/web"),
        _ => panic!("expected the second lookup"),
    }
    let (flow, step) = flow.step(CreateEvent::Found(Ok(Some(gh("acme/web")))));
    match step {
        CreateStep::Save { name, slug, repos } => {
            assert_eq!(name, "Demo");
            assert_eq!(slug, "demo");
            let names: Vec<String> = repos.iter().map(|r| r.full_name.clone()).collect();
            assert_eq!(names, vec!["acme/api".to_string(), "acme/web".to_string()]);
            assert_eq!(repos[0].owner, "acme");
            assert_eq!(repos[1].name, "web");
        }
        _ => panic!("expected a save"),
    }
    let (flow, step) = flow.step(CreateEvent::Saved(Ok(())));
    match step {
        CreateStep::SyncMembers { slug } => assert_eq!(slug, "demo"),
        _ => panic!("expected a sync"),
    }
    let (flow, step) = flow.step(CreateEvent::Synced);
    assert_eq!(flow.phase(), CreatePhase::Finished);
    assert_eq!(flash(step), (false, "Created project demo".to_string()));
}

#[test]
fn create_without_members_skips_sync() {
    let (flow, _) = CreateFlow::start(&form("Demo", "", &[]));
    let (flow, step) = flow.step(CreateEvent::SlugTaken(false));
    match step {
        CreateStep::Save { repos, .. } => assert!(repos.is_empty()),
        _ => panic!("expected a save"),
    }
    let (_, step) = flow.step(CreateEvent::Saved(Ok(())));
    assert_eq!(flash(step), (false, "Created project demo".to_string()));
}

#[test]
fn create_store_failure_is_the_flash() {
    let (flow, _) = CreateFlow::start(&form("Demo", "demo", &[]));
    let (flow, _) = flow.step(CreateEvent::SlugTaken(false));
    let (_, step) = flow.step(CreateEvent::Saved(Err("disk full".to_string())));
    assert_eq!(flash(step), (true, "disk full".to_string()));
}

#[test]
fn create_flow_accepts_only_the_awaited_answer() {
    let (flow, _) = CreateFlow::start(&form("Demo", "demo", &[]));
    assert!(flow.accepts(&CreateEvent::SlugTaken(false)));
    assert!(!flow.accepts(&CreateEvent::Synced));
    assert!(!flow.accepts(&CreateEvent::Saved(Ok(()))));
}
