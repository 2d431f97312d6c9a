use anchor::github::{api_error_message, GitHubClient, Repo, RepoList, RepoPaging, MAX_PAGES};

#[test]
fn user_repos_url_targets_authenticated_endpoint() {
    let gh = GitHubClient::new("secret-token".into(), "alice".into(), "https://api.github.com".into());
    let url = gh.user_repos_page_url(1);
    assert!(url.starts_with("https://api.github.com/user/repos?"));
    assert!(url.contains("affiliation=owner,collaborator,organization_member"));
    assert!(!url.contains("/users/"));
    assert!(!url.contains("secret-token"));
}

#[test]
fn ghes_api_base_in_list_url() {
    let gh = GitHubClient::new("t".into(), "alice".into(), "https://github.example.com/api/v3/".into());
    assert_eq!(gh.api_base(), "https://github.example.com/api/v3");
    let url = gh.user_repos_page_url(2);
    assert!(url.starts_with("https://github.example.com/api/v3/user/repos?"));
    assert!(url.contains("page=2"));
}

#[test]
fn client_debug_redacts_token() {
    let gh = GitHubClient::new("super-secret".into(), "u".into(), "https://api.github.com".into());
    let dbg = gh.debug_text();
    assert!(!dbg.contains("super-secret"));
    assert!(dbg.contains("[redacted]"));
}

#[test]
fn page_url_is_exact() {
    let gh = GitHubClient::new("t".into(), "alice".into(), "https://api.github.com//".into());
    assert_eq!(
        gh.user_repos_page_url(7),
        "https://api.github.com/user/repos?per_page=100&page=7&affiliation=owner,collaborator,organization_member&sort=full_name"
    );
    assert_eq!(gh.user(), "alice");
}

#[test]
fn headers_carry_bearer_token() {
    let gh = GitHubClient::new("tok".into(), "u".into(), "https://api.github.com".into());
    let h = gh.request_headers();
    assert_eq!(h[0], ("Authorization".to_string(), "Bearer tok".to_string()));
    assert_eq!(h[1].1, "application/vnd.github+json");
    assert_eq!(h[2], ("X-GitHub-Api-Version".to_string(), "2022-11-28".to_string()));
}

#[test]
fn api_errors_get_hints() {
    assert_eq!(api_error_message(401, "401 Unauthorized"), "GitHub API error: 401 Unauthorized — invalid or expired GITHUB_TOKEN");
    assert_eq!(api_error_message(500, "500 Internal Server Error"), "GitHub API error: 500 Internal Server Error");
}

fn repo(i: usize) -> Repo {
    Repo {
        name: format!("r{i}"),
        full_name: format!("alice/r{i}"),
        private: false,
        default_branch: "main".into(),
        clone_url: String::new(),
    }
}

#[test]
fn paging_stops_on_short_page() {
    let mut p = RepoPaging::new();
    assert_eq!(p.page(), 1);
    assert!(p.accept((0..100).map(repo).collect()));
    assert_eq!(p.page(), 2);
    assert!(!p.accept((0..3).map(repo).collect()));
    assert_eq!(p.page(), 2);
    let list = p.finish(42);
    assert_eq!(list.repos.len(), 103);
    assert_eq!(list.cached_at, 42);
    assert_eq!(list.find("r50").unwrap().full_name, "alice/r50");
    assert!(list.find("nope").is_none());
}

#[test]
fn find_prefers_owner_name_and_needs_a_unique_short_name() {
    let mut p = RepoPaging::new();
    assert!(!p.accept(vec![repo(1), repo(2), repo(2)]));
    let list = p.finish(0);
    assert_eq!(list.find("alice/r2").unwrap().full_name, "alice/r2");
    assert_eq!(list.find("r1").unwrap().full_name, "alice/r1");
    assert!(list.find("r2").is_none());
    assert!(list.find("bob/r1").is_none());
}

#[test]
fn paging_never_passes_max_pages() {
    let mut p = RepoPaging::new();
    let mut pages = 1;
    while p.accept((0..100).map(repo).collect()) {
        pages += 1;
    }
    assert_eq!(pages, MAX_PAGES);
    assert_eq!(p.page(), MAX_PAGES);
}

#[test]
fn cache_holds_listing() {
    let mut gh = GitHubClient::new("t".into(), "u".into(), "https://api.github.com".into());
    assert!(gh.cached_repos().is_none());
    gh.store_listing(RepoList { repos: vec![repo(1)], cached_at: 1 });
    assert_eq!(gh.cached_repos().unwrap().repos.len(), 1);
}

#[test]
fn find_resolves_owner_name_and_unique_short_name() {
    let r = Repo {
        name: "anchor".into(),
        full_name: "alice/anchor".into(),
        private: false,
        default_branch: "main".into(),
        clone_url: String::new(),
    };
    let list = RepoList { repos: vec![r], cached_at: 0 };
    assert_eq!(list.find("alice/anchor").unwrap().full_name, "alice/anchor");
    assert_eq!(list.find("anchor").unwrap().full_name, "alice/anchor");
}
