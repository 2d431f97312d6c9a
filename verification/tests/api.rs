use anchor::api::{api_index_html, api_project_status, default_branch_or_main, not_on_disk};
use anchor::error::AppError;
use anchor::github::Repo;
use anchor::order::{lex_less, sort_names};

#[test]
fn index_lists_projects_or_hint() {
    let html = api_index_html("/p", &vec![]);
    assert!(html.contains("projects under /p</p>"));
    assert!(html.contains("<li class=\"meta\">no projects yet — POST /api/projects/{{repo}}/sync</li>"));
    let html = api_index_html("/p", &vec!["a".into(), "b".into()]);
    assert!(html.contains(
        "<li><a href=\"/api/projects/a/status\">a</a></li>\n<li><a href=\"/api/projects/b/status\">b</a></li>\n</ul>"
    ));
    assert!(html.starts_with("<!DOCTYPE html>"));
    assert!(html.ends_with("</body></html>"));
}

#[test]
fn status_defaults() {
    let s = api_project_status("demo", vec![], true);
    assert!(s.on_disk && s.tmux_window_exists && s.last_synced.is_none());
    assert_eq!(default_branch_or_main(None), "main");
    let r = Repo { name: "x".into(), full_name: "a/x".into(), private: false, default_branch: "trunk".into(), clone_url: String::new() };
    assert_eq!(default_branch_or_main(Some(&r)), "trunk");
    match not_on_disk("x") {
        AppError::NotFound(m) => assert_eq!(m, "project not on disk: x"),
        other => panic!("unexpected {other:?}"),
    }
}

#[test]
fn names_sort_like_strings() {
    let v = vec!["b".to_string(), "a".to_string(), "ab".to_string(), "B".to_string()];
    let mut expected = v.clone();
    expected.sort();
    assert_eq!(sort_names(v), expected);
    assert!(lex_less("a", "ab"));
    assert!(!lex_less("ab", "ab"));
    assert!(lex_less("Z", "a"));
}
