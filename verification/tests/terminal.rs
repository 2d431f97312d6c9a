use anchor::error::AppError;
use anchor::terminal::{
    attach_plan, default_agent, js_literal, normalize_agent, pane_index, resize_request,
    terminal_precheck, terminal_view, TerminalQuery,
};

#[test]
fn agent_normalize() {
    assert_eq!(normalize_agent("cursor").unwrap(), "cursor");
    assert_eq!(normalize_agent("opencode").unwrap(), "opencode");
    assert!(normalize_agent("emacs").is_err());
}

#[test]
fn pane_map() {
    assert_eq!(pane_index("cursor"), "0");
    assert_eq!(pane_index("opencode"), "1");
}

#[test]
fn unknown_agent_is_not_found() {
    match normalize_agent("emacs") {
        Err(AppError::NotFound(m)) => assert_eq!(m, "unknown agent pane: emacs (use cursor or opencode)"),
        other => panic!("unexpected {other:?}"),
    }
    assert_eq!(default_agent(), "cursor");
    assert_eq!(TerminalQuery::default().agent, "cursor");
}

#[test]
fn attach_never_passes_the_token() {
    let plan = attach_plan("agents", "demo");
    assert_eq!(plan.program, "tmux");
    assert_eq!(plan.args, vec!["attach-session".to_string(), "-t".to_string(), "agents:demo".to_string()]);
    assert_eq!(plan.env_remove, vec!["GITHUB_TOKEN".to_string()]);
    assert!(plan.env_set.iter().all(|(k, _)| k != "GITHUB_TOKEN"));
    assert!(plan.env_set.contains(&("TERM".to_string(), "xterm-256color".to_string())));
}

#[test]
fn resize_needs_both_nonzero() {
    assert_eq!(resize_request(Some(120), Some(40)), Some((120, 40)));
    assert_eq!(resize_request(Some(0), Some(40)), None);
    assert_eq!(resize_request(None, Some(40)), None);
}

#[test]
fn precheck_messages() {
    match terminal_precheck("demo", false, false) {
        Err(AppError::NotFound(m)) => assert_eq!(m, "project not found: demo"),
        other => panic!("unexpected {other:?}"),
    }
    match terminal_precheck("demo", true, false) {
        Err(AppError::NotFound(m)) => assert_eq!(m, "tmux window missing for demo — sync the project first"),
        other => panic!("unexpected {other:?}"),
    }
    assert!(terminal_precheck("demo", true, true).is_ok());
}

#[test]
fn terminal_page_data() {
    assert_eq!(js_literal("a\"b"), "\"a\\\"b\"");
    let v = terminal_view("demo", "opencode", "agents", false, true);
    assert!(!v.window_exists);
    assert_eq!(v.repo_js, "\"demo\"");
    assert!(v.render().contains("is not on disk"));
    let v = terminal_view("demo", "opencode", "agents", true, true);
    assert!(v.window_exists);
    let html = v.render();
    assert!(html.contains("const repo = \"demo\";"));
    assert!(html.contains("/ws/terminal/"));
}

#[test]
fn js_literal_escapes_controls_quotes_and_backslashes() {
    assert_eq!(js_literal("a\nb\u{1}\\\t\u{8}é"), "\"a\\nb\\u0001\\\\\\t\\bé\"");
    assert_eq!(js_literal(""), "\"\"");
}
