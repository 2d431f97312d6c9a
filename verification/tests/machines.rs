use anchor::git::{auth_env, bare_dir, parse_left_right, worktree_dir, WorktreeAction};
use anchor::pane_zoom::{PaneZoom, ZoomAction};
use anchor::shell::CmdOutput;
use anchor::sync_plan::{SyncAction, SyncEvent, SyncMachine};
use anchor::tmux::{session_has_github_token, window_listed, TmuxAction, TmuxMachine};

fn out(status: i32, stdout: &str) -> CmdOutput {
    CmdOutput { status, stdout: stdout.into(), stderr: String::new() }
}

/// Drives a tmux ensure against a scripted tmux, recording every command.
fn run_tmux(m: TmuxMachine, a: TmuxAction, answer: impl Fn(&[String]) -> CmdOutput) -> (Vec<Vec<String>>, TmuxAction) {
    let mut log = Vec::new();
    let (mut m, mut a) = (m, a);
    loop {
        match a {
            TmuxAction::Tmux { args } => {
                let o = answer(&args);
                log.push(args);
                let (m2, a2) = m.step(Ok(o));
                m = m2;
                a = a2;
            }
            done => return (log, done),
        }
    }
}

#[test]
fn tmux_ensure_creates_session_and_launches_idle_panes() {
    let (m, a) = TmuxMachine::start("agents", "demo", "/p/demo/cursor", "/p/demo/opencode", "cursor-agent", "opencode", &vec![]);
    let (log, done) = run_tmux(m, a, |args| match args[0].as_str() {
        "has-session" => out(1, ""),
        "list-panes" if args.iter().any(|x| x == "#{pane_id}") => out(0, "%1\n"),
        "list-panes" if args.iter().any(|x| x == "#{pane_dead}") => out(0, "0\n"),
        "list-panes" => out(0, "bash\n"),
        _ => out(0, ""),
    });
    match done {
        TmuxAction::Finished { result } => {
            assert!(result.created_window);
            assert!(result.panes_ensured);
            assert_eq!(result.session, "agents");
        }
        _ => panic!("ensure did not finish"),
    }
    let subs: Vec<&str> = log.iter().map(|a| a[0].as_str()).collect();
    assert_eq!(subs[0], "has-session");
    assert_eq!(subs[1], "new-session");
    assert!(!subs.contains(&"kill-session") && !subs.contains(&"kill-pane") && !subs.contains(&"respawn-pane"));
    let sends: Vec<&Vec<String>> = log.iter().filter(|a| a[0] == "send-keys").collect();
    assert_eq!(sends.len(), 2);
    assert_eq!(sends[0][3], "cd '/p/demo/cursor' && exec cursor-agent");
    for (i, a) in log.iter().enumerate() {
        if a[0] == "send-keys" {
            assert_eq!(log[i - 1][0], "set-environment");
            assert!(log[i - 1].contains(&"GITHUB_TOKEN".to_string()));
        }
    }
}

#[test]
fn tmux_ensure_leaves_busy_panes_alone() {
    let (m, a) = TmuxMachine::start("agents", "demo", "/c", "/o", "c", "o", &vec![]);
    let (log, done) = run_tmux(m, a, |args| match args[0].as_str() {
        "list-windows" => out(0, "other\ndemo\n"),
        "list-panes" if args.iter().any(|x| x == "#{pane_id}") => out(0, "%1\n%2\n"),
        "list-panes" if args.iter().any(|x| x == "#{pane_dead}") => out(0, "0\n"),
        "list-panes" => out(0, "node\n"),
        _ => out(0, ""),
    });
    assert!(matches!(done, TmuxAction::Finished { result } if !result.created_window));
    assert!(log.iter().all(|a| a[0] != "send-keys" && a[0] != "split-window" && a[0] != "new-window"));
}

#[test]
fn tmux_ensure_renames_legacy_window() {
    let legacy = vec!["old-demo".to_string()];
    let (m, a) = TmuxMachine::start("agents", "demo", "/c", "/o", "c", "o", &legacy);
    let (log, _) = run_tmux(m, a, |args| match args[0].as_str() {
        "list-windows" => out(0, "old-demo\n"),
        "list-panes" if args.iter().any(|x| x == "#{pane_id}") => out(0, "%1\n%2\n"),
        "list-panes" => out(0, "1\n"),
        _ => out(0, ""),
    });
    let rename = log.iter().find(|a| a[0] == "rename-window").expect("rename");
    assert_eq!(rename[2], "agents:old-demo");
    assert_eq!(rename[3], "demo");
    assert!(log.iter().all(|a| a[0] != "new-window"));
}

#[test]
fn tmux_ensure_reports_failures() {
    let (m, a) = TmuxMachine::start("agents", "demo", "/c", "/o", "c", "o", &vec![]);
    let (_, done) = run_tmux(m, a, |args| match args[0].as_str() {
        "has-session" => out(1, ""),
        "new-session" => CmdOutput { status: 1, stdout: String::new(), stderr: " no server \n".into() },
        _ => out(0, ""),
    });
    match done {
        TmuxAction::Failed { message } => assert_eq!(message, "tmux new-session failed (exit 1): no server"),
        _ => panic!("expected failure"),
    }
}

#[test]
fn tmux_output_readers() {
    assert!(window_listed(&out(0, "a\n demo \n"), "demo"));
    assert!(!window_listed(&out(1, "demo\n"), "demo"));
    assert!(session_has_github_token(&out(0, "A=1\nGITHUB_TOKEN=x\n")));
    assert!(session_has_github_token(&out(0, "-GITHUB_TOKEN\n GITHUB_TOKEN \n")));
    assert!(!session_has_github_token(&out(0, "-GITHUB_TOKEN\nPATH=/bin\n")));
    assert!(!session_has_github_token(&out(1, "GITHUB_TOKEN=x\n")));
}

#[test]
fn zoom_skips_resize_when_zoomed() {
    let (m, a) = PaneZoom::start("agents", "demo", "1");
    match &a {
        ZoomAction::Tmux { args } => assert_eq!(args, &vec!["select-pane".to_string(), "-t".into(), "agents:demo.1".into()]),
        _ => panic!(),
    }
    let (m, a) = m.step(Ok(out(0, "")));
    assert!(matches!(a, ZoomAction::Tmux { ref args } if args[0] == "display-message"));
    let (_, a) = m.step(Ok(out(0, "1\n")));
    assert!(matches!(a, ZoomAction::Done));
}

#[test]
fn zoom_resizes_unzoomed_window_and_reports_errors() {
    let (m, _) = PaneZoom::start("s", "w", "0");
    let (m, _) = m.step(Ok(out(0, "")));
    let (m, a) = m.step(Ok(out(0, "0\n")));
    assert!(matches!(a, ZoomAction::Tmux { ref args } if args == &vec!["resize-pane".to_string(), "-t".into(), "s:w.0".into(), "-Z".into()]));
    let (_, a) = m.step(Ok(out(0, "")));
    assert!(matches!(a, ZoomAction::Done));
    let (m, _) = PaneZoom::start("s", "w", "0");
    let (_, a) = m.step(Ok(CmdOutput { status: 1, stdout: String::new(), stderr: "can't find pane".into() }));
    match a {
        ZoomAction::Failed { message } => assert_eq!(message, "tmux select-pane failed (exit 1): can't find pane"),
        _ => panic!(),
    }
}

/// Drives a sync against a scripted file system and git.
fn run_sync(projects: &str, exists: impl Fn(&str) -> bool, git: impl Fn(&[String], &Option<String>) -> CmdOutput) -> (Vec<Vec<String>>, SyncAction) {
    let (mut m, mut a) = SyncMachine::start(projects, "demo", "https://github.com/alice/demo.git", "main");
    let mut log = Vec::new();
    loop {
        let e = match &a {
            SyncAction::CheckExists { path } => SyncEvent::Exists(exists(path)),
            SyncAction::CreateDirAll { .. } => SyncEvent::DirCreated(Ok(())),
            SyncAction::Git { args, cwd, .. } => {
                log.push(args.clone());
                SyncEvent::Git(Ok(git(args, cwd)))
            }
            _ => return (log, a),
        };
        let (m2, a2) = m.step(e);
        m = m2;
        a = a2;
    }
}

#[test]
fn machine_clones_and_adds_both_worktrees() {
    let (log, done) = run_sync("/p", |_| false, |_, _| out(0, ""));
    match done {
        SyncAction::Finished { created, fetched, results } => {
            assert!(created && fetched);
            assert_eq!(results.len(), 2);
            assert_eq!(results[0].agent, "cursor");
            assert_eq!(results[1].agent, "opencode");
            assert!(results.iter().all(|r| r.action == WorktreeAction::Created));
        }
        _ => panic!("sync did not finish"),
    }
    assert_eq!(log[0], vec!["clone".to_string(), "--bare".into(), "https://github.com/alice/demo.git".into(), "/p/demo/.bare".into()]);
    assert!(log.iter().any(|a| a[0] == "worktree" && a[2] == "/p/demo/cursor" && a[3] == "agent/cursor"));
}

#[test]
fn machine_skips_dirty_worktree() {
    let (log, done) = run_sync("/p", |_| true, |args, cwd| match args[0].as_str() {
        "status" if cwd.as_deref() == Some("/p/demo/cursor") => out(0, " M dirty.txt\n"),
        "rev-list" => out(0, "0\t1\n"),
        "rev-parse" if args[1] == "HEAD" => out(0, "abc\n"),
        _ => out(0, ""),
    });
    match done {
        SyncAction::Finished { created, results, .. } => {
            assert!(!created);
            assert_eq!(results[0].action, WorktreeAction::SkippedDirty);
            assert!(results[0].dirty);
            assert_eq!(results[1].action, WorktreeAction::AlreadyUpToDate);
        }
        _ => panic!("sync did not finish"),
    }
    let merges: Vec<_> = log.iter().filter(|a| a[0] == "merge").collect();
    assert_eq!(merges.len(), 1);
}

#[test]
fn machine_skips_diverged_worktrees() {
    let (log, done) = run_sync("/p", |_| true, |args, _| match args[0].as_str() {
        "rev-list" => out(0, "2\t3\n"),
        _ => out(0, ""),
    });
    match done {
        SyncAction::Finished { results, .. } => {
            assert!(results.iter().all(|r| r.action == WorktreeAction::SkippedDiverged && r.diverged));
        }
        _ => panic!("sync did not finish"),
    }
    assert!(log.iter().all(|a| a[0] != "merge"));
}

#[test]
fn sync_fast_forwards_and_reports_clone_failure() {
    let (_, done) = run_sync("/p", |_| true, |args, _| match args[0].as_str() {
        "rev-list" => out(0, "0\t4\n"),
        "rev-parse" if args[1] == "HEAD" => out(0, "x\n"),
        _ => out(0, ""),
    });
    assert!(matches!(done, SyncAction::Finished { .. }));
    let (_, done) = run_sync("/p", |_| false, |args, _| match args[0].as_str() {
        "clone" => CmdOutput { status: 128, stdout: String::new(), stderr: "fatal: auth\n".into() },
        _ => out(0, ""),
    });
    match done {
        SyncAction::Failed { message } => assert_eq!(message, "git clone --bare failed (exit 128): fatal: auth"),
        _ => panic!("expected failure"),
    }
}

#[test]
fn git_helpers() {
    assert_eq!(bare_dir("/p", "demo"), "/p/demo/.bare");
    assert_eq!(worktree_dir("/p/", "demo", "opencode"), "/p/demo/opencode");
    assert_eq!(parse_left_right("3\t5\n"), Ok((3, 5)));
    assert!(parse_left_right("x").is_err());
    let env = auth_env("tok");
    assert!(env.iter().any(|(_, v)| v.contains("tok")));
}

#[test]
fn member_sync_uses_the_project_workspace_layout() {
    let (mut m, mut a) = SyncMachine::start_member("/p", "platform", "alice__api", "https://github.com/alice/api.git", "main");
    let mut log = Vec::new();
    let mut checked = Vec::new();
    loop {
        let e = match &a {
            SyncAction::CheckExists { path } => {
                checked.push(path.clone());
                SyncEvent::Exists(false)
            }
            SyncAction::CreateDirAll { path } => {
                assert_eq!(path, "/p/platform");
                SyncEvent::DirCreated(Ok(()))
            }
            SyncAction::Git { args, .. } => {
                log.push(args.clone());
                SyncEvent::Git(Ok(out(0, "")))
            }
            _ => break,
        };
        let (m2, a2) = m.step(e);
        m = m2;
        a = a2;
    }
    assert_eq!(checked, vec!["/p/platform/.bares/alice__api", "/p/platform/cursor/alice__api", "/p/platform/opencode/alice__api"]);
    assert_eq!(log[0][3], "/p/platform/.bares/alice__api");
    assert!(log.iter().any(|a| a[0] == "worktree" && a[2] == "/p/platform/opencode/alice__api"));
    assert_eq!(anchor::git::member_key("alice", "api"), "alice__api");
    assert_eq!(anchor::git::agent_root("/p/platform", "cursor"), "/p/platform/cursor");
}
