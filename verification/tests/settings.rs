use anchor::config::{Config, EnvVars};
use anchor::settings::{effective_cmds, nonempty, AgentSettings, SettingsForm, SettingsJson};
use anchor::string_map::StringMap;

#[test]
fn nonempty_filters() {
    assert!(nonempty("  ".into()).is_none());
    assert_eq!(nonempty(" x ".into()).as_deref(), Some("x"));
}

fn save(store: &mut StringMap, s: &AgentSettings) {
    for (k, v) in s.store_writes() {
        store.insert(k, v);
    }
}

#[test]
fn settings_roundtrip() {
    let mut store = StringMap::new();
    let mut s = AgentSettings::default();
    s.cursor_cmd = Some("cursor-agent".into());
    s.cursor_args = "--model gpt".into();
    s.opencode_enabled = false;
    save(&mut store, &s);
    let loaded = AgentSettings::from_store(&store);
    assert_eq!(loaded.cursor_cmd.as_deref(), Some("cursor-agent"));
    assert_eq!(loaded.cursor_args, "--model gpt");
    assert!(!loaded.opencode_enabled);
    assert_eq!(loaded.resolve_cmd("cursor", "fallback"), "cursor-agent --model gpt");
    assert_eq!(loaded.resolve_cmd("opencode", "opencode"), "bash");
}

#[test]
fn unsaved_store_gives_defaults() {
    let s = AgentSettings::from_store(&StringMap::new());
    assert!(s.cursor_cmd.is_none());
    assert!(s.cursor_enabled && s.opencode_enabled);
    assert_eq!(s.resolve_cmd("cursor", "cursor-agent"), "cursor-agent");
    assert_eq!(s.resolve_cmd("other", "x"), "x");
}

#[test]
fn stored_flags_accept_true_in_any_case() {
    let mut store = StringMap::new();
    store.insert("cursor_enabled".into(), "TrUe".into());
    store.insert("opencode_enabled".into(), "no".into());
    let s = AgentSettings::from_store(&store);
    assert!(s.cursor_enabled);
    assert!(!s.opencode_enabled);
}

#[test]
fn saving_keeps_earlier_last_project_when_none() {
    let mut store = StringMap::new();
    store.insert("last_opened_project".into(), "demo".into());
    let s = AgentSettings::default();
    let writes = s.store_writes();
    assert_eq!(writes.len(), 7);
    save(&mut store, &s);
    let l = AgentSettings::from_store(&store);
    assert_eq!(l.last_opened_project.as_deref(), Some("demo"));
    assert_eq!(l.cursor_cmd.as_deref(), Some(""));
    assert_eq!(l.resolve_cmd("cursor", "env-cursor"), "env-cursor");
}

#[test]
fn resolve_trims_arguments() {
    let mut s = AgentSettings::default();
    s.opencode_cmd = Some(String::new());
    s.opencode_args = "  --fast  ".into();
    assert_eq!(s.resolve_cmd("opencode", "opencode"), "opencode --fast");
    s.opencode_args = "   ".into();
    assert_eq!(s.resolve_cmd("opencode", "opencode"), "opencode");
}

#[test]
fn form_and_json_updates() {
    let form = SettingsForm {
        cursor_cmd: "  my-cursor ".into(),
        opencode_cmd: "   ".into(),
        cursor_args: "-a".into(),
        opencode_args: String::new(),
        cursor_enabled: Some("on".into()),
        opencode_enabled: None,
        install_notes: "notes".into(),
    };
    let mut s = AgentSettings::from_form(form, Some("demo".into()));
    assert_eq!(s.cursor_cmd.as_deref(), Some("my-cursor"));
    assert!(s.opencode_cmd.is_none());
    assert!(s.cursor_enabled);
    assert!(!s.opencode_enabled);
    assert_eq!(s.last_opened_project.as_deref(), Some("demo"));
    s.apply_json(SettingsJson {
        cursor_cmd: Some(" ".into()),
        opencode_cmd: None,
        cursor_args: None,
        opencode_args: Some("--y".into()),
        cursor_enabled: Some(false),
        opencode_enabled: None,
        install_notes: None,
        last_opened_project: Some(" other ".into()),
    });
    assert!(s.cursor_cmd.is_none());
    assert_eq!(s.cursor_args, "-a");
    assert_eq!(s.opencode_args, "--y");
    assert!(!s.cursor_enabled);
    assert_eq!(s.last_opened_project.as_deref(), Some("other"));
    assert_eq!(s.install_notes, "notes");
}

#[test]
fn effective_commands_fall_back_to_defaults() {
    let mut m = EnvVars::new();
    m.insert("GITHUB_TOKEN".into(), "t".into());
    m.insert("GITHUB_USER".into(), "u".into());
    m.insert("CURSOR_CMD".into(), "env-cursor".into());
    let cfg = Config::from_env_map(&m).unwrap();
    assert_eq!(effective_cmds(None, &cfg), ("env-cursor".to_string(), "opencode".to_string()));
    let mut s = AgentSettings::default();
    s.cursor_enabled = false;
    assert_eq!(effective_cmds(Some(s), &cfg), ("bash".to_string(), "opencode".to_string()));
}
