use anchor::config::{resolve_github_endpoints, Config, ConfigError, EnvVars};

fn map(pairs: &[(&str, &str)]) -> EnvVars {
    let mut m = EnvVars::new();
    for (k, v) in pairs {
        m.insert((*k).to_string(), (*v).to_string());
    }
    m
}

#[test]
fn config_requires_token() {
    let err = Config::from_env_map(&map(&[("GITHUB_USER", "x")])).err().unwrap();
    assert!(err.message().contains("GITHUB_TOKEN"));
}

#[test]
fn config_requires_user() {
    let err = Config::from_env_map(&map(&[("GITHUB_TOKEN", "t")])).err().unwrap();
    assert!(err.message().contains("GITHUB_USER"));
}

#[test]
fn config_defaults() {
    let cfg = Config::from_env_map(&map(&[
        ("GITHUB_TOKEN", "t"),
        ("GITHUB_USER", "u"),
        ("HOME", "/tmp/agent"),
    ]))
    .unwrap();
    assert_eq!(cfg.projects_dir, "/tmp/agent/projects");
    assert_eq!(cfg.tmux_session, "agents");
    assert_eq!(cfg.cursor_cmd, "cursor-agent");
    assert_eq!(cfg.opencode_cmd, "opencode");
    assert_eq!(cfg.port, 8080);
    assert_eq!(cfg.log_level, "info");
    assert_eq!(cfg.github_api_url, "https://api.github.com");
    assert_eq!(cfg.github_host, "github.com");
}

#[test]
fn config_ghes_defaults_api_from_host() {
    let cfg = Config::from_env_map(&map(&[
        ("GITHUB_TOKEN", "t"),
        ("GITHUB_USER", "u"),
        ("GITHUB_HOST", "github.example.com"),
        ("HOME", "/tmp"),
    ]))
    .unwrap();
    assert_eq!(cfg.github_host, "github.example.com");
    assert_eq!(cfg.github_api_url, "https://github.example.com/api/v3");
}

#[test]
fn config_ghes_explicit_api_url() {
    let cfg = Config::from_env_map(&map(&[
        ("GITHUB_TOKEN", "t"),
        ("GITHUB_USER", "u"),
        ("GITHUB_HOST", "github.example.com"),
        ("GITHUB_API_URL", "https://github.example.com/api/v3/"),
        ("HOME", "/tmp"),
    ]))
    .unwrap();
    assert_eq!(cfg.github_api_url, "https://github.example.com/api/v3");
}

#[test]
fn config_rejects_bad_host() {
    let err = Config::from_env_map(&map(&[
        ("GITHUB_TOKEN", "t"),
        ("GITHUB_USER", "u"),
        ("GITHUB_HOST", "https://github.example.com"),
        ("HOME", "/tmp"),
    ])).err().unwrap();
    assert!(err.message().contains("GITHUB_HOST"));
}

#[test]
fn config_debug_redacts_token() {
    let cfg = Config::from_env_map(&map(&[
        ("GITHUB_TOKEN", "super-secret"),
        ("GITHUB_USER", "u"),
        ("HOME", "/tmp"),
    ]))
    .unwrap();
    let dbg = cfg.debug_text();
    assert!(!dbg.contains("super-secret"));
    assert!(dbg.contains("[redacted]"));
}

#[test]
fn config_debug_shows_settings() {
    let cfg = Config::from_env_map(&map(&[("GITHUB_TOKEN", "t"), ("GITHUB_USER", "u"), ("HOME", "/h")]))
        .unwrap();
    assert_eq!(
        cfg.debug_text(),
        "Config { github_token: \"[redacted]\", github_user: \"u\", github_api_url: \"https://api.github.com\", github_host: \"github.com\", projects_dir: \"/h/projects\", tmux_session: \"agents\", cursor_cmd: \"cursor-agent\", opencode_cmd: \"opencode\", port: 8080, log_level: \"info\" }"
    );
}

#[test]
fn empty_required_values_count_as_missing() {
    let err = Config::from_env_map(&map(&[("GITHUB_TOKEN", ""), ("GITHUB_USER", "u")])).err().unwrap();
    assert!(matches!(err, ConfigError::Missing("GITHUB_TOKEN")));
    assert_eq!(err.message(), "missing required environment variable: GITHUB_TOKEN");
}

#[test]
fn later_values_replace_earlier_ones() {
    let cfg = Config::from_env_map(&map(&[
        ("GITHUB_TOKEN", "t"),
        ("GITHUB_USER", "u"),
        ("HOME", "/a"),
        ("HOME", "/b"),
    ]))
    .unwrap();
    assert_eq!(cfg.projects_dir, "/b/projects");
}

#[test]
fn port_must_be_a_u16() {
    let err = Config::from_env_map(&map(&[("GITHUB_TOKEN", "t"), ("GITHUB_USER", "u"), ("PORT", "70000")])).err().unwrap();
    assert_eq!(err.message(), "invalid value for PORT: expected u16, got 70000");
    let cfg = Config::from_env_map(&map(&[("GITHUB_TOKEN", "t"), ("GITHUB_USER", "u"), ("PORT", "3000")]))
        .unwrap();
    assert_eq!(cfg.port, 3000);
}

#[test]
fn endpoints_reject_bad_api_urls() {
    let err = resolve_github_endpoints(&map(&[("GITHUB_API_URL", "  / ")])).err().unwrap();
    assert_eq!(err.message(), "invalid value for GITHUB_API_URL: must not be empty when set");
    let err = resolve_github_endpoints(&map(&[("GITHUB_API_URL", "ftp://x")])).err().unwrap();
    assert_eq!(err.message(), "invalid value for GITHUB_API_URL: expected http(s) URL, got ftp://x");
    let (api, host) = resolve_github_endpoints(&map(&[("GITHUB_HOST", " ghe.local/ ")])).unwrap();
    assert_eq!(api, "https://ghe.local/api/v3");
    assert_eq!(host, "ghe.local");
}

#[test]
fn login_settings_and_database_path() {
    let cfg = Config::from_env_map(&map(&[
        ("GITHUB_TOKEN", "t"),
        ("GITHUB_USER", "u"),
        ("HOME", "/h"),
        ("ANCHOR_PASSWORD", "pw"),
        ("ANCHOR_COOKIE_SECURE", "TRUE"),
        ("DATABASE_URL", "sqlite:/data/a.db"),
    ]))
    .unwrap();
    assert_eq!(cfg.anchor_user, "admin");
    assert_eq!(cfg.anchor_password, "pw");
    assert_eq!(cfg.session_secret, b"pw".to_vec());
    assert!(cfg.cookie_secure);
    assert_eq!(cfg.database_path, "/data/a.db");
    let cfg = Config::from_env_map(&map(&[("GITHUB_TOKEN", "t"), ("GITHUB_USER", "u"), ("HOME", "/h")]))
        .unwrap();
    assert_eq!(cfg.database_path, "/h/projects/anchor.db");
    assert!(!cfg.cookie_secure);
}
