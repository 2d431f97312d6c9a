//! Process configuration, read from a set of environment variables.

use vstd::prelude::*;

use crate::github::{debug_str, str_debug_spec};
use crate::string_map::{lookup, StringMap};
use crate::text::{
    contains_char, contains_seq, contains_str, eq_ignore_ascii_case, eq_ignore_case, owned,
    parse_unsigned, parse_unsigned_str, push_str, starts_with, str_eq, trim, trim_end_char,
    trim_end_matches_char, trim_str, u64_decimal, decimal,
};

verus! {

/// The process environment, as a string map.
pub type EnvVars = StringMap;

// ---------------------------------------------------------------- errors
/// A configuration error.
#[derive(Debug)]
pub enum ConfigError {
    /// A required variable is missing or empty.
    Missing(&'static str),
    /// A variable holds a value that cannot be used.
    Invalid { key: &'static str, message: String },
}

pub enum ConfigErrorView {
    Missing(Seq<char>),
    Invalid { key: Seq<char>, message: Seq<char> },
}

impl View for ConfigError {
    type V = ConfigErrorView;

    open spec fn view(&self) -> ConfigErrorView {
        match self {
            ConfigError::Missing(k) => ConfigErrorView::Missing(k@),
            ConfigError::Invalid { key, message } => ConfigErrorView::Invalid {
                key: key@,
                message: message@,
            },
        }
    }
}

/// The text of a configuration error.
pub open spec fn config_error_text(e: ConfigErrorView) -> Seq<char> {
    match e {
        ConfigErrorView::Missing(k) => "missing required environment variable: "@ + k,
        ConfigErrorView::Invalid { key, message } => "invalid value for "@ + key + ": "@
            + message,
    }
}

impl ConfigError {
    /// The error's text (what `Display` prints).
    pub fn message(&self) -> (r: String)
        ensures
            r@ == config_error_text(self@),
    {
        match self {
            ConfigError::Missing(k) => {
                let mut r = owned("missing required environment variable: ");
                push_str(&mut r, k);
                r
            },
            ConfigError::Invalid { key, message } => {
                let mut r = owned("invalid value for ");
                push_str(&mut r, key);
                push_str(&mut r, ": ");
                push_str(&mut r, message.as_str());
                r
            },
        }
    }
}

// ---------------------------------------------------------------- endpoints
/// The GitHub host named by `GITHUB_HOST` (trimmed, trailing `/` removed), or `github.com`.
pub open spec fn host_spec(m: Map<Seq<char>, Seq<char>>) -> Seq<char> {
    match lookup(m, "GITHUB_HOST"@) {
        Some(v) => if trim_end_char(trim(v), '/').len() > 0 {
            trim_end_char(trim(v), '/')
        } else {
            "github.com"@
        },
        None => "github.com"@,
    }
}

/// The REST API base and the clone/display host, for github.com or GitHub Enterprise
/// Server.
pub open spec fn endpoints_spec(m: Map<Seq<char>, Seq<char>>) -> Result<
    (Seq<char>, Seq<char>),
    ConfigErrorView,
> {
    let host = host_spec(m);
    if contains_seq(host, "://"@) || host.contains('/') {
        Err(
            ConfigErrorView::Invalid {
                key: "GITHUB_HOST"@,
                message: "expected hostname only (e.g. github.com), got "@ + host,
            },
        )
    } else {
        match lookup(m, "GITHUB_API_URL"@) {
            Some(raw) => {
                let u = trim_end_char(trim(raw), '/');
                if u.len() == 0 {
                    Err(
                        ConfigErrorView::Invalid {
                            key: "GITHUB_API_URL"@,
                            message: "must not be empty when set"@,
                        },
                    )
                } else if !("https://"@.is_prefix_of(u) || "http://"@.is_prefix_of(u)) {
                    Err(
                        ConfigErrorView::Invalid {
                            key: "GITHUB_API_URL"@,
                            message: "expected http(s) URL, got "@ + u,
                        },
                    )
                } else {
                    Ok((u, host))
                }
            },
            None => if host == "github.com"@ {
                Ok(("https://api.github.com"@, host))
            } else {
                Ok(("https://"@ + host + "/api/v3"@, host))
            },
        }
    }
}

/// Resolves the API base and the clone/display host from `GITHUB_HOST` and
/// `GITHUB_API_URL`.
pub fn resolve_github_endpoints(map: &EnvVars) -> (r: Result<(String, String), ConfigError>)
    ensures
        match r {
            Ok((api, host)) => endpoints_spec(map@) == Ok::<
                (Seq<char>, Seq<char>),
                ConfigErrorView,
            >((api@, host@)),
            Err(e) => endpoints_spec(map@) == Err::<(Seq<char>, Seq<char>), ConfigErrorView>(e@),
        },
{
    let host = match map.get("GITHUB_HOST") {
        Some(v) => {
            let t = trim_str(v.as_str());
            let h = trim_end_matches_char(t.as_str(), '/');
            if h.as_str().is_empty() {
                owned("github.com")
            } else {
                h
            }
        },
        None => owned("github.com"),
    };
    if contains_str(host.as_str(), "://") || contains_char(host.as_str(), '/') {
        let mut message = owned("expected hostname only (e.g. github.com), got ");
        push_str(&mut message, host.as_str());
        return Err(ConfigError::Invalid { key: "GITHUB_HOST", message });
    }
    let api = match map.get("GITHUB_API_URL") {
        Some(raw) => {
            let t = trim_str(raw.as_str());
            let u = trim_end_matches_char(t.as_str(), '/');
            if u.as_str().is_empty() {
                return Err(
                    ConfigError::Invalid {
                        key: "GITHUB_API_URL",
                        message: owned("must not be empty when set"),
                    },
                );
            }
            if !(starts_with(u.as_str(), "https://") || starts_with(u.as_str(), "http://")) {
                let mut message = owned("expected http(s) URL, got ");
                push_str(&mut message, u.as_str());
                return Err(ConfigError::Invalid { key: "GITHUB_API_URL", message });
            }
            u
        },
        None => {
            if str_eq(host.as_str(), "github.com") {
                owned("https://api.github.com")
            } else {
                let mut a = owned("https://");
                push_str(&mut a, host.as_str());
                push_str(&mut a, "/api/v3");
                a
            }
        },
    };
    Ok((api, host))
}

/// The value of a required variable: set and non-empty.
pub open spec fn required_spec(m: Map<Seq<char>, Seq<char>>, key: Seq<char>) -> Result<
    Seq<char>,
    ConfigErrorView,
> {
    match lookup(m, key) {
        Some(v) => if v.len() > 0 {
            Ok(v)
        } else {
            Err(ConfigErrorView::Missing(key))
        },
        None => Err(ConfigErrorView::Missing(key)),
    }
}

/// The value of `key`, which must be set and non-empty.
pub fn required(map: &EnvVars, key: &'static str) -> (r: Result<String, ConfigError>)
    ensures
        match r {
            Ok(v) => required_spec(map@, key@) == Ok::<Seq<char>, ConfigErrorView>(v@),
            Err(e) => required_spec(map@, key@) == Err::<Seq<char>, ConfigErrorView>(e@),
        },
{
    match map.get(key) {
        Some(v) => if v.as_str().is_empty() {
            Err(ConfigError::Missing(key))
        } else {
            Ok(v.clone())
        },
        None => Err(ConfigError::Missing(key)),
    }
}

// ---------------------------------------------------------------- configuration
/// Process configuration.
pub struct Config {
    pub github_token: String,
    pub github_user: String,
    /// REST API base, e.g. `https://api.github.com` or `https://ghe.example/api/v3`.
    pub github_api_url: String,
    /// Hostname for clone/display, e.g. `github.com` or `ghe.example`.
    pub github_host: String,
    pub projects_dir: String,
    pub tmux_session: String,
    pub cursor_cmd: String,
    pub opencode_cmd: String,
    pub port: u16,
    pub log_level: String,
    /// Dashboard login name (`ANCHOR_USER`).
    pub anchor_user: String,
    /// Dashboard login password (`ANCHOR_PASSWORD`).
    pub anchor_password: String,
    /// Key of the session-cookie HMAC (`ANCHOR_SESSION_SECRET`, else the password's bytes).
    pub session_secret: Vec<u8>,
    /// Whether the session cookie is marked `Secure` (`ANCHOR_COOKIE_SECURE`).
    pub cookie_secure: bool,
    /// Path of the settings database.
    pub database_path: String,
}

pub struct ConfigView {
    pub github_token: Seq<char>,
    pub github_user: Seq<char>,
    pub github_api_url: Seq<char>,
    pub github_host: Seq<char>,
    pub projects_dir: Seq<char>,
    pub tmux_session: Seq<char>,
    pub cursor_cmd: Seq<char>,
    pub opencode_cmd: Seq<char>,
    pub port: u16,
    pub log_level: Seq<char>,
    pub anchor_user: Seq<char>,
    pub anchor_password: Seq<char>,
    pub session_secret: Seq<u8>,
    pub cookie_secure: bool,
    pub database_path: Seq<char>,
}

impl View for Config {
    type V = ConfigView;

    open spec fn view(&self) -> ConfigView {
        ConfigView {
            github_token: self.github_token@,
            github_user: self.github_user@,
            github_api_url: self.github_api_url@,
            github_host: self.github_host@,
            projects_dir: self.projects_dir@,
            tmux_session: self.tmux_session@,
            cursor_cmd: self.cursor_cmd@,
            opencode_cmd: self.opencode_cmd@,
            port: self.port,
            log_level: self.log_level@,
            anchor_user: self.anchor_user@,
            anchor_password: self.anchor_password@,
            session_secret: self.session_secret@,
            cookie_secure: self.cookie_secure,
            database_path: self.database_path@,
        }
    }
}

/// The value of `key`, or `default` when it is not set.
pub open spec fn get_or(m: Map<Seq<char>, Seq<char>>, key: Seq<char>, default: Seq<char>) -> Seq<
    char,
> {
    match lookup(m, key) {
        Some(v) => v,
        None => default,
    }
}

/// The value of `key` when set and non-empty, else `default`.
pub open spec fn nonempty_or(m: Map<Seq<char>, Seq<char>>, key: Seq<char>, default: Seq<char>) -> Seq<
    char,
> {
    match lookup(m, key) {
        Some(v) => if v.len() > 0 {
            v
        } else {
            default
        },
        None => default,
    }
}

/// The home directory: `HOME` from the map, else the process's own, else `/home/agent`.
pub open spec fn home_spec(m: Map<Seq<char>, Seq<char>>, process_home: Option<Seq<char>>) -> Seq<
    char,
> {
    match lookup(m, "HOME"@) {
        Some(h) => h,
        None => match process_home {
            Some(h) => h,
            None => "/home/agent"@,
        },
    }
}

/// Whether a flag variable is on: `1` or `true` in any ASCII case.
pub open spec fn flag_on(v: Option<Seq<char>>) -> bool {
    match v {
        Some(s) => s == "1"@ || eq_ignore_ascii_case(s, "true"@),
        None => false,
    }
}

/// The settings database path: `ANCHOR_DB`, else the path of a `sqlite:` `DATABASE_URL`,
/// else `<home>/projects/anchor.db`.
pub open spec fn database_path_spec(m: Map<Seq<char>, Seq<char>>, home: Seq<char>) -> Seq<char> {
    match lookup(m, "ANCHOR_DB"@) {
        Some(p) if p.len() > 0 => p,
        _ => match lookup(m, "DATABASE_URL"@) {
            Some(u) if "sqlite:"@.is_prefix_of(u) => u.subrange(7, u.len() as int),
            _ => home + "/projects/anchor.db"@,
        },
    }
}

/// The port: `PORT` read as a `u16`, or 8080 when unset.
pub open spec fn port_spec(m: Map<Seq<char>, Seq<char>>) -> Result<u16, ConfigErrorView> {
    match lookup(m, "PORT"@) {
        Some(s) => match parse_unsigned(s, 65535) {
            Some(n) => Ok(n as u16),
            None => Err(
                ConfigErrorView::Invalid { key: "PORT"@, message: "expected u16, got "@ + s },
            ),
        },
        None => Ok(8080),
    }
}

/// The configuration given by the variables `m` (with `process_home` standing in for a
/// missing `HOME`), or the first error in the order token, user, endpoints, port.
pub open spec fn config_spec(m: Map<Seq<char>, Seq<char>>, process_home: Option<Seq<char>>) -> Result<
    ConfigView,
    ConfigErrorView,
> {
    match required_spec(m, "GITHUB_TOKEN"@) {
        Err(e) => Err(e),
        Ok(token) => match required_spec(m, "GITHUB_USER"@) {
            Err(e) => Err(e),
            Ok(user) => match endpoints_spec(m) {
                Err(e) => Err(e),
                Ok((api, host)) => match port_spec(m) {
                    Err(e) => Err(e),
                    Ok(port) => {
                        let home = home_spec(m, process_home);
                        let password = get_or(m, "ANCHOR_PASSWORD"@, ""@);
                        let secret = nonempty_or(m, "ANCHOR_SESSION_SECRET"@, password);
                        Ok(
                            ConfigView {
                                github_token: token,
                                github_user: user,
                                github_api_url: api,
                                github_host: host,
                                projects_dir: get_or(m, "PROJECTS_DIR"@, home + "/projects"@),
                                tmux_session: get_or(m, "TMUX_SESSION"@, "agents"@),
                                cursor_cmd: get_or(m, "CURSOR_CMD"@, "cursor-agent"@),
                                opencode_cmd: get_or(m, "OPENCODE_CMD"@, "opencode"@),
                                port,
                                log_level: get_or(m, "LOG_LEVEL"@, "info"@),
                                anchor_user: nonempty_or(m, "ANCHOR_USER"@, "admin"@),
                                anchor_password: password,
                                session_secret: vstd::utf8::encode_utf8(secret),
                                cookie_secure: flag_on(lookup(m, "ANCHOR_COOKIE_SECURE"@)),
                                database_path: database_path_spec(m, home),
                            },
                        )
                    },
                },
            },
        },
    }
}

fn get_or_default(map: &EnvVars, key: &str, default: &str) -> (r: String)
    ensures
        r@ == get_or(map@, key@, default@),
{
    match map.get(key) {
        Some(v) => v.clone(),
        None => owned(default),
    }
}

fn nonempty_or_default(map: &EnvVars, key: &str, default: &str) -> (r: String)
    ensures
        r@ == nonempty_or(map@, key@, default@),
{
    match map.get(key) {
        Some(v) => if v.as_str().is_empty() {
            owned(default)
        } else {
            v.clone()
        },
        None => owned(default),
    }
}

/// The bytes of a string (its UTF-8 encoding).
fn bytes_of(s: &str) -> (r: Vec<u8>)
    ensures
        r@ == vstd::utf8::encode_utf8(s@),
{
    let b = s.as_bytes();
    let mut r: Vec<u8> = Vec::new();
    let mut i: usize = 0;
    while i < b.len()
        invariant
            i <= b@.len(),
            b@ == vstd::utf8::encode_utf8(s@),
            r@ == b@.subrange(0, i as int),
        decreases b@.len() - i,
    {
        r.push(b[i]);
        assert(b@.subrange(0, i + 1) == b@.subrange(0, i as int).push(b@[i as int]));
        i += 1;
    }
    assert(b@.subrange(0, b@.len() as int) == b@);
    r
}

impl Config {
    /// Loads the configuration from the variables `map`; `process_home` is the process's
    /// own `HOME`, used when `map` has none.
    pub fn from_env_map_with_home(map: &EnvVars, process_home: Option<String>) -> (r: Result<
        Config,
        ConfigError,
    >)
        ensures
            match r {
                Ok(c) => config_spec(map@, opt_str_view(process_home)) == Ok::<
                    ConfigView,
                    ConfigErrorView,
                >(c@),
                Err(e) => config_spec(map@, opt_str_view(process_home)) == Err::<
                    ConfigView,
                    ConfigErrorView,
                >(e@),
            },
    {
        let github_token = match required(map, "GITHUB_TOKEN") {
            Ok(v) => v,
            Err(e) => {
                return Err(e);
            },
        };
        let github_user = match required(map, "GITHUB_USER") {
            Ok(v) => v,
            Err(e) => {
                return Err(e);
            },
        };
        let (github_api_url, github_host) = match resolve_github_endpoints(map) {
            Ok(p) => p,
            Err(e) => {
                return Err(e);
            },
        };
        let port: u16 = match map.get("PORT") {
            Some(s) => match parse_unsigned_str(s.as_str(), 65535) {
                Some(n) => n as u16,
                None => {
                    let mut message = owned("expected u16, got ");
                    push_str(&mut message, s.as_str());
                    return Err(ConfigError::Invalid { key: "PORT", message });
                },
            },
            None => 8080,
        };
        let home = match map.get("HOME") {
            Some(h) => h.clone(),
            None => match process_home {
                Some(h) => h,
                None => owned("/home/agent"),
            },
        };
        let mut default_projects = home.clone();
        push_str(&mut default_projects, "/projects");
        let anchor_password = get_or_default(map, "ANCHOR_PASSWORD", "");
        let secret = nonempty_or_default(map, "ANCHOR_SESSION_SECRET", anchor_password.as_str());
        let cookie_secure = match map.get("ANCHOR_COOKIE_SECURE") {
            Some(v) => str_eq(v.as_str(), "1") || eq_ignore_case(v.as_str(), "true"),
            None => false,
        };
        let database_path = {
            let from_anchor = match map.get("ANCHOR_DB") {
                Some(p) => if p.as_str().is_empty() {
                    None
                } else {
                    Some(p.clone())
                },
                None => None,
            };
            match from_anchor {
                Some(p) => p,
                None => {
                    let from_url = match map.get("DATABASE_URL") {
                        Some(u) => if starts_with(u.as_str(), "sqlite:") {
                            let v = crate::text::chars_of(u.as_str());
                            proof {
                                reveal_strlit("sqlite:");
                            }
                            Some(crate::text::string_of_range(&v, 7, v.len()))
                        } else {
                            None
                        },
                        None => None,
                    };
                    match from_url {
                        Some(p) => p,
                        None => {
                            let mut p = home.clone();
                            push_str(&mut p, "/projects/anchor.db");
                            p
                        },
                    }
                },
            }
        };
        assert(home@ == home_spec(map@, opt_str_view(process_home)));
        assert(database_path@ == database_path_spec(map@, home@));
        assert(cookie_secure == flag_on(lookup(map@, "ANCHOR_COOKIE_SECURE"@)));
        assert(port_spec(map@) == Ok::<u16, ConfigErrorView>(port));
        let c = Config {
                github_token,
                github_user,
                github_api_url,
                github_host,
                projects_dir: get_or_default(map, "PROJECTS_DIR", default_projects.as_str()),
                tmux_session: get_or_default(map, "TMUX_SESSION", "agents"),
                cursor_cmd: get_or_default(map, "CURSOR_CMD", "cursor-agent"),
                opencode_cmd: get_or_default(map, "OPENCODE_CMD", "opencode"),
                port,
                log_level: get_or_default(map, "LOG_LEVEL", "info"),
                anchor_user: nonempty_or_default(map, "ANCHOR_USER", "admin"),
                anchor_password,
                session_secret: bytes_of(secret.as_str()),
                cookie_secure,
                database_path,
            };
        Ok(c)
    }

    /// Loads the configuration from the variables `map` alone (`/home/agent` when `HOME`
    /// is not among them).
    pub fn from_env_map(map: &EnvVars) -> (r: Result<Config, ConfigError>)
        ensures
            match r {
                Ok(c) => config_spec(map@, None) == Ok::<ConfigView, ConfigErrorView>(c@),
                Err(e) => config_spec(map@, None) == Err::<ConfigView, ConfigErrorView>(e@),
            },
    {
        Self::from_env_map_with_home(map, None)
    }
}

pub open spec fn opt_str_view(o: Option<String>) -> Option<Seq<char>> {
    match o {
        Some(s) => Some(s@),
        None => None,
    }
}

/// The configuration as `{:?}` shows it: the token as `[redacted]`; the login password
/// and session secret left out.
pub open spec fn config_debug_spec(c: ConfigView) -> Seq<char> {
    "Config { github_token: \"[redacted]\", github_user: "@ + str_debug_spec(c.github_user)
        + ", github_api_url: "@ + str_debug_spec(c.github_api_url) + ", github_host: "@
        + str_debug_spec(c.github_host) + ", projects_dir: "@ + str_debug_spec(c.projects_dir)
        + ", tmux_session: "@ + str_debug_spec(c.tmux_session) + ", cursor_cmd: "@
        + str_debug_spec(c.cursor_cmd) + ", opencode_cmd: "@ + str_debug_spec(c.opencode_cmd)
        + ", port: "@ + decimal(c.port as nat) + ", log_level: "@ + str_debug_spec(c.log_level)
        + " }"@
}

impl Config {
    /// The configuration as `{:?}` shows it, secrets redacted.
    pub fn debug_text(&self) -> (r: String)
        ensures
            r@ == config_debug_spec(self@),
    {
        let mut r = owned("Config { github_token: \"[redacted]\", github_user: ");
        push_str(&mut r, debug_str(self.github_user.as_str()).as_str());
        push_str(&mut r, ", github_api_url: ");
        push_str(&mut r, debug_str(self.github_api_url.as_str()).as_str());
        push_str(&mut r, ", github_host: ");
        push_str(&mut r, debug_str(self.github_host.as_str()).as_str());
        push_str(&mut r, ", projects_dir: ");
        push_str(&mut r, debug_str(self.projects_dir.as_str()).as_str());
        push_str(&mut r, ", tmux_session: ");
        push_str(&mut r, debug_str(self.tmux_session.as_str()).as_str());
        push_str(&mut r, ", cursor_cmd: ");
        push_str(&mut r, debug_str(self.cursor_cmd.as_str()).as_str());
        push_str(&mut r, ", opencode_cmd: ");
        push_str(&mut r, debug_str(self.opencode_cmd.as_str()).as_str());
        push_str(&mut r, ", port: ");
        push_str(&mut r, u64_decimal(self.port as u64).as_str());
        push_str(&mut r, ", log_level: ");
        push_str(&mut r, debug_str(self.log_level.as_str()).as_str());
        push_str(&mut r, " }");
        r
    }
}

/// What the configuration shows of itself never depends on its secrets (the GitHub
/// token, the login password, the session secret), and marks the token as redacted.
pub proof fn lemma_config_debug_hides_secrets(a: ConfigView, b: ConfigView)
    requires
        a.github_user == b.github_user,
        a.github_api_url == b.github_api_url,
        a.github_host == b.github_host,
        a.projects_dir == b.projects_dir,
        a.tmux_session == b.tmux_session,
        a.cursor_cmd == b.cursor_cmd,
        a.opencode_cmd == b.opencode_cmd,
        a.port == b.port,
        a.log_level == b.log_level,
    ensures
        config_debug_spec(a) == config_debug_spec(b),
        contains_seq(config_debug_spec(a), "[redacted]"@),
{
    let d = config_debug_spec(a);
    reveal_strlit("Config { github_token: \"[redacted]\", github_user: ");
    reveal_strlit("[redacted]");
    assert(d.subrange(24, 34) =~= "[redacted]"@);
    assert(d.subrange(24, 24 + "[redacted]"@.len() as int) == "[redacted]"@);
}

} // verus!
