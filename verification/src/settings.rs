//! Operator settings for the agent panes: launch command overrides, extra arguments,
//! whether each pane runs its agent, and the last project opened.
//!
//! The settings live in a key/value store. `AgentSettings::from_store` reads them from
//! the store's contents and `AgentSettings::store_writes` lists what saving writes.

use vstd::prelude::*;

use crate::config::{get_or, opt_str_view, Config};
use crate::string_map::{env_map, entry_views, lemma_env_map_absent, lemma_env_map_at, lookup, StringMap};
use crate::text::{eq_ignore_ascii_case, eq_ignore_case, owned, push_str, str_eq, trim, trim_str};

verus! {

/// Persisted operator settings. An empty command string means "use the default from the
/// environment".
#[derive(Debug, Clone)]
pub struct AgentSettings {
    pub cursor_cmd: Option<String>,
    pub opencode_cmd: Option<String>,
    pub cursor_args: String,
    pub opencode_args: String,
    pub cursor_enabled: bool,
    pub opencode_enabled: bool,
    pub last_opened_project: Option<String>,
    pub install_notes: String,
}

#[verifier::ext_equal]
pub struct AgentSettingsView {
    pub cursor_cmd: Option<Seq<char>>,
    pub opencode_cmd: Option<Seq<char>>,
    pub cursor_args: Seq<char>,
    pub opencode_args: Seq<char>,
    pub cursor_enabled: bool,
    pub opencode_enabled: bool,
    pub last_opened_project: Option<Seq<char>>,
    pub install_notes: Seq<char>,
}

impl View for AgentSettings {
    type V = AgentSettingsView;

    open spec fn view(&self) -> AgentSettingsView {
        AgentSettingsView {
            cursor_cmd: opt_str_view(self.cursor_cmd),
            opencode_cmd: opt_str_view(self.opencode_cmd),
            cursor_args: self.cursor_args@,
            opencode_args: self.opencode_args@,
            cursor_enabled: self.cursor_enabled,
            opencode_enabled: self.opencode_enabled,
            last_opened_project: opt_str_view(self.last_opened_project),
            install_notes: self.install_notes@,
        }
    }
}

/// The settings before anything is saved: no overrides, both agents enabled.
pub open spec fn default_settings() -> AgentSettingsView {
    AgentSettingsView {
        cursor_cmd: None,
        opencode_cmd: None,
        cursor_args: Seq::empty(),
        opencode_args: Seq::empty(),
        cursor_enabled: true,
        opencode_enabled: true,
        last_opened_project: None,
        install_notes: Seq::empty(),
    }
}

impl Default for AgentSettings {
    fn default() -> (r: Self)
        ensures
            r@ == default_settings(),
    {
        AgentSettings {
            cursor_cmd: None,
            opencode_cmd: None,
            cursor_args: String::new(),
            opencode_args: String::new(),
            cursor_enabled: true,
            opencode_enabled: true,
            last_opened_project: None,
            install_notes: String::new(),
        }
    }
}

// ---------------------------------------------------------------- launch commands
/// The override when set and non-empty, else the default.
pub open spec fn pick_cmd(o: Option<Seq<char>>, default: Seq<char>) -> Seq<char> {
    match o {
        Some(v) => if v.len() > 0 {
            v
        } else {
            default
        },
        None => default,
    }
}

/// The launch command of `agent`'s pane: `bash` when the agent is disabled, else its
/// command (override or `env_default`) followed by its trimmed arguments, if any. An
/// unknown agent gets `env_default` alone.
pub open spec fn resolve_spec(s: AgentSettingsView, agent: Seq<char>, env_default: Seq<char>) -> Seq<
    char,
> {
    let (cmd, args, enabled) = if agent == "cursor"@ {
        (pick_cmd(s.cursor_cmd, env_default), s.cursor_args, s.cursor_enabled)
    } else if agent == "opencode"@ {
        (pick_cmd(s.opencode_cmd, env_default), s.opencode_args, s.opencode_enabled)
    } else {
        (env_default, Seq::<char>::empty(), true)
    };
    if !enabled {
        "bash"@
    } else if trim(args).len() == 0 {
        cmd
    } else {
        cmd + " "@ + trim(args)
    }
}

/// Each pane's launch command comes from that pane's own settings alone: two settings
/// that agree on the opencode command, arguments and switch give the opencode pane the
/// same command whatever their cursor settings, and the other way round. A disabled pane
/// runs `bash`; an enabled pane with blank arguments runs its own non-empty override, or
/// else the environment's default; with arguments, that command, a space, and the
/// trimmed arguments.
pub proof fn lemma_pane_command_uses_own_settings(
    s: AgentSettingsView,
    t: AgentSettingsView,
    env_default: Seq<char>,
)
    ensures
        s.opencode_cmd == t.opencode_cmd && s.opencode_args == t.opencode_args && s.opencode_enabled
            == t.opencode_enabled ==> resolve_spec(s, "opencode"@, env_default) == resolve_spec(
            t,
            "opencode"@,
            env_default,
        ),
        s.cursor_cmd == t.cursor_cmd && s.cursor_args == t.cursor_args && s.cursor_enabled
            == t.cursor_enabled ==> resolve_spec(s, "cursor"@, env_default) == resolve_spec(
            t,
            "cursor"@,
            env_default,
        ),
        !s.opencode_enabled ==> resolve_spec(s, "opencode"@, env_default) == "bash"@,
        !s.cursor_enabled ==> resolve_spec(s, "cursor"@, env_default) == "bash"@,
        ({
            let own = match s.opencode_cmd {
                Some(v) => if v.len() > 0 { v } else { env_default },
                None => env_default,
            };
            s.opencode_enabled ==> resolve_spec(s, "opencode"@, env_default) == if trim(
                s.opencode_args,
            ).len() == 0 {
                own
            } else {
                own + " "@ + trim(s.opencode_args)
            }
        }),
        ({
            let own = match s.cursor_cmd {
                Some(v) => if v.len() > 0 { v } else { env_default },
                None => env_default,
            };
            s.cursor_enabled ==> resolve_spec(s, "cursor"@, env_default) == if trim(
                s.cursor_args,
            ).len() == 0 {
                own
            } else {
                own + " "@ + trim(s.cursor_args)
            }
        }),
{
    reveal_strlit("opencode");
    reveal_strlit("cursor");
    assert("opencode"@.len() != "cursor"@.len());
    assert("opencode"@ != "cursor"@);
}

fn pick_cmd_of(o: &Option<String>, default: &str) -> (r: String)
    ensures
        r@ == pick_cmd(opt_str_view(*o), default@),
{
    match o {
        Some(v) => if v.as_str().is_empty() {
            owned(default)
        } else {
            v.clone()
        },
        None => owned(default),
    }
}

impl AgentSettings {
    /// The launch command of an agent pane (command plus optional arguments).
    pub fn resolve_cmd(&self, agent: &str, env_default: &str) -> (r: String)
        ensures
            r@ == resolve_spec(self@, agent@, env_default@),
    {
        let is_cursor = str_eq(agent, "cursor");
        let is_opencode = str_eq(agent, "opencode");
        if !is_cursor && !is_opencode {
            return owned(env_default);
        }
        let (cmd, args, enabled) = if is_cursor {
            (pick_cmd_of(&self.cursor_cmd, env_default), &self.cursor_args, self.cursor_enabled)
        } else {
            (pick_cmd_of(&self.opencode_cmd, env_default), &self.opencode_args, self.opencode_enabled)
        };
        if !enabled {
            return owned("bash");
        }
        let t = trim_str(args.as_str());
        if t.as_str().is_empty() {
            cmd
        } else {
            let mut r = cmd;
            push_str(&mut r, " ");
            push_str(&mut r, t.as_str());
            r
        }
    }
}

/// The launch commands of the cursor and opencode panes, from the saved settings (the
/// defaults when they could not be loaded) over the environment's commands.
pub fn effective_cmds(loaded: Option<AgentSettings>, config: &Config) -> (r: (String, String))
    ensures
        ({
            let s = match loaded {
                Some(s) => s@,
                None => default_settings(),
            };
            &&& r.0@ == resolve_spec(s, "cursor"@, config.cursor_cmd@)
            &&& r.1@ == resolve_spec(s, "opencode"@, config.opencode_cmd@)
        }),
{
    let s = match loaded {
        Some(s) => s,
        None => AgentSettings::default(),
    };
    (s.resolve_cmd("cursor", config.cursor_cmd.as_str()), s.resolve_cmd("opencode", config.opencode_cmd.as_str()))
}

// ---------------------------------------------------------------- edits
/// The trimmed text, or `None` when nothing is left.
pub open spec fn nonempty_spec(s: Seq<char>) -> Option<Seq<char>> {
    if trim(s).len() == 0 {
        None
    } else {
        Some(trim(s))
    }
}

/// `s` trimmed, or `None` when it is blank.
pub fn nonempty(s: String) -> (r: Option<String>)
    ensures
        opt_str_view(r) == nonempty_spec(s@),
{
    let t = trim_str(s.as_str());
    if t.as_str().is_empty() {
        None
    } else {
        Some(t)
    }
}

/// The settings page's form. A checkbox is present when ticked.
#[derive(Debug)]
pub struct SettingsForm {
    pub cursor_cmd: String,
    pub opencode_cmd: String,
    pub cursor_args: String,
    pub opencode_args: String,
    pub cursor_enabled: Option<String>,
    pub opencode_enabled: Option<String>,
    pub install_notes: String,
}

/// A partial update from the JSON API: each field that is present replaces the saved one.
#[derive(Debug)]
pub struct SettingsJson {
    pub cursor_cmd: Option<String>,
    pub opencode_cmd: Option<String>,
    pub cursor_args: Option<String>,
    pub opencode_args: Option<String>,
    pub cursor_enabled: Option<bool>,
    pub opencode_enabled: Option<bool>,
    pub install_notes: Option<String>,
    pub last_opened_project: Option<String>,
}

pub struct SettingsJsonView {
    pub cursor_cmd: Option<Seq<char>>,
    pub opencode_cmd: Option<Seq<char>>,
    pub cursor_args: Option<Seq<char>>,
    pub opencode_args: Option<Seq<char>>,
    pub cursor_enabled: Option<bool>,
    pub opencode_enabled: Option<bool>,
    pub install_notes: Option<Seq<char>>,
    pub last_opened_project: Option<Seq<char>>,
}

impl View for SettingsJson {
    type V = SettingsJsonView;

    open spec fn view(&self) -> SettingsJsonView {
        SettingsJsonView {
            cursor_cmd: opt_str_view(self.cursor_cmd),
            opencode_cmd: opt_str_view(self.opencode_cmd),
            cursor_args: opt_str_view(self.cursor_args),
            opencode_args: opt_str_view(self.opencode_args),
            cursor_enabled: self.cursor_enabled,
            opencode_enabled: self.opencode_enabled,
            install_notes: opt_str_view(self.install_notes),
            last_opened_project: opt_str_view(self.last_opened_project),
        }
    }
}

/// The settings a submitted form saves: commands trimmed (blank means none), boxes
/// ticked when present, and the last opened project kept from before.
pub open spec fn form_spec(f: SettingsForm, last_opened_project: Option<Seq<char>>) -> AgentSettingsView {
    AgentSettingsView {
        cursor_cmd: nonempty_spec(f.cursor_cmd@),
        opencode_cmd: nonempty_spec(f.opencode_cmd@),
        cursor_args: f.cursor_args@,
        opencode_args: f.opencode_args@,
        cursor_enabled: f.cursor_enabled is Some,
        opencode_enabled: f.opencode_enabled is Some,
        last_opened_project,
        install_notes: f.install_notes@,
    }
}

/// `o` when present, else `d`.
pub open spec fn or_keep<T>(o: Option<T>, d: T) -> T {
    match o {
        Some(v) => v,
        None => d,
    }
}

/// A command or project field of an update: present means replaced by its trimmed text
/// (blank clears it).
pub open spec fn replace_trimmed(o: Option<Seq<char>>, d: Option<Seq<char>>) -> Option<Seq<char>> {
    match o {
        Some(v) => nonempty_spec(v),
        None => d,
    }
}

/// The settings after a JSON update.
pub open spec fn apply_json_spec(s: AgentSettingsView, b: SettingsJsonView) -> AgentSettingsView {
    AgentSettingsView {
        cursor_cmd: replace_trimmed(b.cursor_cmd, s.cursor_cmd),
        opencode_cmd: replace_trimmed(b.opencode_cmd, s.opencode_cmd),
        cursor_args: or_keep(b.cursor_args, s.cursor_args),
        opencode_args: or_keep(b.opencode_args, s.opencode_args),
        cursor_enabled: or_keep(b.cursor_enabled, s.cursor_enabled),
        opencode_enabled: or_keep(b.opencode_enabled, s.opencode_enabled),
        last_opened_project: replace_trimmed(b.last_opened_project, s.last_opened_project),
        install_notes: or_keep(b.install_notes, s.install_notes),
    }
}

impl AgentSettings {
    /// The settings saved from the settings form; `last_opened_project` is the one saved
    /// before, which the form does not show.
    pub fn from_form(form: SettingsForm, last_opened_project: Option<String>) -> (r: AgentSettings)
        ensures
            r@ == form_spec(form, opt_str_view(last_opened_project)),
    {
        AgentSettings {
            cursor_cmd: nonempty(form.cursor_cmd),
            opencode_cmd: nonempty(form.opencode_cmd),
            cursor_args: form.cursor_args,
            opencode_args: form.opencode_args,
            cursor_enabled: form.cursor_enabled.is_some(),
            opencode_enabled: form.opencode_enabled.is_some(),
            last_opened_project,
            install_notes: form.install_notes,
        }
    }

    /// Applies a JSON update: each present field replaces the saved one.
    pub fn apply_json(&mut self, body: SettingsJson)
        ensures
            final(self)@ == apply_json_spec(old(self)@, body@),
    {
        let ghost b = body@;
        if let Some(v) = body.cursor_cmd {
            self.cursor_cmd = nonempty(v);
        }
        if let Some(v) = body.opencode_cmd {
            self.opencode_cmd = nonempty(v);
        }
        if let Some(v) = body.cursor_args {
            self.cursor_args = v;
        }
        if let Some(v) = body.opencode_args {
            self.opencode_args = v;
        }
        if let Some(v) = body.cursor_enabled {
            self.cursor_enabled = v;
        }
        if let Some(v) = body.opencode_enabled {
            self.opencode_enabled = v;
        }
        if let Some(v) = body.install_notes {
            self.install_notes = v;
        }
        if let Some(v) = body.last_opened_project {
            self.last_opened_project = nonempty(v);
        }
    }
}

// ---------------------------------------------------------------- the store
/// A flag as stored: on when `1` or `true` in any ASCII case; on when never saved.
pub open spec fn stored_flag(v: Option<Seq<char>>) -> bool {
    match v {
        Some(s) => s == "1"@ || eq_ignore_ascii_case(s, "true"@),
        None => true,
    }
}

/// The settings read from a store holding `m`.
pub open spec fn load_spec(m: Map<Seq<char>, Seq<char>>) -> AgentSettingsView {
    AgentSettingsView {
        cursor_cmd: lookup(m, "cursor_cmd"@),
        opencode_cmd: lookup(m, "opencode_cmd"@),
        cursor_args: get_or(m, "cursor_args"@, Seq::empty()),
        opencode_args: get_or(m, "opencode_args"@, Seq::empty()),
        cursor_enabled: stored_flag(lookup(m, "cursor_enabled"@)),
        opencode_enabled: stored_flag(lookup(m, "opencode_enabled"@)),
        last_opened_project: lookup(m, "last_opened_project"@),
        install_notes: get_or(m, "install_notes"@, Seq::empty()),
    }
}

/// A command override as stored: its text, or empty when there is none.
pub open spec fn stored_cmd(o: Option<Seq<char>>) -> Seq<char> {
    match o {
        Some(v) => v,
        None => Seq::empty(),
    }
}

/// A flag as stored: `1` or `0`.
pub open spec fn flag_text(b: bool) -> Seq<char> {
    if b {
        "1"@
    } else {
        "0"@
    }
}

/// The key/value writes that save `s`, in order. The last opened project is written
/// only when there is one.
pub open spec fn writes_spec(s: AgentSettingsView) -> Seq<(Seq<char>, Seq<char>)> {
    seq![
        ("cursor_cmd"@, stored_cmd(s.cursor_cmd)),
        ("opencode_cmd"@, stored_cmd(s.opencode_cmd)),
        ("cursor_args"@, s.cursor_args),
        ("opencode_args"@, s.opencode_args),
        ("cursor_enabled"@, flag_text(s.cursor_enabled)),
        ("opencode_enabled"@, flag_text(s.opencode_enabled)),
    ] + match s.last_opened_project {
        Some(p) => seq![("last_opened_project"@, p)],
        None => Seq::empty(),
    } + seq![("install_notes"@, s.install_notes)]
}

fn stored_cmd_of(o: &Option<String>) -> (r: String)
    ensures
        r@ == stored_cmd(opt_str_view(*o)),
{
    match o {
        Some(v) => v.clone(),
        None => String::new(),
    }
}

fn flag_text_of(b: bool) -> (r: String)
    ensures
        r@ == flag_text(b),
{
    if b {
        owned("1")
    } else {
        owned("0")
    }
}

fn stored_flag_of(v: Option<&String>) -> (r: bool)
    ensures
        r == stored_flag(
            match v {
                Some(s) => Some(s@),
                None => None,
            },
        ),
{
    match v {
        Some(s) => str_eq(s.as_str(), "1") || eq_ignore_case(s.as_str(), "true"),
        None => true,
    }
}

fn get_cloned(store: &StringMap, key: &str) -> (r: Option<String>)
    ensures
        opt_str_view(r) == lookup(store@, key@),
{
    match store.get(key) {
        Some(v) => Some(v.clone()),
        None => None,
    }
}

fn get_or_empty(store: &StringMap, key: &str) -> (r: String)
    ensures
        r@ == get_or(store@, key@, Seq::empty()),
{
    match store.get(key) {
        Some(v) => v.clone(),
        None => String::new(),
    }
}

impl AgentSettings {
    /// The settings held by a store.
    pub fn from_store(store: &StringMap) -> (r: AgentSettings)
        ensures
            r@ == load_spec(store@),
    {
        AgentSettings {
            cursor_cmd: get_cloned(store, "cursor_cmd"),
            opencode_cmd: get_cloned(store, "opencode_cmd"),
            cursor_args: get_or_empty(store, "cursor_args"),
            opencode_args: get_or_empty(store, "opencode_args"),
            cursor_enabled: stored_flag_of(store.get("cursor_enabled")),
            opencode_enabled: stored_flag_of(store.get("opencode_enabled")),
            last_opened_project: get_cloned(store, "last_opened_project"),
            install_notes: get_or_empty(store, "install_notes"),
        }
    }

    /// The key/value writes that save these settings, in order.
    pub fn store_writes(&self) -> (r: Vec<(String, String)>)
        ensures
            entry_views(r@) == writes_spec(self@),
    {
        let mut r: Vec<(String, String)> = Vec::new();
        r.push((owned("cursor_cmd"), stored_cmd_of(&self.cursor_cmd)));
        r.push((owned("opencode_cmd"), stored_cmd_of(&self.opencode_cmd)));
        r.push((owned("cursor_args"), self.cursor_args.clone()));
        r.push((owned("opencode_args"), self.opencode_args.clone()));
        r.push((owned("cursor_enabled"), flag_text_of(self.cursor_enabled)));
        r.push((owned("opencode_enabled"), flag_text_of(self.opencode_enabled)));
        match &self.last_opened_project {
            Some(p) => r.push((owned("last_opened_project"), p.clone())),
            None => {},
        }
        r.push((owned("install_notes"), self.install_notes.clone()));
        proof {
            assert(entry_views(r@) =~= writes_spec(self@));
        }
        r
    }
}

/// Saving settings into a store and reading them back gives the same arguments, flags and
/// notes; a command override comes back as saved (a missing one as empty text); the last
/// opened project comes back when one was saved, and otherwise stays what the store held.
/// Every pane's launch command is the same after the round trip.
pub proof fn lemma_save_then_load(m: Map<Seq<char>, Seq<char>>, s: AgentSettingsView)
    ensures
        ({
            let l = load_spec(m.union_prefer_right(env_map(writes_spec(s))));
            &&& l.cursor_cmd == Some(stored_cmd(s.cursor_cmd))
            &&& l.opencode_cmd == Some(stored_cmd(s.opencode_cmd))
            &&& l.cursor_args == s.cursor_args
            &&& l.opencode_args == s.opencode_args
            &&& l.cursor_enabled == s.cursor_enabled
            &&& l.opencode_enabled == s.opencode_enabled
            &&& l.install_notes == s.install_notes
            &&& l.last_opened_project == match s.last_opened_project {
                Some(p) => Some(p),
                None => lookup(m, "last_opened_project"@),
            }
            &&& forall|agent: Seq<char>, env_default: Seq<char>|
                #[trigger] resolve_spec(l, agent, env_default) == resolve_spec(
                    s,
                    agent,
                    env_default,
                )
        }),
{
    reveal_strlit("cursor_cmd");
    reveal_strlit("opencode_cmd");
    reveal_strlit("cursor_args");
    reveal_strlit("opencode_args");
    reveal_strlit("cursor_enabled");
    reveal_strlit("opencode_enabled");
    reveal_strlit("last_opened_project");
    reveal_strlit("install_notes");
    reveal_strlit("1");
    reveal_strlit("0");
    reveal_strlit("true");
    let w = writes_spec(s);
    let e = env_map(w);
    let n = w.len() as int;
    let last = n - 1;
    assert(w[0].0 == "cursor_cmd"@ && w[1].0 == "opencode_cmd"@ && w[2].0 == "cursor_args"@
        && w[3].0 == "opencode_args"@ && w[4].0 == "cursor_enabled"@ && w[5].0
        == "opencode_enabled"@ && w[last].0 == "install_notes"@);
    assert(n == 7 || (n == 8 && w[6].0 == "last_opened_project"@));
    assert("opencode_args"@[0] != "install_notes"@[0]);
    lemma_env_map_at(w, 0);
    lemma_env_map_at(w, 1);
    lemma_env_map_at(w, 2);
    lemma_env_map_at(w, 3);
    lemma_env_map_at(w, 4);
    lemma_env_map_at(w, 5);
    lemma_env_map_at(w, last);
    match s.last_opened_project {
        Some(p) => {
            lemma_env_map_at(w, 6);
        },
        None => {
            lemma_env_map_absent(w, "last_opened_project"@);
        },
    }
    let l = load_spec(m.union_prefer_right(e));
    assert(!eq_ignore_ascii_case("0"@, "true"@));
    assert("0"@ != "1"@) by {
        assert("0"@[0] != "1"@[0]);
    }
    assert(l.cursor_enabled == s.cursor_enabled);
    assert(l.opencode_enabled == s.opencode_enabled);
    assert forall|agent: Seq<char>, env_default: Seq<char>|
        #[trigger] resolve_spec(l, agent, env_default) == resolve_spec(s, agent, env_default) by {
        assert(pick_cmd(l.cursor_cmd, env_default) == pick_cmd(s.cursor_cmd, env_default));
        assert(pick_cmd(l.opencode_cmd, env_default) == pick_cmd(s.opencode_cmd, env_default));
    }
}

} // verus!
