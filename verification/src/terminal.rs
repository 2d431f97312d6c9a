//! The in-browser terminal's decisions: which agent pane, whether a project's terminal
//! may be opened, the `tmux attach` command run in the PTY (never with the GitHub
//! token in its environment), and terminal resizes.

use vstd::prelude::*;

use crate::auth::hex_digit;
use crate::error::AppError;
use crate::text::{owned, push_str, str_eq};

verus! {

/// The terminal page's query: which agent pane (`cursor` when absent).
#[derive(Debug)]
pub struct TerminalQuery {
    pub agent: String,
}

/// The pane shown when none is asked for.
pub fn default_agent() -> (r: String)
    ensures
        r@ == "cursor"@,
{
    owned("cursor")
}

impl Default for TerminalQuery {
    fn default() -> (r: Self)
        ensures
            r.agent@ == "cursor"@,
    {
        TerminalQuery { agent: default_agent() }
    }
}

/// Whether `agent` names an agent pane.
pub open spec fn is_agent(agent: Seq<char>) -> bool {
    agent == "cursor"@ || agent == "opencode"@
}

/// The agent pane named by `agent`, or a not-found error naming it.
pub fn normalize_agent(agent: &str) -> (r: Result<&str, AppError>)
    ensures
        match r {
            Ok(a) => is_agent(agent@) && a@ == agent@,
            Err(e) => !is_agent(agent@) && (e matches AppError::NotFound(m) && m@
                == "unknown agent pane: "@ + agent@ + " (use cursor or opencode)"@),
        },
{
    if str_eq(agent, "cursor") || str_eq(agent, "opencode") {
        Ok(agent)
    } else {
        let mut m = owned("unknown agent pane: ");
        push_str(&mut m, agent);
        push_str(&mut m, " (use cursor or opencode)");
        Err(AppError::NotFound(m))
    }
}

/// The tmux pane of an agent: `1` for opencode, `0` otherwise.
pub fn pane_index(agent: &str) -> (r: &'static str)
    ensures
        r@ == if agent@ == "opencode"@ {
            "1"@
        } else {
            "0"@
        },
{
    if str_eq(agent, "opencode") {
        "1"
    } else {
        "0"
    }
}

/// Whether a project's terminal socket may be opened: the project must be known and its
/// tmux window must exist.
pub fn terminal_precheck(slug: &str, known: bool, window_exists: bool) -> (r: Result<(), AppError>)
    ensures
        !known ==> (r matches Err(AppError::NotFound(m)) && m@ == "project not found: "@ + slug@),
        known && !window_exists ==> (r matches Err(AppError::NotFound(m)) && m@
            == "tmux window missing for "@ + slug@ + " — sync the project first"@),
        known && window_exists ==> r is Ok,
{
    if !known {
        let mut m = owned("project not found: ");
        push_str(&mut m, slug);
        return Err(AppError::NotFound(m));
    }
    if !window_exists {
        let mut m = owned("tmux window missing for ");
        push_str(&mut m, slug);
        push_str(&mut m, " — sync the project first");
        return Err(AppError::NotFound(m));
    }
    Ok(())
}

/// How the PTY attaches to a project's tmux window.
pub struct AttachPlan {
    pub program: String,
    pub args: Vec<String>,
    /// Variables removed from the inherited environment.
    pub env_remove: Vec<String>,
    /// Variables set.
    pub env_set: Vec<(String, String)>,
}

/// `tmux attach-session -t <session>:<window>`, run without `GITHUB_TOKEN` and with a
/// 256-colour, true-colour terminal.
pub open spec fn attach_args_spec(session: Seq<char>, window: Seq<char>) -> Seq<Seq<char>> {
    seq!["attach-session"@, "-t"@, session + ":"@ + window]
}

pub open spec fn attach_env_spec() -> Seq<(Seq<char>, Seq<char>)> {
    seq![("TERM"@, "xterm-256color"@), ("COLORTERM"@, "truecolor"@)]
}

/// The command that attaches a terminal to window `window` of tmux session `session`.
pub fn attach_plan(session: &str, window: &str) -> (r: AttachPlan)
    ensures
        r.program@ == "tmux"@,
        crate::text::views(r.args@) == attach_args_spec(session@, window@),
        crate::text::views(r.env_remove@) == seq!["GITHUB_TOKEN"@],
        crate::string_map::entry_views(r.env_set@) == attach_env_spec(),
{
    let mut target = owned(session);
    push_str(&mut target, ":");
    push_str(&mut target, window);
    let mut args: Vec<String> = Vec::new();
    args.push(owned("attach-session"));
    args.push(owned("-t"));
    args.push(target);
    let mut env_remove: Vec<String> = Vec::new();
    env_remove.push(owned("GITHUB_TOKEN"));
    let mut env_set: Vec<(String, String)> = Vec::new();
    env_set.push((owned("TERM"), owned("xterm-256color")));
    env_set.push((owned("COLORTERM"), owned("truecolor")));
    assert(crate::text::views(args@) =~= attach_args_spec(session@, window@));
    assert(crate::text::views(env_remove@) =~= seq!["GITHUB_TOKEN"@]);
    assert(crate::string_map::entry_views(env_set@) =~= attach_env_spec());
    AttachPlan { program: owned("tmux"), args, env_remove, env_set }
}

/// The new terminal size `(cols, rows)` asked for by a client message, when it gives
/// both and neither is zero.
pub fn resize_request(cols: Option<u16>, rows: Option<u16>) -> (r: Option<(u16, u16)>)
    ensures
        r == match (cols, rows) {
            (Some(c), Some(w)) => if c > 0 && w > 0 {
                Some((c, w))
            } else {
                None
            },
            _ => None,
        },
{
    match (cols, rows) {
        (Some(c), Some(w)) => if c > 0 && w > 0 {
            Some((c, w))
        } else {
            None
        },
        _ => None,
    }
}

/// How JSON writes one character inside a string literal: `"` and `\` behind a
/// backslash; backspace, form feed, newline, carriage return and tab as `\b`, `\f`,
/// `\n`, `\r`, `\t`; any other character below U+0020 as `\u00` and two lowercase
/// hex digits; every other character as it is.
pub open spec fn json_escape_char(c: char) -> Seq<char> {
    if c == '"' {
        seq!['\\', '"']
    } else if c == '\\' {
        seq!['\\', '\\']
    } else if c == '\u{8}' {
        seq!['\\', 'b']
    } else if c == '\u{c}' {
        seq!['\\', 'f']
    } else if c == '\n' {
        seq!['\\', 'n']
    } else if c == '\r' {
        seq!['\\', 'r']
    } else if c == '\t' {
        seq!['\\', 't']
    } else if (c as u32) < 0x20 {
        seq!['\\', 'u', '0', '0', hex_digit((c as u32 / 16) as nat), hex_digit((c as u32 % 16) as nat)]
    } else {
        seq![c]
    }
}

/// The characters of `s`, each written as inside a JSON string literal.
pub open spec fn json_escape(s: Seq<char>) -> Seq<char>
    decreases s.len(),
{
    if s.len() == 0 {
        Seq::empty()
    } else {
        json_escape(s.drop_last()) + json_escape_char(s.last())
    }
}

/// `s` as a JSON string literal: its escaped characters between double quotes.
pub open spec fn json_str_spec(s: Seq<char>) -> Seq<char> {
    seq!['"'] + json_escape(s) + seq!['"']
}

/// `s` as a JSON string literal (`serde_json::to_string` on a `&str`, which writes into a
/// `Vec` and so never fails).
#[verifier::external_body]
fn json_string(s: &str) -> (r: Option<String>)
    ensures
        r is Some,
        r->0@ == json_str_spec(s@),
{
    serde_json::to_string(s).ok()
}

/// A string as a JavaScript literal for the page script.
pub fn js_literal(s: &str) -> (r: String)
    ensures
        r@ == json_str_spec(s@),
{
    match json_string(s) {
        Some(j) => j,
        None => owned("\"\""),
    }
}

/// What the terminal page shows.
pub struct TerminalView {
    pub repo: String,
    pub agent: String,
    pub session: String,
    pub window_exists: bool,
    pub on_disk: bool,
    pub pane_label: String,
    pub repo_js: String,
    pub agent_js: String,
}

/// The terminal page of project `slug`'s `agent` pane. The window is only looked for
/// when the project is on disk.
pub fn terminal_view(slug: &str, agent: &str, session: &str, on_disk: bool, window_found: bool) -> (r: TerminalView)
    ensures
        r.repo@ == slug@,
        r.agent@ == agent@,
        r.pane_label@ == agent@,
        r.session@ == session@,
        r.on_disk == on_disk,
        r.window_exists == (on_disk && window_found),
        r.repo_js@ == json_str_spec(slug@),
        r.agent_js@ == json_str_spec(agent@),
{
    TerminalView {
        repo: owned(slug),
        agent: owned(agent),
        session: owned(session),
        window_exists: on_disk && window_found,
        on_disk,
        pane_label: owned(agent),
        repo_js: js_literal(slug),
        agent_js: js_literal(agent),
    }
}

} // verus!
