//! Idempotent tmux session/window/pane ensure, as a decision machine.
//!
//! The machine never asks for a pane, window or session to be killed or respawned,
//! and it only types a launch command into a pane that is alive and whose foreground
//! program is an idle shell. `GITHUB_TOKEN` is unset in tmux's global and session
//! environments before any launch.
//!
//! Every action is a `tmux` invocation; the caller runs it with `GITHUB_TOKEN` removed
//! from the child environment and hands back the outcome.

use vstd::prelude::*;

use crate::shell::{failure_message, CmdOutput, CmdOutputView};
use crate::text::{
    lines, lines_of, owned, push_char, push_str, split_once, split_once_str, str_eq, trim,
    trim_str, views,
};

verus! {

/// What an ensure did.
#[derive(Debug, Clone)]
pub struct TmuxEnsureResult {
    pub session: String,
    pub window: String,
    pub created_window: bool,
    pub panes_ensured: bool,
}

pub struct TmuxEnsureResultView {
    pub session: Seq<char>,
    pub window: Seq<char>,
    pub created_window: bool,
    pub panes_ensured: bool,
}

impl View for TmuxEnsureResult {
    type V = TmuxEnsureResultView;

    open spec fn view(&self) -> TmuxEnsureResultView {
        TmuxEnsureResultView {
            session: self.session@,
            window: self.window@,
            created_window: self.created_window,
            panes_ensured: self.panes_ensured,
        }
    }
}

// ---------------------------------------------------------------- output reading
/// Whether a line of `list-windows` output names `name`.
pub open spec fn names_window(lines: Seq<Seq<char>>, name: Seq<char>) -> bool {
    exists|i: int| 0 <= i < lines.len() && trim(#[trigger] lines[i]) == name
}

/// What `window_exists` concludes from a `list-windows -F #{window_name}` run.
pub open spec fn window_listed_spec(o: CmdOutputView, name: Seq<char>) -> bool {
    o.status == 0 && names_window(lines(o.stdout), name)
}

/// Whether the `list-windows` outcome `o` lists a window named `name`.
pub fn window_listed(o: &CmdOutput, name: &str) -> (r: bool)
    ensures
        r == window_listed_spec(o@, name@),
{
    if !o.success() {
        return false;
    }
    let ls = lines_of(o.stdout.as_str());
    let mut i: usize = 0;
    while i < ls.len()
        invariant
            i <= ls@.len(),
            o.status == 0,
            views(ls@) == lines(o.stdout@),
            forall|j: int| 0 <= j < i ==> trim(#[trigger] views(ls@)[j]) != name@,
        decreases ls@.len() - i,
    {
        let t = trim_str(ls[i].as_str());
        if str_eq(t.as_str(), name) {
            assert(trim(lines(o.stdout@)[i as int]) == name@);
            return true;
        }
        i += 1;
    }
    false
}

/// Whether a line of `show-environment` output sets or marks `GITHUB_TOKEN`.
pub open spec fn token_line(l: Seq<char>) -> bool {
    "GITHUB_TOKEN="@.is_prefix_of(l) || trim(l) == "GITHUB_TOKEN"@
}

/// What a `show-environment -t <session>` run says of the session's environment: it
/// still holds `GITHUB_TOKEN` (a failed run says it does not).
pub open spec fn token_listed_spec(o: CmdOutputView) -> bool {
    o.status == 0 && exists|i: int| 0 <= i < lines(o.stdout).len() && token_line(#[trigger] lines(o.stdout)[i])
}

/// Whether the `show-environment` outcome `o` shows `GITHUB_TOKEN` in the session.
pub fn session_has_github_token(o: &CmdOutput) -> (r: bool)
    ensures
        r == token_listed_spec(o@),
{
    if !o.success() {
        return false;
    }
    let ls = lines_of(o.stdout.as_str());
    let mut i: usize = 0;
    while i < ls.len()
        invariant
            i <= ls@.len(),
            o.status == 0,
            views(ls@) == lines(o.stdout@),
            forall|j: int| 0 <= j < i ==> !token_line(#[trigger] views(ls@)[j]),
        decreases ls@.len() - i,
    {
        let t = trim_str(ls[i].as_str());
        if crate::text::starts_with(ls[i].as_str(), "GITHUB_TOKEN=") || str_eq(t.as_str(), "GITHUB_TOKEN") {
            assert(views(ls@)[i as int] == ls@[i as int]@);
            assert(0 <= i < lines(o.stdout@).len());
            assert(token_line(lines(o.stdout@)[i as int]));
            assert(o@.stdout == o.stdout@);
            assert(token_line(lines(o@.stdout)[i as int]));
            return true;
        }
        i += 1;
    }
    false
}

/// Number of lines that are not blank.
pub open spec fn count_nonblank(ls: Seq<Seq<char>>) -> nat
    decreases ls.len(),
{
    if ls.len() == 0 {
        0
    } else {
        count_nonblank(ls.drop_last()) + if trim(ls.last()).len() > 0 {
            1nat
        } else {
            0nat
        }
    }
}

/// Number of non-blank lines of `s` (`pane_count` on `list-panes` output).
pub fn count_nonblank_lines(s: &str) -> (r: usize)
    ensures
        r == count_nonblank(lines(s@)),
{
    let ls = lines_of(s);
    let mut n: usize = 0;
    let mut i: usize = 0;
    while i < ls.len()
        invariant
            i <= ls@.len(),
            views(ls@) == lines(s@),
            n == count_nonblank(views(ls@).subrange(0, i as int)),
            n <= i,
        decreases ls@.len() - i,
    {
        let t = trim_str(ls[i].as_str());
        assert(views(ls@).subrange(0, i + 1).drop_last() == views(ls@).subrange(0, i as int));
        if !t.as_str().is_empty() {
            n += 1;
        }
        i += 1;
    }
    assert(views(ls@).subrange(0, ls@.len() as int) == views(ls@));
    n
}

/// Programs that mark a pane as an idle shell, ready for a launch.
pub open spec fn is_idle_spec(cmd: Seq<char>) -> bool {
    cmd == "bash"@ || cmd == "zsh"@ || cmd == "sh"@ || cmd == "fish"@ || cmd == "tmux"@ || cmd
        == ""@
}

pub fn is_idle_command(cmd: &str) -> (r: bool)
    ensures
        r == is_idle_spec(cmd@),
{
    str_eq(cmd, "bash") || str_eq(cmd, "zsh") || str_eq(cmd, "sh") || str_eq(cmd, "fish")
        || str_eq(cmd, "tmux") || str_eq(cmd, "")
}

/// Whether a `list-panes -F #{pane_dead}` outcome says the pane is gone: the run
/// failed, or it printed `1`.
pub open spec fn pane_dead_spec(o: CmdOutputView) -> bool {
    o.status != 0 || trim(o.stdout) == "1"@
}

pub fn pane_dead_from(o: &CmdOutput) -> (r: bool)
    ensures
        r == pane_dead_spec(o@),
{
    if !o.success() {
        return true;
    }
    let t = trim_str(o.stdout.as_str());
    str_eq(t.as_str(), "1")
}

/// `s` with each `'` written as `'\''`.
pub open spec fn quote_body(s: Seq<char>) -> Seq<char>
    decreases s.len(),
{
    if s.len() == 0 {
        seq![]
    } else {
        quote_body(s.drop_last()) + if s.last() == '\'' {
            seq!['\'', '\\', '\'', '\'']
        } else {
            seq![s.last()]
        }
    }
}

/// `s` as one single-quoted POSIX shell word.
pub open spec fn shell_quote_spec(s: Seq<char>) -> Seq<char> {
    seq!['\''] + quote_body(s) + seq!['\'']
}

/// Quotes `s` as one single-quoted POSIX shell word.
pub fn shell_quote(s: &str) -> (r: String)
    ensures
        r@ == shell_quote_spec(s@),
{
    let v = crate::text::chars_of(s);
    let mut r = String::new();
    push_char(&mut r, '\'');
    let mut i: usize = 0;
    while i < v.len()
        invariant
            i <= v@.len(),
            r@ == seq!['\''] + quote_body(v@.subrange(0, i as int)),
        decreases v@.len() - i,
    {
        assert(v@.subrange(0, i + 1).drop_last() == v@.subrange(0, i as int));
        if v[i] == '\'' {
            push_char(&mut r, '\'');
            push_char(&mut r, '\\');
            push_char(&mut r, '\'');
            push_char(&mut r, '\'');
        } else {
            push_char(&mut r, v[i]);
        }
        i += 1;
    }
    push_char(&mut r, '\'');
    assert(v@.subrange(0, v@.len() as int) == v@);
    r
}

/// The line typed into a pane to start its agent: `cd '<cwd>' && exec <cmd>`.
pub open spec fn launch_spec(cwd: Seq<char>, cmd: Seq<char>) -> Seq<char> {
    "cd "@ + shell_quote_spec(cwd) + " && exec "@ + cmd
}

pub fn launch_command(cwd: &str, cmd: &str) -> (r: String)
    ensures
        r@ == launch_spec(cwd@, cmd@),
{
    let mut r = owned("cd ");
    let q = shell_quote(cwd);
    push_str(&mut r, q.as_str());
    push_str(&mut r, " && exec ");
    push_str(&mut r, cmd);
    r
}

// ---------------------------------------------------------------- the machine
/// What the ensure is waiting for.
#[derive(Debug, Clone, Copy, PartialEq, Eq, Structural)]
pub enum TmuxPhase {
    /// `has-session`.
    HasSession,
    /// `new-session` with the project window.
    NewSession,
    /// `list-windows`, looking for the project window.
    ListWindows,
    /// `list-windows`, looking for the current legacy window name.
    ListLegacy,
    /// `rename-window` of the current legacy window.
    Rename,
    /// `new-window`.
    NewWindow,
    /// `set-environment -g -u GITHUB_TOKEN`.
    ScrubGlobal,
    /// `set-environment -t <session> -u GITHUB_TOKEN`.
    ScrubSession,
    /// `list-panes` to count the window's panes.
    ListPanes,
    /// `split-window` making the second pane.
    Split,
    /// `select-layout even-horizontal`.
    Layout,
    /// `list-panes -F #{pane_dead}` for the current pane.
    PaneDead,
    /// `list-panes -F #{pane_current_command}` for the current pane.
    PaneCommand,
    /// Global token scrub before a launch.
    LaunchScrubGlobal,
    /// Session token scrub before a launch.
    LaunchScrubSession,
    /// `send-keys` of the launch line into the current pane.
    SendKeys,
    /// Finished.
    Done,
    /// Stopped on an error.
    Failed,
}

/// What the caller must do next.
pub enum TmuxAction {
    /// Run `tmux` with these arguments (and `GITHUB_TOKEN` removed from its environment).
    Tmux { args: Vec<String> },
    /// The ensure is over.
    Finished { result: TmuxEnsureResult },
    /// The ensure stopped with this error.
    Failed { message: String },
}

#[verifier::ext_equal]
pub enum TmuxActionView {
    Tmux { args: Seq<Seq<char>> },
    Finished { result: TmuxEnsureResultView },
    Failed { message: Seq<char> },
}

impl View for TmuxAction {
    type V = TmuxActionView;

    open spec fn view(&self) -> TmuxActionView {
        match self {
            TmuxAction::Tmux { args } => TmuxActionView::Tmux { args: views(args@) },
            TmuxAction::Finished { result } => TmuxActionView::Finished { result: result@ },
            TmuxAction::Failed { message } => TmuxActionView::Failed { message: message@ },
        }
    }
}

/// The outcome of the last `tmux` run, or the text of a failure to start it.
pub type TmuxEvent = Result<CmdOutput, String>;

pub open spec fn event_view(e: Result<CmdOutput, String>) -> Result<CmdOutputView, Seq<char>> {
    match e {
        Ok(o) => Ok(o@),
        Err(m) => Err(m@),
    }
}

/// An ensure in progress.
pub struct TmuxMachine {
    session: String,
    window: String,
    cursor_cwd: String,
    opencode_cwd: String,
    cursor_cmd: String,
    opencode_cmd: String,
    legacy: Vec<String>,
    phase: TmuxPhase,
    legacy_idx: usize,
    created: bool,
    pane: usize,
    current: String,
    error: String,
}

/// The state of an ensure as plain values.
pub struct TmuxView {
    pub session: Seq<char>,
    pub window: Seq<char>,
    pub cursor_cwd: Seq<char>,
    pub opencode_cwd: Seq<char>,
    pub cursor_cmd: Seq<char>,
    pub opencode_cmd: Seq<char>,
    pub legacy: Seq<Seq<char>>,
    pub phase: TmuxPhase,
    pub legacy_idx: nat,
    pub created: bool,
    pub pane: nat,
    pub current: Seq<char>,
    pub error: Seq<char>,
}

impl View for TmuxMachine {
    type V = TmuxView;

    closed spec fn view(&self) -> TmuxView {
        TmuxView {
            session: self.session@,
            window: self.window@,
            cursor_cwd: self.cursor_cwd@,
            opencode_cwd: self.opencode_cwd@,
            cursor_cmd: self.cursor_cmd@,
            opencode_cmd: self.opencode_cmd@,
            legacy: views(self.legacy@),
            phase: self.phase,
            legacy_idx: self.legacy_idx as nat,
            created: self.created,
            pane: self.pane as nat,
            current: self.current@,
            error: self.error@,
        }
    }
}

/// `<session>:<window>`.
pub open spec fn target_of(m: TmuxView) -> Seq<char> {
    m.session + ":"@ + m.window
}

/// `<session>:<window>.<pane>`.
pub open spec fn pane_target(m: TmuxView) -> Seq<char> {
    target_of(m) + "."@ + (if m.pane == 0 { "0"@ } else { "1"@ })
}

/// The session part of the window target: what precedes its first `:`.
pub open spec fn target_session(m: TmuxView) -> Seq<char> {
    match split_once(target_of(m), ':') {
        Some((a, _)) => a,
        None => target_of(m),
    }
}

pub open spec fn pane_cwd(m: TmuxView) -> Seq<char> {
    if m.pane == 0 {
        m.cursor_cwd
    } else {
        m.opencode_cwd
    }
}

pub open spec fn pane_cmd(m: TmuxView) -> Seq<char> {
    if m.pane == 0 {
        m.cursor_cmd
    } else {
        m.opencode_cmd
    }
}

pub open spec fn list_windows_args(m: TmuxView) -> Seq<Seq<char>> {
    seq!["list-windows"@, "-t"@, m.session, "-F"@, "#{window_name}"@]
}

pub open spec fn scrub_global_args() -> Seq<Seq<char>> {
    seq!["set-environment"@, "-g"@, "-u"@, "GITHUB_TOKEN"@]
}

pub open spec fn scrub_session_args(session: Seq<char>) -> Seq<Seq<char>> {
    seq!["set-environment"@, "-t"@, session, "-u"@, "GITHUB_TOKEN"@]
}

/// The `tmux` arguments of the action a machine in state `m` waits on.
pub open spec fn tmux_args(m: TmuxView) -> Seq<Seq<char>> {
    match m.phase {
        TmuxPhase::HasSession => seq!["has-session"@, "-t"@, m.session],
        TmuxPhase::NewSession => seq![
            "new-session"@,
            "-d"@,
            "-s"@,
            m.session,
            "-n"@,
            m.window,
            "-c"@,
            m.cursor_cwd,
        ],
        TmuxPhase::ListWindows | TmuxPhase::ListLegacy => list_windows_args(m),
        TmuxPhase::Rename => seq![
            "rename-window"@,
            "-t"@,
            m.session + ":"@ + m.legacy[m.legacy_idx as int],
            m.window,
        ],
        TmuxPhase::NewWindow => seq![
            "new-window"@,
            "-t"@,
            m.session,
            "-n"@,
            m.window,
            "-c"@,
            m.cursor_cwd,
        ],
        TmuxPhase::ScrubGlobal | TmuxPhase::LaunchScrubGlobal => scrub_global_args(),
        TmuxPhase::ScrubSession => scrub_session_args(m.session),
        TmuxPhase::LaunchScrubSession => scrub_session_args(target_session(m)),
        TmuxPhase::ListPanes => seq!["list-panes"@, "-t"@, target_of(m), "-F"@, "#{pane_id}"@],
        TmuxPhase::Split => seq![
            "split-window"@,
            "-t"@,
            target_of(m),
            "-h"@,
            "-c"@,
            m.opencode_cwd,
        ],
        TmuxPhase::Layout => seq!["select-layout"@, "-t"@, target_of(m), "even-horizontal"@],
        TmuxPhase::PaneDead => seq!["list-panes"@, "-t"@, pane_target(m), "-F"@, "#{pane_dead}"@],
        TmuxPhase::PaneCommand => seq![
            "list-panes"@,
            "-t"@,
            pane_target(m),
            "-F"@,
            "#{pane_current_command}"@,
        ],
        TmuxPhase::SendKeys => seq![
            "send-keys"@,
            "-t"@,
            pane_target(m),
            launch_spec(pane_cwd(m), pane_cmd(m)),
            "C-m"@,
        ],
        _ => seq![],
    }
}

/// The action a machine in state `m` waits on.
pub open spec fn tmux_pending_spec(m: TmuxView) -> TmuxActionView {
    match m.phase {
        TmuxPhase::Done => TmuxActionView::Finished {
            result: TmuxEnsureResultView {
                session: m.session,
                window: m.window,
                created_window: m.created,
                panes_ensured: true,
            },
        },
        TmuxPhase::Failed => TmuxActionView::Failed { message: m.error },
        _ => TmuxActionView::Tmux { args: tmux_args(m) },
    }
}

/// The first legacy name at or after `k` that differs from the project window, if any.
pub open spec fn next_legacy(legacy: Seq<Seq<char>>, window: Seq<char>, k: nat) -> Option<nat>
    decreases legacy.len() - k,
{
    if k >= legacy.len() {
        None
    } else if legacy[k as int] != window {
        Some(k)
    } else {
        next_legacy(legacy, window, k + 1)
    }
}

/// Try the legacy names from `k` on; make a new window when none is left.
pub open spec fn try_legacy(m: TmuxView, k: nat) -> TmuxView {
    match next_legacy(m.legacy, m.window, k) {
        Some(j) => TmuxView { phase: TmuxPhase::ListLegacy, legacy_idx: j, ..m },
        None => TmuxView { phase: TmuxPhase::NewWindow, ..m },
    }
}

pub open spec fn tmux_fail(m: TmuxView, msg: Seq<char>) -> TmuxView {
    TmuxView { phase: TmuxPhase::Failed, error: msg, ..m }
}

pub open spec fn goto(m: TmuxView, p: TmuxPhase) -> TmuxView {
    TmuxView { phase: p, ..m }
}

/// Go on with the next pane, or finish.
pub open spec fn next_pane(m: TmuxView) -> TmuxView {
    if m.pane == 0 {
        TmuxView { phase: TmuxPhase::PaneDead, pane: 1, ..m }
    } else {
        TmuxView { phase: TmuxPhase::Done, ..m }
    }
}

/// Continue with `next` when the run succeeded, otherwise stop with its error.
pub open spec fn tmux_checked(
    m: TmuxView,
    e: Result<CmdOutputView, Seq<char>>,
    label: Seq<char>,
    next: TmuxView,
) -> TmuxView {
    match e {
        Ok(o) => if o.status == 0 {
            next
        } else {
            tmux_fail(m, failure_message(label, o.status, o.stderr))
        },
        Err(msg) => tmux_fail(m, msg),
    }
}

/// The state after outcome `e` in state `m`.
pub open spec fn tmux_advance_spec(m: TmuxView, e: Result<CmdOutputView, Seq<char>>) -> TmuxView {
    match m.phase {
        TmuxPhase::HasSession => match e {
            Ok(o) => if o.status == 0 {
                goto(m, TmuxPhase::ListWindows)
            } else {
                goto(m, TmuxPhase::NewSession)
            },
            Err(msg) => tmux_fail(m, msg),
        },
        TmuxPhase::NewSession => tmux_checked(
            m,
            e,
            "tmux new-session"@,
            TmuxView { phase: TmuxPhase::ScrubGlobal, created: true, ..m },
        ),
        TmuxPhase::ListWindows => match e {
            Ok(o) => if window_listed_spec(o, m.window) {
                goto(m, TmuxPhase::ScrubGlobal)
            } else {
                try_legacy(m, 0)
            },
            Err(msg) => tmux_fail(m, msg),
        },
        TmuxPhase::ListLegacy => match e {
            Ok(o) => if window_listed_spec(o, m.legacy[m.legacy_idx as int]) {
                goto(m, TmuxPhase::Rename)
            } else {
                try_legacy(m, m.legacy_idx + 1)
            },
            Err(msg) => tmux_fail(m, msg),
        },
        TmuxPhase::Rename => match e {
            Ok(o) => if o.status == 0 {
                goto(m, TmuxPhase::ScrubGlobal)
            } else {
                try_legacy(m, m.legacy_idx + 1)
            },
            Err(msg) => tmux_fail(m, msg),
        },
        TmuxPhase::NewWindow => tmux_checked(
            m,
            e,
            "tmux new-window"@,
            TmuxView { phase: TmuxPhase::ScrubGlobal, created: true, ..m },
        ),
        TmuxPhase::ScrubGlobal => goto(m, TmuxPhase::ScrubSession),
        TmuxPhase::ScrubSession => goto(m, TmuxPhase::ListPanes),
        TmuxPhase::ListPanes => match e {
            Ok(o) => if o.status == 0 {
                if count_nonblank(lines(o.stdout)) < 2 {
                    goto(m, TmuxPhase::Split)
                } else {
                    goto(m, TmuxPhase::Layout)
                }
            } else {
                tmux_fail(m, failure_message("tmux list-panes"@, o.status, o.stderr))
            },
            Err(msg) => tmux_fail(m, msg),
        },
        TmuxPhase::Split => tmux_checked(m, e, "tmux split-window"@, goto(m, TmuxPhase::Layout)),
        TmuxPhase::Layout => match e {
            Ok(_) => TmuxView { phase: TmuxPhase::PaneDead, pane: 0, ..m },
            Err(msg) => tmux_fail(m, msg),
        },
        TmuxPhase::PaneDead => match e {
            Ok(o) => if pane_dead_spec(o) {
                next_pane(m)
            } else {
                goto(m, TmuxPhase::PaneCommand)
            },
            Err(msg) => tmux_fail(m, msg),
        },
        TmuxPhase::PaneCommand => {
            let current = match e {
                Ok(o) => if o.status == 0 {
                    trim(o.stdout)
                } else {
                    seq![]
                },
                Err(_) => seq![],
            };
            if is_idle_spec(current) {
                TmuxView { phase: TmuxPhase::LaunchScrubGlobal, current, ..m }
            } else {
                next_pane(TmuxView { current, ..m })
            }
        },
        TmuxPhase::LaunchScrubGlobal => goto(m, TmuxPhase::LaunchScrubSession),
        TmuxPhase::LaunchScrubSession => goto(m, TmuxPhase::SendKeys),
        TmuxPhase::SendKeys => match e {
            Ok(o) => if o.status == 0 {
                next_pane(m)
            } else {
                tmux_fail(m, failure_message("tmux send-keys"@, o.status, o.stderr))
            },
            Err(_) => tmux_fail(m, "tmux send-keys"@),
        },
        TmuxPhase::Done | TmuxPhase::Failed => m,
    }
}

/// The state an ensure starts in.
pub open spec fn tmux_initial_spec(
    session: Seq<char>,
    window: Seq<char>,
    cursor_cwd: Seq<char>,
    opencode_cwd: Seq<char>,
    cursor_cmd: Seq<char>,
    opencode_cmd: Seq<char>,
    legacy: Seq<Seq<char>>,
) -> TmuxView {
    TmuxView {
        session,
        window,
        cursor_cwd,
        opencode_cwd,
        cursor_cmd,
        opencode_cmd,
        legacy,
        phase: TmuxPhase::HasSession,
        legacy_idx: 0,
        created: false,
        pane: 0,
        current: seq![],
        error: seq![],
    }
}

/// What holds of every state an ensure passes through.
pub open spec fn tmux_inv(m: TmuxView) -> bool {
    &&& m.pane <= 1
    &&& (m.phase == TmuxPhase::ListLegacy || m.phase == TmuxPhase::Rename) ==> m.legacy_idx
        < m.legacy.len() && m.legacy[m.legacy_idx as int] != m.window
    &&& (m.phase == TmuxPhase::LaunchScrubGlobal || m.phase == TmuxPhase::LaunchScrubSession
        || m.phase == TmuxPhase::SendKeys) ==> is_idle_spec(m.current)
}

proof fn lemma_next_legacy(legacy: Seq<Seq<char>>, window: Seq<char>, k: nat)
    ensures
        next_legacy(legacy, window, k) matches Some(j) ==> k <= j < legacy.len() && legacy[j as int]
            != window,
    decreases legacy.len() - k,
{
    if k < legacy.len() && legacy[k as int] == window {
        lemma_next_legacy(legacy, window, k + 1);
    }
}

/// Every step of an ensure keeps [`tmux_inv`]: a launch line is only ever typed into a
/// pane whose foreground program was just seen to be an idle shell.
pub proof fn lemma_tmux_step_keeps_invariant(m: TmuxView, e: Result<CmdOutputView, Seq<char>>)
    requires
        tmux_inv(m),
    ensures
        tmux_inv(tmux_advance_spec(m, e)),
{
    lemma_next_legacy(m.legacy, m.window, 0);
    lemma_next_legacy(m.legacy, m.window, m.legacy_idx + 1);
}

/// The state after the outcomes `es`, taken in turn from state `m`.
pub open spec fn tmux_run_spec(m: TmuxView, es: Seq<Result<CmdOutputView, Seq<char>>>) -> TmuxView
    decreases es.len(),
{
    if es.len() == 0 {
        m
    } else {
        tmux_run_spec(tmux_advance_spec(m, es[0]), es.drop_first())
    }
}

/// Whether outcome `e`, in state `m`, is that of a session that exists and already holds
/// the project window.
pub open spec fn window_present_answer(m: TmuxView, e: Result<CmdOutputView, Seq<char>>) -> bool {
    match m.phase {
        TmuxPhase::HasSession => e matches Ok(o) && o.status == 0,
        TmuxPhase::ListWindows => e matches Ok(o) && window_listed_spec(o, m.window),
        _ => true,
    }
}

/// Whether every one of `es`, taken in turn from state `m`, is such an outcome.
pub open spec fn window_present_run(m: TmuxView, es: Seq<Result<CmdOutputView, Seq<char>>>) -> bool
    decreases es.len(),
{
    es.len() == 0 || (window_present_answer(m, es[0]) && window_present_run(
        tmux_advance_spec(m, es[0]),
        es.drop_first(),
    ))
}

/// What an ensure keeps while the session and the window are reported present.
pub open spec fn window_kept_inv(m: TmuxView) -> bool {
    &&& !m.created
    &&& m.phase != TmuxPhase::NewSession
    &&& m.phase != TmuxPhase::ListLegacy
    &&& m.phase != TmuxPhase::Rename
    &&& m.phase != TmuxPhase::NewWindow
}

proof fn lemma_window_kept_run(m: TmuxView, es: Seq<Result<CmdOutputView, Seq<char>>>)
    requires
        window_kept_inv(m),
        window_present_run(m, es),
    ensures
        window_kept_inv(tmux_run_spec(m, es)),
    decreases es.len(),
{
    if es.len() > 0 {
        lemma_window_kept_run(tmux_advance_spec(m, es[0]), es.drop_first());
    }
}

/// Ensuring the window again once it exists adds nothing: when `tmux` reports the session
/// and the project window present, the ensure never creates a session or a window nor
/// renames one, and if it finishes it reports no window created.
pub proof fn lemma_ensure_again_creates_nothing(
    session: Seq<char>,
    window: Seq<char>,
    cursor_cwd: Seq<char>,
    opencode_cwd: Seq<char>,
    cursor_cmd: Seq<char>,
    opencode_cmd: Seq<char>,
    legacy: Seq<Seq<char>>,
    es: Seq<Result<CmdOutputView, Seq<char>>>,
)
    requires
        window_present_run(
            tmux_initial_spec(session, window, cursor_cwd, opencode_cwd, cursor_cmd, opencode_cmd, legacy),
            es,
        ),
    ensures
        ({
            let m = tmux_run_spec(
                tmux_initial_spec(session, window, cursor_cwd, opencode_cwd, cursor_cmd, opencode_cmd, legacy),
                es,
            );
            &&& window_kept_inv(m)
            &&& tmux_pending_spec(m) matches TmuxActionView::Finished { result } ==> !result.created_window
        }),
{
    let m0 = tmux_initial_spec(session, window, cursor_cwd, opencode_cwd, cursor_cmd, opencode_cmd, legacy);
    lemma_window_kept_run(m0, es);
}

/// The window always gets its second pane: after `list-panes` succeeds listing fewer than
/// two panes (non-blank lines), the next `tmux` run is `split-window` of the project
/// window, horizontally, in the opencode directory; with two or more panes listed, no
/// split is made and the layout is set next. A successful split is followed by setting
/// the layout.
pub proof fn lemma_split_when_fewer_than_two_panes(m: TmuxView, o: CmdOutputView)
    requires
        m.phase == TmuxPhase::ListPanes,
        o.status == 0,
    ensures
        ({
            let n = tmux_advance_spec(m, Ok(o));
            &&& count_nonblank(lines(o.stdout)) < 2 ==> tmux_pending_spec(n) == TmuxActionView::Tmux {
                args: seq![
                    "split-window"@,
                    "-t"@,
                    m.session + ":"@ + m.window,
                    "-h"@,
                    "-c"@,
                    m.opencode_cwd,
                ],
            }
            &&& count_nonblank(lines(o.stdout)) >= 2 ==> tmux_pending_spec(n) == TmuxActionView::Tmux {
                args: seq!["select-layout"@, "-t"@, m.session + ":"@ + m.window, "even-horizontal"@],
            }
        }),
{
}

/// After the second pane is split off successfully, the layout is set next.
pub proof fn lemma_split_then_layout(m: TmuxView, o: CmdOutputView)
    requires
        m.phase == TmuxPhase::Split,
        o.status == 0,
    ensures
        tmux_pending_spec(tmux_advance_spec(m, Ok(o))) == (TmuxActionView::Tmux {
            args: seq!["select-layout"@, "-t"@, m.session + ":"@ + m.window, "even-horizontal"@],
        }),
{
}

/// The only `tmux` subcommands an ensure ever runs. None of them kills or respawns a
/// session, window or pane.
pub open spec fn allowed_subcommand(c: Seq<char>) -> bool {
    c == "has-session"@ || c == "new-session"@ || c == "list-windows"@ || c == "rename-window"@
        || c == "new-window"@ || c == "set-environment"@ || c == "list-panes"@ || c
        == "split-window"@ || c == "select-layout"@ || c == "send-keys"@
}

/// Every `tmux` run an ensure asks for uses one of [`allowed_subcommand`].
pub proof fn lemma_only_allowed_subcommands(m: TmuxView)
    ensures
        tmux_pending_spec(m) matches TmuxActionView::Tmux { args } ==> args.len() > 0
            && allowed_subcommand(args[0]),
{
}

/// Keys are only typed into a pane right after the token was unset in the pane's session,
/// and only when that pane runs an idle shell.
pub proof fn lemma_send_keys_only_after_scrub(m: TmuxView, e: Result<CmdOutputView, Seq<char>>)
    requires
        tmux_inv(m),
        tmux_advance_spec(m, e).phase == TmuxPhase::SendKeys,
    ensures
        m.phase == TmuxPhase::LaunchScrubSession,
        is_idle_spec(m.current),
{
}

// ---------------------------------------------------------------- execution
fn cat3(a: &str, b: &str, c: &str) -> (r: String)
    ensures
        r@ == a@ + b@ + c@,
{
    let mut r = owned(a);
    push_str(&mut r, b);
    push_str(&mut r, c);
    r
}

fn strings(parts: &[&str]) -> (r: Vec<String>)
    ensures
        views(r@) == parts@.map_values(|p: &str| p@),
{
    let mut r: Vec<String> = Vec::new();
    let mut i: usize = 0;
    while i < parts.len()
        invariant
            i <= parts@.len(),
            views(r@) == parts@.subrange(0, i as int).map_values(|p: &str| p@),
        decreases parts@.len() - i,
    {
        let ghost before = views(r@);
        r.push(owned(parts[i]));
        assert(views(r@) == before.push(parts@[i as int]@));
        assert(parts@.subrange(0, i + 1) == parts@.subrange(0, i as int).push(parts@[i as int]));
        assert(parts@.subrange(0, i + 1).map_values(|p: &str| p@) == parts@.subrange(
            0,
            i as int,
        ).map_values(|p: &str| p@).push(parts@[i as int]@));
        i += 1;
    }
    assert(parts@.subrange(0, parts@.len() as int) == parts@);
    r
}

fn copy_strings(v: &Vec<String>) -> (r: Vec<String>)
    ensures
        views(r@) == views(v@),
{
    let mut r: Vec<String> = Vec::new();
    let mut i: usize = 0;
    while i < v.len()
        invariant
            i <= v@.len(),
            views(r@) == views(v@.subrange(0, i as int)),
        decreases v@.len() - i,
    {
        let ghost before = views(r@);
        r.push(v[i].clone());
        assert(views(r@) == before.push(v@[i as int]@));
        assert(v@.subrange(0, i + 1) == v@.subrange(0, i as int).push(v@[i as int]));
        assert(views(v@.subrange(0, i + 1)) == views(v@.subrange(0, i as int)).push(v@[i as int]@));
        i += 1;
    }
    assert(v@.subrange(0, v@.len() as int) == v@);
    r
}

impl TmuxMachine {
    /// Whether the machine is in a state every step keeps.
    pub closed spec fn wf(&self) -> bool {
        tmux_inv(self@)
    }

    /// An ensure of window `window` in `session`: pane 0 runs `cursor_cmd` in
    /// `cursor_cwd`, pane 1 runs `opencode_cmd` in `opencode_cwd`. A window under one of
    /// the `legacy` names is renamed rather than duplicated. Gives the first action.
    pub fn start(
        session: &str,
        window: &str,
        cursor_cwd: &str,
        opencode_cwd: &str,
        cursor_cmd: &str,
        opencode_cmd: &str,
        legacy: &Vec<String>,
    ) -> (r: (TmuxMachine, TmuxAction))
        ensures
            r.0@ == tmux_initial_spec(
                session@,
                window@,
                cursor_cwd@,
                opencode_cwd@,
                cursor_cmd@,
                opencode_cmd@,
                views(legacy@),
            ),
            r.0.wf(),
            r.1@ == tmux_pending_spec(r.0@),
    {
        let m = TmuxMachine {
            session: owned(session),
            window: owned(window),
            cursor_cwd: owned(cursor_cwd),
            opencode_cwd: owned(opencode_cwd),
            cursor_cmd: owned(cursor_cmd),
            opencode_cmd: owned(opencode_cmd),
            legacy: copy_strings(legacy),
            phase: TmuxPhase::HasSession,
            legacy_idx: 0,
            created: false,
            pane: 0,
            current: String::new(),
            error: String::new(),
        };
        let a = m.pending();
        (m, a)
    }

    /// The phase the machine is in.
    pub fn phase(&self) -> (r: TmuxPhase)
        ensures
            r == self@.phase,
    {
        self.phase
    }

    fn pane_target(&self) -> (r: String)
        requires
            self.wf(),
        ensures
            r@ == pane_target(self@),
    {
        let t = cat3(self.session.as_str(), ":", self.window.as_str());
        let p = if self.pane == 0 {
            "0"
        } else {
            "1"
        };
        cat3(t.as_str(), ".", p)
    }

    /// The action the machine waits on.
    pub fn pending(&self) -> (r: TmuxAction)
        requires
            self.wf(),
        ensures
            r@ == tmux_pending_spec(self@),
    {
        let target = cat3(self.session.as_str(), ":", self.window.as_str());
        let s = self.session.as_str();
        let w = self.window.as_str();
        let args = match self.phase {
            TmuxPhase::HasSession => strings(&["has-session", "-t", s]),
            TmuxPhase::NewSession => strings(
                &["new-session", "-d", "-s", s, "-n", w, "-c", self.cursor_cwd.as_str()],
            ),
            TmuxPhase::ListWindows | TmuxPhase::ListLegacy => strings(
                &["list-windows", "-t", s, "-F", "#{window_name}"],
            ),
            TmuxPhase::Rename => {
                let old = cat3(s, ":", self.legacy[self.legacy_idx].as_str());
                strings(&["rename-window", "-t", old.as_str(), w])
            },
            TmuxPhase::NewWindow => strings(
                &["new-window", "-t", s, "-n", w, "-c", self.cursor_cwd.as_str()],
            ),
            TmuxPhase::ScrubGlobal | TmuxPhase::LaunchScrubGlobal => strings(
                &["set-environment", "-g", "-u", "GITHUB_TOKEN"],
            ),
            TmuxPhase::ScrubSession => strings(&["set-environment", "-t", s, "-u", "GITHUB_TOKEN"]),
            TmuxPhase::LaunchScrubSession => {
                let sess = match split_once_str(target.as_str(), ':') {
                    Some((a, _)) => a,
                    None => target.clone(),
                };
                strings(&["set-environment", "-t", sess.as_str(), "-u", "GITHUB_TOKEN"])
            },
            TmuxPhase::ListPanes => strings(
                &["list-panes", "-t", target.as_str(), "-F", "#{pane_id}"],
            ),
            TmuxPhase::Split => strings(
                &["split-window", "-t", target.as_str(), "-h", "-c", self.opencode_cwd.as_str()],
            ),
            TmuxPhase::Layout => strings(&["select-layout", "-t", target.as_str(), "even-horizontal"]),
            TmuxPhase::PaneDead => {
                let pt = self.pane_target();
                strings(&["list-panes", "-t", pt.as_str(), "-F", "#{pane_dead}"])
            },
            TmuxPhase::PaneCommand => {
                let pt = self.pane_target();
                strings(&["list-panes", "-t", pt.as_str(), "-F", "#{pane_current_command}"])
            },
            TmuxPhase::SendKeys => {
                let pt = self.pane_target();
                let launch = if self.pane == 0 {
                    launch_command(self.cursor_cwd.as_str(), self.cursor_cmd.as_str())
                } else {
                    launch_command(self.opencode_cwd.as_str(), self.opencode_cmd.as_str())
                };
                strings(&["send-keys", "-t", pt.as_str(), launch.as_str(), "C-m"])
            },
            TmuxPhase::Done => {
                return TmuxAction::Finished {
                    result: TmuxEnsureResult {
                        session: self.session.clone(),
                        window: self.window.clone(),
                        created_window: self.created,
                        panes_ensured: true,
                    },
                };
            },
            TmuxPhase::Failed => {
                return TmuxAction::Failed { message: self.error.clone() };
            },
        };
        TmuxAction::Tmux { args }
    }

    fn fail(self, msg: String) -> (r: TmuxMachine)
        ensures
            r@ == tmux_fail(self@, msg@),
    {
        let mut m = self;
        m.phase = TmuxPhase::Failed;
        m.error = msg;
        m
    }

    fn goto(self, p: TmuxPhase) -> (r: TmuxMachine)
        ensures
            r@ == goto(self@, p),
    {
        let mut m = self;
        m.phase = p;
        m
    }

    fn next_pane(self) -> (r: TmuxMachine)
        ensures
            r@ == next_pane(self@),
    {
        let mut m = self;
        if m.pane == 0 {
            m.phase = TmuxPhase::PaneDead;
            m.pane = 1;
        } else {
            m.phase = TmuxPhase::Done;
        }
        m
    }

    fn try_legacy(self, k: usize) -> (r: TmuxMachine)
        requires
            k <= self@.legacy.len(),
        ensures
            r@ == try_legacy(self@, k as nat),
    {
        let mut j = k;
        while j < self.legacy.len() && str_eq(self.legacy[j].as_str(), self.window.as_str())
            invariant
                k <= j <= self@.legacy.len(),
                next_legacy(self@.legacy, self@.window, k as nat) == next_legacy(
                    self@.legacy,
                    self@.window,
                    j as nat,
                ),
            decreases self@.legacy.len() - j,
        {
            assert(self.legacy@[j as int]@ == self@.legacy[j as int]);
            j += 1;
        }
        let mut m = self;
        if j < m.legacy.len() {
            assert(m.legacy@[j as int]@ == m@.legacy[j as int]);
            m.phase = TmuxPhase::ListLegacy;
            m.legacy_idx = j;
        } else {
            m.phase = TmuxPhase::NewWindow;
        }
        m
    }

    fn checked(self, e: Result<CmdOutput, String>, label: &str, next: TmuxPhase) -> (r: (
        TmuxMachine,
        bool,
    ))
        ensures
            r.0@ == tmux_checked(self@, event_view(e), label@, goto(self@, next)),
            r.1 == (e matches Ok(o) && o.status == 0),
    {
        match e {
            Ok(o) => match o.ensure_success(label) {
                Ok(()) => (self.goto(next), true),
                Err(msg) => (self.fail(msg), false),
            },
            Err(msg) => (self.fail(msg), false),
        }
    }

    /// Hands the outcome of the pending `tmux` run to the machine; gives its next state
    /// and the action that state waits on.
    pub fn step(self, e: Result<CmdOutput, String>) -> (r: (TmuxMachine, TmuxAction))
        requires
            self.wf(),
        ensures
            r.0@ == tmux_advance_spec(self@, event_view(e)),
            r.0.wf(),
            r.1@ == tmux_pending_spec(r.0@),
    {
        proof {
            lemma_tmux_step_keeps_invariant(self@, event_view(e));
        }
        let m = self.advance(e);
        let a = m.pending();
        (m, a)
    }

    fn advance(self, e: Result<CmdOutput, String>) -> (r: TmuxMachine)
        requires
            self.wf(),
        ensures
            r@ == tmux_advance_spec(self@, event_view(e)),
    {
        match self.phase {
            TmuxPhase::HasSession => match e {
                Ok(o) => if o.success() {
                    self.goto(TmuxPhase::ListWindows)
                } else {
                    self.goto(TmuxPhase::NewSession)
                },
                Err(msg) => self.fail(msg),
            },
            TmuxPhase::NewSession => {
                let (mut m, ok) = self.checked(e, "tmux new-session", TmuxPhase::ScrubGlobal);
                if ok {
                    m.created = true;
                }
                m
            },
            TmuxPhase::ListWindows => match e {
                Ok(o) => if window_listed(&o, self.window.as_str()) {
                    self.goto(TmuxPhase::ScrubGlobal)
                } else {
                    self.try_legacy(0)
                },
                Err(msg) => self.fail(msg),
            },
            TmuxPhase::ListLegacy => match e {
                Ok(o) => {
                    assert(self.legacy_idx < self.legacy.len());
                    let found = window_listed(&o, self.legacy[self.legacy_idx].as_str());
                    if found {
                        self.goto(TmuxPhase::Rename)
                    } else {
                        let k = self.legacy_idx + 1;
                        self.try_legacy(k)
                    }
                },
                Err(msg) => self.fail(msg),
            },
            TmuxPhase::Rename => match e {
                Ok(o) => if o.success() {
                    self.goto(TmuxPhase::ScrubGlobal)
                } else {
                    assert(self.legacy_idx < self.legacy.len());
                    let k = self.legacy_idx + 1;
                    self.try_legacy(k)
                },
                Err(msg) => self.fail(msg),
            },
            TmuxPhase::NewWindow => {
                let (mut m, ok) = self.checked(e, "tmux new-window", TmuxPhase::ScrubGlobal);
                if ok {
                    m.created = true;
                }
                m
            },
            TmuxPhase::ScrubGlobal => self.goto(TmuxPhase::ScrubSession),
            TmuxPhase::ScrubSession => self.goto(TmuxPhase::ListPanes),
            TmuxPhase::ListPanes => match e {
                Ok(o) => match o.ensure_success("tmux list-panes") {
                    Ok(()) => if count_nonblank_lines(o.stdout.as_str()) < 2 {
                        self.goto(TmuxPhase::Split)
                    } else {
                        self.goto(TmuxPhase::Layout)
                    },
                    Err(msg) => self.fail(msg),
                },
                Err(msg) => self.fail(msg),
            },
            TmuxPhase::Split => self.checked(e, "tmux split-window", TmuxPhase::Layout).0,
            TmuxPhase::Layout => match e {
                Ok(_) => {
                    let mut m = self;
                    m.pane = 0;
                    m.goto(TmuxPhase::PaneDead)
                },
                Err(msg) => self.fail(msg),
            },
            TmuxPhase::PaneDead => match e {
                Ok(o) => if pane_dead_from(&o) {
                    self.next_pane()
                } else {
                    self.goto(TmuxPhase::PaneCommand)
                },
                Err(msg) => self.fail(msg),
            },
            TmuxPhase::PaneCommand => {
                let current = match e {
                    Ok(o) => if o.success() {
                        trim_str(o.stdout.as_str())
                    } else {
                        String::new()
                    },
                    Err(_) => String::new(),
                };
                let idle = is_idle_command(current.as_str());
                let mut m = self;
                m.current = current;
                if idle {
                    m.goto(TmuxPhase::LaunchScrubGlobal)
                } else {
                    m.next_pane()
                }
            },
            TmuxPhase::LaunchScrubGlobal => self.goto(TmuxPhase::LaunchScrubSession),
            TmuxPhase::LaunchScrubSession => self.goto(TmuxPhase::SendKeys),
            TmuxPhase::SendKeys => match e {
                Ok(o) => match o.ensure_success("tmux send-keys") {
                    Ok(()) => self.next_pane(),
                    Err(msg) => self.fail(msg),
                },
                Err(_) => self.fail(owned("tmux send-keys")),
            },
            TmuxPhase::Done | TmuxPhase::Failed => self,
        }
    }
}

/// An ensure that finds the project window already listed goes straight to the token
/// scrub: it neither creates nor renames a window, so re-running it adds no window.
pub proof fn lemma_existing_window_kept(m: TmuxView, o: CmdOutputView)
    requires
        m.phase == TmuxPhase::ListWindows,
        window_listed_spec(o, m.window),
    ensures
        tmux_advance_spec(m, Ok(o)).phase == TmuxPhase::ScrubGlobal,
        tmux_advance_spec(m, Ok(o)).created == m.created,
{
}

} // verus!
