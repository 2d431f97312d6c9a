//! Bare clone + worktree sync: paths, per-worktree outcomes, and the decision machine
//! that says which `git` command runs next.
//!
//! The caller runs each action the machine asks for (a path check, a directory
//! creation, or a `git` process) and hands the outcome back as an event.

use vstd::prelude::*;

use crate::text::{owned, parse_unsigned, parse_unsigned_str, push_str, words, words_of};

verus! {

/// What a sync did to one agent worktree.
#[derive(Debug, Clone, Copy, PartialEq, Eq, Structural)]
pub enum WorktreeAction {
    Created,
    FastForwarded,
    AlreadyUpToDate,
    SkippedDirty,
    SkippedDiverged,
}

/// The sync outcome for one agent worktree.
#[derive(Debug, Clone)]
pub struct WorktreeResult {
    pub agent: String,
    pub action: WorktreeAction,
    pub dirty: bool,
    pub diverged: bool,
}

pub struct WorktreeResultView {
    pub agent: Seq<char>,
    pub action: WorktreeAction,
    pub dirty: bool,
    pub diverged: bool,
}

impl View for WorktreeResult {
    type V = WorktreeResultView;

    open spec fn view(&self) -> WorktreeResultView {
        WorktreeResultView {
            agent: self.agent@,
            action: self.action,
            dirty: self.dirty,
            diverged: self.diverged,
        }
    }
}

/// Live state of one agent worktree relative to `origin/<default>`.
#[derive(Debug, Clone)]
pub struct WorktreeStatus {
    pub agent: String,
    pub branch: String,
    pub ahead: u32,
    pub behind: u32,
    pub dirty: bool,
    pub diverged: bool,
}

pub struct WorktreeStatusView {
    pub agent: Seq<char>,
    pub branch: Seq<char>,
    pub ahead: u32,
    pub behind: u32,
    pub dirty: bool,
    pub diverged: bool,
}

impl View for WorktreeStatus {
    type V = WorktreeStatusView;

    open spec fn view(&self) -> WorktreeStatusView {
        WorktreeStatusView {
            agent: self.agent@,
            branch: self.branch@,
            ahead: self.ahead,
            behind: self.behind,
            dirty: self.dirty,
            diverged: self.diverged,
        }
    }
}

// ---------------------------------------------------------------- paths
/// `Path::join` on Unix: an absolute `rel` replaces `base`; otherwise a `/` is put
/// between them unless `base` is empty or already ends in `/`.
pub open spec fn path_join(base: Seq<char>, rel: Seq<char>) -> Seq<char> {
    if rel.len() > 0 && rel[0] == '/' {
        rel
    } else if base.len() > 0 && base.last() != '/' {
        base + seq!['/'] + rel
    } else {
        base + rel
    }
}

/// `Path::join` on Unix, on strings.
pub fn join_path(base: &str, rel: &str) -> (r: String)
    ensures
        r@ == path_join(base@, rel@),
{
    let b = crate::text::chars_of(base);
    let r = crate::text::chars_of(rel);
    if r.len() > 0 && r[0] == '/' {
        return owned(rel);
    }
    let mut out = owned(base);
    if b.len() > 0 && b[b.len() - 1] != '/' {
        crate::text::push_char(&mut out, '/');
        assert(b@.last() == b@[b@.len() - 1]);
    }
    push_str(&mut out, rel);
    out
}

pub open spec fn project_dir_spec(projects_dir: Seq<char>, repo: Seq<char>) -> Seq<char> {
    path_join(projects_dir, repo)
}

pub open spec fn bare_dir_spec(projects_dir: Seq<char>, repo: Seq<char>) -> Seq<char> {
    path_join(project_dir_spec(projects_dir, repo), ".bare"@)
}

pub open spec fn worktree_dir_spec(projects_dir: Seq<char>, repo: Seq<char>, agent: Seq<char>) -> Seq<
    char,
> {
    path_join(project_dir_spec(projects_dir, repo), agent)
}

/// `<projects_dir>/<repo>`.
pub fn project_dir(projects_dir: &str, repo: &str) -> (r: String)
    ensures
        r@ == project_dir_spec(projects_dir@, repo@),
{
    join_path(projects_dir, repo)
}

/// `<projects_dir>/<repo>/.bare`, the bare clone.
pub fn bare_dir(projects_dir: &str, repo: &str) -> (r: String)
    ensures
        r@ == bare_dir_spec(projects_dir@, repo@),
{
    let p = project_dir(projects_dir, repo);
    join_path(p.as_str(), ".bare")
}

/// `<projects_dir>/<repo>/<agent>`, an agent worktree.
pub fn worktree_dir(projects_dir: &str, repo: &str, agent: &str) -> (r: String)
    ensures
        r@ == worktree_dir_spec(projects_dir@, repo@, agent@),
{
    let p = project_dir(projects_dir, repo);
    join_path(p.as_str(), agent)
}

/// The key of a project member: `<owner>__<name>`, unique across owners.
pub open spec fn member_key_spec(owner: Seq<char>, name: Seq<char>) -> Seq<char> {
    owner + "__"@ + name
}

/// `<owner>__<name>`, the directory name of a project member.
pub fn member_key(owner: &str, name: &str) -> (r: String)
    ensures
        r@ == member_key_spec(owner@, name@),
{
    let mut r = owned(owner);
    push_str(&mut r, "__");
    push_str(&mut r, name);
    r
}

/// `<project_dir>/.bares/<key>`, a member's bare clone.
pub open spec fn member_bare_spec(project_dir: Seq<char>, key: Seq<char>) -> Seq<char> {
    path_join(path_join(project_dir, ".bares"@), key)
}

/// `<project_dir>/<agent>`, the agent's workspace root: the parent of all its member
/// worktrees, and its pane's working directory.
pub open spec fn agent_root_spec(project_dir: Seq<char>, agent: Seq<char>) -> Seq<char> {
    path_join(project_dir, agent)
}

/// `<project_dir>/<agent>/<key>`, an agent's worktree of a member.
pub open spec fn member_worktree_spec(project_dir: Seq<char>, agent: Seq<char>, key: Seq<char>) -> Seq<
    char,
> {
    path_join(agent_root_spec(project_dir, agent), key)
}

/// `<project_dir>/.bares/<key>`.
pub fn member_bare_dir(project_dir: &str, key: &str) -> (r: String)
    ensures
        r@ == member_bare_spec(project_dir@, key@),
{
    let b = join_path(project_dir, ".bares");
    join_path(b.as_str(), key)
}

/// `<project_dir>/<agent>`.
pub fn agent_root(project_dir: &str, agent: &str) -> (r: String)
    ensures
        r@ == agent_root_spec(project_dir@, agent@),
{
    join_path(project_dir, agent)
}

/// `<project_dir>/<agent>/<key>`.
pub fn member_worktree_dir(project_dir: &str, agent: &str, key: &str) -> (r: String)
    ensures
        r@ == member_worktree_spec(project_dir@, agent@, key@),
{
    let a = agent_root(project_dir, agent);
    join_path(a.as_str(), key)
}

// ---------------------------------------------------------------- agents
/// Number of agent worktrees per repository.
pub open spec fn agent_count() -> nat {
    2
}

/// Name of agent `i` (its worktree directory).
pub open spec fn agent_name(i: nat) -> Seq<char> {
    if i == 0 {
        "cursor"@
    } else {
        "opencode"@
    }
}

/// Branch of agent `i`.
pub open spec fn agent_branch(i: nat) -> Seq<char> {
    if i == 0 {
        "agent/cursor"@
    } else {
        "agent/opencode"@
    }
}

pub fn agent_name_of(i: usize) -> (r: &'static str)
    ensures
        r@ == agent_name(i as nat),
{
    if i == 0 {
        "cursor"
    } else {
        "opencode"
    }
}

pub fn agent_branch_of(i: usize) -> (r: &'static str)
    ensures
        r@ == agent_branch(i as nat),
{
    if i == 0 {
        "agent/cursor"
    } else {
        "agent/opencode"
    }
}

// ---------------------------------------------------------------- credentials
/// Views of a list of environment entries.
pub open spec fn pair_views(v: Seq<(String, String)>) -> Seq<(Seq<char>, Seq<char>)> {
    v.map_values(|p: (String, String)| (p.0@, p.1@))
}

/// The environment that authenticates `git` over HTTPS for one process only
/// (an `http.extraHeader` given through `GIT_CONFIG_*`, never written to any config).
pub open spec fn auth_env_spec(token: Seq<char>) -> Seq<(Seq<char>, Seq<char>)> {
    seq![
        ("GIT_CONFIG_COUNT"@, "1"@),
        ("GIT_CONFIG_KEY_0"@, "http.extraHeader"@),
        ("GIT_CONFIG_VALUE_0"@, "Authorization: Bearer "@ + token),
    ]
}

pub fn auth_env(token: &str) -> (r: Vec<(String, String)>)
    ensures
        pair_views(r@) == auth_env_spec(token@),
{
    let mut header = owned("Authorization: Bearer ");
    push_str(&mut header, token);
    let r = vec![
        (owned("GIT_CONFIG_COUNT"), owned("1")),
        (owned("GIT_CONFIG_KEY_0"), owned("http.extraHeader")),
        (owned("GIT_CONFIG_VALUE_0"), header),
    ];
    assert(pair_views(r@) =~= auth_env_spec(token@));
    r
}

// ---------------------------------------------------------------- rev-list counts
/// Largest `u32`.
pub open spec fn u32_max() -> nat {
    0xffff_ffff
}

/// The `(ahead, behind)` pair printed by `git rev-list --left-right --count`: the first
/// two whitespace-separated words, each a `u32`.
pub open spec fn left_right_spec(s: Seq<char>) -> Option<(u32, u32)> {
    let w = words(s);
    if w.len() >= 2 && parse_unsigned(w[0], u32_max()) is Some && parse_unsigned(
        w[1],
        u32_max(),
    ) is Some {
        Some(
            (
                parse_unsigned(w[0], u32_max()).unwrap() as u32,
                parse_unsigned(w[1], u32_max()).unwrap() as u32,
            ),
        )
    } else {
        None
    }
}

/// Parses `git rev-list --left-right --count` output into `(ahead, behind)`.
pub fn parse_left_right(s: &str) -> (r: Result<(u32, u32), String>)
    ensures
        match r {
            Ok(p) => left_right_spec(s@) == Some(p),
            Err(_) => left_right_spec(s@) is None,
        },
        words(s@).len() == 0 ==> (r matches Err(m) && m@ == "rev-list empty"@),
        words(s@).len() == 1 && parse_unsigned(words(s@)[0], u32_max()) is Some ==> (r matches Err(m)
            && m@ == "rev-list missing behind"@),
{
    let w = words_of(s);
    if w.len() == 0 {
        return Err(owned("rev-list empty"));
    }
    assert(w@[0]@ == words(s@)[0]);
    let left = match parse_unsigned_str(w[0].as_str(), 0xffff_ffff) {
        Some(n) => n as u32,
        None => {
            return Err(owned("invalid digit found in string"));
        },
    };
    if w.len() < 2 {
        return Err(owned("rev-list missing behind"));
    }
    assert(w@[1]@ == words(s@)[1]);
    let right = match parse_unsigned_str(w[1].as_str(), 0xffff_ffff) {
        Some(n) => n as u32,
        None => {
            return Err(owned("invalid digit found in string"));
        },
    };
    Ok((left, right))
}

} // verus!
