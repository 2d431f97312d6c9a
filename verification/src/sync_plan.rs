//! The project sync as a decision machine.
//!
//! A sync makes or updates `<projects>/<repo>/.bare` (a bare clone) and the two agent
//! worktrees beside it. It never touches a worktree with local changes, and never
//! merges into one whose branch has diverged from `origin/<default>`: such trees are
//! reported and left as they are.
//!
//! [`SyncMachine::start`] gives the first action; [`SyncMachine::step`] takes the outcome
//! of the last action and gives the machine's next state and the next action. The
//! action to run is always [`pending_spec`] of the state the machine is in.

use vstd::prelude::*;

use crate::git::{
    WorktreeStatus, WorktreeStatusView, agent_branch, agent_branch_of, agent_count, agent_name, agent_name_of, bare_dir, bare_dir_spec,
    left_right_spec, member_bare_dir, member_bare_spec, member_worktree_dir, member_worktree_spec,
    parse_left_right, project_dir, project_dir_spec, worktree_dir,
    worktree_dir_spec, WorktreeAction, WorktreeResult, WorktreeResultView,
};
use crate::shell::{failure_message, CmdOutput, CmdOutputView};
use crate::text::{owned, push_str, str_eq, trim, trim_str, views};

verus! {

/// What the machine is waiting for.
#[derive(Debug, Clone, Copy, PartialEq, Eq, Structural)]
pub enum SyncPhase {
    /// Whether the bare clone exists.
    CheckBare,
    /// Creation of the project directory.
    CreateDir,
    /// `git clone --bare`.
    Clone,
    /// `git config remote.origin.fetch`.
    ConfigFetch,
    /// `git fetch origin`.
    Fetch,
    /// `git rev-parse --verify origin/<default>` in the bare clone.
    VerifyOrigin,
    /// `git update-ref` mirroring the local default branch as `origin/<default>`.
    UpdateOriginRef,
    /// Whether the current agent's worktree exists.
    CheckWorktree,
    /// `git rev-parse --verify <branch>` (its outcome is not used).
    VerifyBranch,
    /// `git show-ref --verify --quiet refs/heads/<branch>`.
    ShowRef,
    /// `git branch <branch> origin/<default>`.
    CreateBranch,
    /// `git worktree add`.
    AddWorktree,
    /// `git status --porcelain` in the worktree.
    Status,
    /// `git rev-parse --verify origin/<default>` in the worktree.
    VerifyUpstream,
    /// `git rev-list --left-right --count HEAD...origin/<default>`.
    RevList,
    /// `git rev-parse HEAD` before the merge.
    RevParseBefore,
    /// `git merge --ff-only origin/<default>`.
    Merge,
    /// `git rev-parse HEAD` after the merge.
    RevParseAfter,
    /// The sync finished.
    Done,
    /// The sync stopped on an error.
    Failed,
}

/// The outcome of the last action.
pub enum SyncEvent {
    /// Answer to `CheckExists`.
    Exists(bool),
    /// Answer to `CreateDirAll`: `Err` holds the I/O error text.
    DirCreated(Result<(), String>),
    /// Answer to `Git`: the process outcome, or the text of a failure to start it.
    Git(Result<CmdOutput, String>),
}

pub enum SyncEventView {
    Exists(bool),
    DirCreated(Result<(), Seq<char>>),
    Git(Result<CmdOutputView, Seq<char>>),
}

impl View for SyncEvent {
    type V = SyncEventView;

    open spec fn view(&self) -> SyncEventView {
        match self {
            SyncEvent::Exists(b) => SyncEventView::Exists(*b),
            SyncEvent::DirCreated(r) => SyncEventView::DirCreated(
                match r {
                    Ok(()) => Ok(()),
                    Err(m) => Err(m@),
                },
            ),
            SyncEvent::Git(r) => SyncEventView::Git(
                match r {
                    Ok(o) => Ok(o@),
                    Err(m) => Err(m@),
                },
            ),
        }
    }
}

/// What the caller must do next.
pub enum SyncAction {
    /// Report whether `path` exists.
    CheckExists { path: String },
    /// Create `path` and its parents.
    CreateDirAll { path: String },
    /// Run `git` with `args` in `cwd`; when `authenticated`, with the environment of
    /// [`crate::git::auth_env`] added.
    Git { args: Vec<String>, cwd: Option<String>, authenticated: bool },
    /// The sync is over: whether the bare clone was made now, whether it was fetched,
    /// and what happened to each worktree.
    Finished { created: bool, fetched: bool, results: Vec<WorktreeResult> },
    /// The sync stopped with this error.
    Failed { message: String },
}

pub enum SyncActionView {
    CheckExists { path: Seq<char> },
    CreateDirAll { path: Seq<char> },
    Git { args: Seq<Seq<char>>, cwd: Option<Seq<char>>, authenticated: bool },
    Finished { created: bool, fetched: bool, results: Seq<WorktreeResultView> },
    Failed { message: Seq<char> },
}

pub open spec fn result_views(s: Seq<WorktreeResult>) -> Seq<WorktreeResultView> {
    s.map_values(|r: WorktreeResult| r@)
}

pub open spec fn opt_view(o: Option<String>) -> Option<Seq<char>> {
    match o {
        Some(s) => Some(s@),
        None => None,
    }
}

impl View for SyncAction {
    type V = SyncActionView;

    open spec fn view(&self) -> SyncActionView {
        match self {
            SyncAction::CheckExists { path } => SyncActionView::CheckExists { path: path@ },
            SyncAction::CreateDirAll { path } => SyncActionView::CreateDirAll { path: path@ },
            SyncAction::Git { args, cwd, authenticated } => SyncActionView::Git {
                args: views(args@),
                cwd: opt_view(*cwd),
                authenticated: *authenticated,
            },
            SyncAction::Finished { created, fetched, results } => SyncActionView::Finished {
                created: *created,
                fetched: *fetched,
                results: result_views(results@),
            },
            SyncAction::Failed { message } => SyncActionView::Failed { message: message@ },
        }
    }
}

/// A sync in progress.
pub struct SyncMachine {
    projects_dir: String,
    repo: String,
    member: Option<String>,
    clone_url: String,
    default_branch: String,
    phase: SyncPhase,
    created: bool,
    agent: usize,
    dirty: bool,
    diverged: bool,
    before: String,
    results: Vec<WorktreeResult>,
    error: String,
}

/// The state of a sync as plain values.
pub struct SyncView {
    pub projects_dir: Seq<char>,
    pub repo: Seq<char>,
    /// The member's key inside project `repo`, or `None` for a repository on its own.
    pub member: Option<Seq<char>>,
    pub clone_url: Seq<char>,
    pub default_branch: Seq<char>,
    pub phase: SyncPhase,
    pub created: bool,
    pub agent: nat,
    pub dirty: bool,
    pub diverged: bool,
    pub before: Seq<char>,
    pub results: Seq<WorktreeResultView>,
    pub error: Seq<char>,
}

impl View for SyncMachine {
    type V = SyncView;

    closed spec fn view(&self) -> SyncView {
        SyncView {
            projects_dir: self.projects_dir@,
            repo: self.repo@,
            member: opt_view(self.member),
            clone_url: self.clone_url@,
            default_branch: self.default_branch@,
            phase: self.phase,
            created: self.created,
            agent: self.agent as nat,
            dirty: self.dirty,
            diverged: self.diverged,
            before: self.before@,
            results: result_views(self.results@),
            error: self.error@,
        }
    }
}

// ---------------------------------------------------------------- specification
pub open spec fn origin_ref(m: SyncView) -> Seq<char> {
    "origin/"@ + m.default_branch
}

/// The bare clone: `<projects_dir>/<repo>/.bare` for a repository on its own, and
/// `<projects_dir>/<project>/.bares/<key>` for a project member.
pub open spec fn bare_of(m: SyncView) -> Seq<char> {
    match m.member {
        None => bare_dir_spec(m.projects_dir, m.repo),
        Some(k) => member_bare_spec(project_dir_spec(m.projects_dir, m.repo), k),
    }
}

/// The current agent's worktree: `<projects_dir>/<repo>/<agent>` for a repository on
/// its own, and `<projects_dir>/<project>/<agent>/<key>` for a project member.
pub open spec fn wt_of(m: SyncView) -> Seq<char> {
    match m.member {
        None => worktree_dir_spec(m.projects_dir, m.repo, agent_name(m.agent)),
        Some(k) => member_worktree_spec(project_dir_spec(m.projects_dir, m.repo), agent_name(m.agent), k),
    }
}

pub open spec fn git_in(args: Seq<Seq<char>>, cwd: Seq<char>) -> SyncActionView {
    SyncActionView::Git { args, cwd: Some(cwd), authenticated: false }
}

/// The action a machine in state `m` waits on.
pub open spec fn pending_spec(m: SyncView) -> SyncActionView {
    let branch = agent_branch(m.agent);
    match m.phase {
        SyncPhase::CheckBare => SyncActionView::CheckExists { path: bare_of(m) },
        SyncPhase::CreateDir => SyncActionView::CreateDirAll {
            path: project_dir_spec(m.projects_dir, m.repo),
        },
        SyncPhase::Clone => SyncActionView::Git {
            args: seq!["clone"@, "--bare"@, m.clone_url, bare_of(m)],
            cwd: None,
            authenticated: true,
        },
        SyncPhase::ConfigFetch => git_in(
            seq!["config"@, "remote.origin.fetch"@, "+refs/heads/*:refs/remotes/origin/*"@],
            bare_of(m),
        ),
        SyncPhase::Fetch => SyncActionView::Git {
            args: seq!["fetch"@, "origin"@],
            cwd: Some(bare_of(m)),
            authenticated: true,
        },
        SyncPhase::VerifyOrigin => git_in(
            seq!["rev-parse"@, "--verify"@, origin_ref(m)],
            bare_of(m),
        ),
        SyncPhase::UpdateOriginRef => git_in(
            seq![
                "update-ref"@,
                "refs/remotes/origin/"@ + m.default_branch,
                "refs/heads/"@ + m.default_branch,
            ],
            bare_of(m),
        ),
        SyncPhase::CheckWorktree => SyncActionView::CheckExists { path: wt_of(m) },
        SyncPhase::VerifyBranch => git_in(seq!["rev-parse"@, "--verify"@, branch], bare_of(m)),
        SyncPhase::ShowRef => git_in(
            seq!["show-ref"@, "--verify"@, "--quiet"@, "refs/heads/"@ + branch],
            bare_of(m),
        ),
        SyncPhase::CreateBranch => git_in(seq!["branch"@, branch, origin_ref(m)], bare_of(m)),
        SyncPhase::AddWorktree => git_in(
            seq!["worktree"@, "add"@, wt_of(m), branch],
            bare_of(m),
        ),
        SyncPhase::Status => git_in(seq!["status"@, "--porcelain"@], wt_of(m)),
        SyncPhase::VerifyUpstream => git_in(
            seq!["rev-parse"@, "--verify"@, origin_ref(m)],
            wt_of(m),
        ),
        SyncPhase::RevList => git_in(
            seq!["rev-list"@, "--left-right"@, "--count"@, "HEAD..."@ + origin_ref(m)],
            wt_of(m),
        ),
        SyncPhase::RevParseBefore => git_in(seq!["rev-parse"@, "HEAD"@], wt_of(m)),
        SyncPhase::Merge => git_in(seq!["merge"@, "--ff-only"@, origin_ref(m)], wt_of(m)),
        SyncPhase::RevParseAfter => git_in(seq!["rev-parse"@, "HEAD"@], wt_of(m)),
        SyncPhase::Done => SyncActionView::Finished {
            created: m.created,
            fetched: true,
            results: m.results,
        },
        SyncPhase::Failed => SyncActionView::Failed { message: m.error },
    }
}

pub open spec fn with_phase(m: SyncView, p: SyncPhase) -> SyncView {
    SyncView { phase: p, ..m }
}

pub open spec fn fail_with(m: SyncView, msg: Seq<char>) -> SyncView {
    SyncView { phase: SyncPhase::Failed, error: msg, ..m }
}

/// Continue with `next` when the `git` run succeeded; otherwise stop with its error.
pub open spec fn after_git(
    m: SyncView,
    e: SyncEventView,
    label: Seq<char>,
    next: SyncView,
) -> SyncView {
    match e {
        SyncEventView::Git(Ok(o)) => if o.status == 0 {
            next
        } else {
            fail_with(m, failure_message(label, o.status, o.stderr))
        },
        SyncEventView::Git(Err(msg)) => fail_with(m, msg),
        _ => m,
    }
}

/// The result record for the current agent.
pub open spec fn result_for(m: SyncView, a: WorktreeAction, dirty: bool, diverged: bool) -> WorktreeResultView {
    WorktreeResultView { agent: agent_name(m.agent), action: a, dirty, diverged }
}

/// Record `r` for the current agent and move on to the next agent, or finish.
pub open spec fn next_agent(m: SyncView, r: WorktreeResultView) -> SyncView {
    SyncView {
        phase: if m.agent + 1 < agent_count() {
            SyncPhase::CheckWorktree
        } else {
            SyncPhase::Done
        },
        agent: m.agent + 1,
        results: m.results.push(r),
        ..m
    }
}

/// Skip or go on to merge, given the worktree's dirtiness and its ahead/behind counts.
pub open spec fn decide(m: SyncView, ahead: u32, behind: u32) -> SyncView {
    let diverged = ahead > 0 && behind > 0;
    if m.dirty {
        next_agent(
            SyncView { diverged, ..m },
            result_for(m, WorktreeAction::SkippedDirty, true, diverged),
        )
    } else if diverged {
        next_agent(
            SyncView { diverged, ..m },
            result_for(m, WorktreeAction::SkippedDiverged, false, true),
        )
    } else {
        SyncView { phase: SyncPhase::RevParseBefore, diverged: false, ..m }
    }
}

/// The state after event `e` in state `m`.
pub open spec fn advance_spec(m: SyncView, e: SyncEventView) -> SyncView {
    match m.phase {
        SyncPhase::CheckBare => match e {
            SyncEventView::Exists(true) => with_phase(m, SyncPhase::ConfigFetch),
            SyncEventView::Exists(false) => with_phase(m, SyncPhase::CreateDir),
            _ => m,
        },
        SyncPhase::CreateDir => match e {
            SyncEventView::DirCreated(Ok(())) => with_phase(m, SyncPhase::Clone),
            SyncEventView::DirCreated(Err(_)) => fail_with(m, "create project dir"@),
            _ => m,
        },
        SyncPhase::Clone => after_git(
            m,
            e,
            "git clone --bare"@,
            SyncView { phase: SyncPhase::ConfigFetch, created: true, ..m },
        ),
        SyncPhase::ConfigFetch => after_git(
            m,
            e,
            "git config remote.origin.fetch"@,
            with_phase(m, SyncPhase::Fetch),
        ),
        SyncPhase::Fetch => after_git(m, e, "git fetch"@, with_phase(m, SyncPhase::VerifyOrigin)),
        SyncPhase::VerifyOrigin => match e {
            SyncEventView::Git(Ok(o)) => if o.status == 0 {
                with_phase(m, SyncPhase::CheckWorktree)
            } else {
                with_phase(m, SyncPhase::UpdateOriginRef)
            },
            SyncEventView::Git(Err(msg)) => fail_with(m, msg),
            _ => m,
        },
        SyncPhase::UpdateOriginRef => after_git(
            m,
            e,
            "git update-ref origin ref"@,
            with_phase(m, SyncPhase::CheckWorktree),
        ),
        SyncPhase::CheckWorktree => match e {
            SyncEventView::Exists(true) => with_phase(m, SyncPhase::Status),
            SyncEventView::Exists(false) => with_phase(m, SyncPhase::VerifyBranch),
            _ => m,
        },
        SyncPhase::VerifyBranch => match e {
            SyncEventView::Git(Ok(_)) => with_phase(m, SyncPhase::ShowRef),
            SyncEventView::Git(Err(msg)) => fail_with(m, msg),
            _ => m,
        },
        SyncPhase::ShowRef => match e {
            SyncEventView::Git(Ok(o)) => if o.status == 0 {
                with_phase(m, SyncPhase::AddWorktree)
            } else {
                with_phase(m, SyncPhase::CreateBranch)
            },
            SyncEventView::Git(Err(msg)) => fail_with(m, msg),
            _ => m,
        },
        SyncPhase::CreateBranch => after_git(
            m,
            e,
            "git branch "@ + agent_branch(m.agent),
            with_phase(m, SyncPhase::AddWorktree),
        ),
        SyncPhase::AddWorktree => after_git(
            m,
            e,
            "git worktree add "@ + agent_name(m.agent),
            next_agent(m, result_for(m, WorktreeAction::Created, false, false)),
        ),
        SyncPhase::Status => match e {
            SyncEventView::Git(Ok(o)) => if o.status == 0 {
                SyncView {
                    phase: SyncPhase::VerifyUpstream,
                    dirty: trim(o.stdout).len() > 0,
                    ..m
                }
            } else {
                fail_with(m, failure_message("git status"@, o.status, o.stderr))
            },
            SyncEventView::Git(Err(msg)) => fail_with(m, msg),
            _ => m,
        },
        SyncPhase::VerifyUpstream => match e {
            SyncEventView::Git(Ok(o)) => if o.status == 0 {
                with_phase(m, SyncPhase::RevList)
            } else {
                decide(m, 0, 0)
            },
            SyncEventView::Git(Err(_)) => decide(m, 0, 0),
            _ => m,
        },
        SyncPhase::RevList => match e {
            SyncEventView::Git(Ok(o)) => if o.status == 0 {
                match left_right_spec(o.stdout) {
                    Some((a, b)) => decide(m, a, b),
                    None => decide(m, 0, 0),
                }
            } else {
                decide(m, 0, 0)
            },
            SyncEventView::Git(Err(_)) => decide(m, 0, 0),
            _ => m,
        },
        SyncPhase::RevParseBefore => match e {
            SyncEventView::Git(Ok(o)) => if o.status == 0 {
                SyncView { phase: SyncPhase::Merge, before: trim(o.stdout), ..m }
            } else {
                fail_with(m, failure_message("git rev-parse"@, o.status, o.stderr))
            },
            SyncEventView::Git(Err(msg)) => fail_with(m, msg),
            _ => m,
        },
        SyncPhase::Merge => match e {
            SyncEventView::Git(Ok(o)) => if o.status == 0 {
                with_phase(m, SyncPhase::RevParseAfter)
            } else {
                next_agent(m, result_for(m, WorktreeAction::SkippedDiverged, false, true))
            },
            SyncEventView::Git(Err(msg)) => fail_with(m, msg),
            _ => m,
        },
        SyncPhase::RevParseAfter => match e {
            SyncEventView::Git(Ok(o)) => if o.status == 0 {
                next_agent(
                    m,
                    result_for(
                        m,
                        if m.before == trim(o.stdout) {
                            WorktreeAction::AlreadyUpToDate
                        } else {
                            WorktreeAction::FastForwarded
                        },
                        false,
                        false,
                    ),
                )
            } else {
                fail_with(m, failure_message("git rev-parse"@, o.status, o.stderr))
            },
            SyncEventView::Git(Err(msg)) => fail_with(m, msg),
            _ => m,
        },
        SyncPhase::Done => m,
        SyncPhase::Failed => m,
    }
}

/// Whether event `e` answers the action of phase `p`.
pub open spec fn accepts_spec(p: SyncPhase, e: SyncEventView) -> bool {
    match p {
        SyncPhase::CheckBare | SyncPhase::CheckWorktree => e is Exists,
        SyncPhase::CreateDir => e is DirCreated,
        SyncPhase::Done | SyncPhase::Failed => true,
        _ => e is Git,
    }
}

/// The state a sync starts in.
pub open spec fn initial_spec(
    projects_dir: Seq<char>,
    repo: Seq<char>,
    member: Option<Seq<char>>,
    clone_url: Seq<char>,
    default_branch: Seq<char>,
) -> SyncView {
    SyncView {
        projects_dir,
        repo,
        member,
        clone_url,
        default_branch,
        phase: SyncPhase::CheckBare,
        created: false,
        agent: 0,
        dirty: false,
        diverged: false,
        before: seq![],
        results: seq![],
        error: seq![],
    }
}

/// The phases that work on one agent's worktree.
pub open spec fn per_agent(p: SyncPhase) -> bool {
    match p {
        SyncPhase::CheckWorktree | SyncPhase::VerifyBranch | SyncPhase::ShowRef
        | SyncPhase::CreateBranch | SyncPhase::AddWorktree | SyncPhase::Status
        | SyncPhase::VerifyUpstream | SyncPhase::RevList | SyncPhase::RevParseBefore
        | SyncPhase::Merge | SyncPhase::RevParseAfter => true,
        _ => false,
    }
}

/// What a recorded outcome says about the worktree it is for: a dirty worktree is
/// only ever skipped as dirty, and a worktree is only created or merged into when it
/// was neither dirty nor diverged.
pub open spec fn result_consistent(r: WorktreeResultView) -> bool {
    match r.action {
        WorktreeAction::SkippedDirty => r.dirty,
        WorktreeAction::SkippedDiverged => !r.dirty && r.diverged,
        _ => !r.dirty && !r.diverged,
    }
}

/// What holds of every state a sync passes through.
pub open spec fn sync_inv(m: SyncView) -> bool {
    &&& m.agent <= agent_count()
    &&& m.results.len() == m.agent
    &&& forall|i: int| 0 <= i < m.results.len() ==> (#[trigger] m.results[i]).agent == agent_name(i as nat)
    &&& forall|i: int| 0 <= i < m.results.len() ==> result_consistent(#[trigger] m.results[i])
    &&& per_agent(m.phase) ==> m.agent < agent_count()
    &&& m.phase == SyncPhase::Done ==> m.agent == agent_count()
    &&& (m.phase == SyncPhase::RevParseBefore || m.phase == SyncPhase::Merge || m.phase
        == SyncPhase::RevParseAfter) ==> !m.dirty && !m.diverged
    &&& m.phase != SyncPhase::Done && m.phase != SyncPhase::Failed && !per_agent(m.phase) ==> m.agent == 0
}

/// Every step of a sync keeps [`sync_inv`]. So a merge (the only action that changes a
/// worktree that already exists) is only ever asked for while the worktree's latest
/// status was clean and not diverged, and a finished sync reports exactly one outcome
/// per agent, in agent order, each consistent with what was observed.
pub proof fn lemma_step_keeps_invariant(m: SyncView, e: SyncEventView)
    requires
        sync_inv(m),
        accepts_spec(m.phase, e),
    ensures
        sync_inv(advance_spec(m, e)),
{
    let n = advance_spec(m, e);
    assert forall|i: int| 0 <= i < n.results.len() implies (#[trigger] n.results[i]).agent
        == agent_name(i as nat) && result_consistent(n.results[i]) by {
        if i < m.results.len() {
            assert(n.results[i] == m.results[i]);
        }
    }
}

/// A merge is asked for only in a state whose worktree was seen clean and not diverged.
pub proof fn lemma_merge_only_when_clean(m: SyncView)
    requires
        sync_inv(m),
        pending_spec(m) matches SyncActionView::Git { args, .. } && args.len() > 0 && args[0]
            == "merge"@,
    ensures
        m.phase == SyncPhase::Merge,
        !m.dirty && !m.diverged,
{
    reveal_strlit("merge");
    reveal_strlit("clone");
    reveal_strlit("config");
    reveal_strlit("fetch");
    reveal_strlit("rev-parse");
    reveal_strlit("update-ref");
    reveal_strlit("show-ref");
    reveal_strlit("branch");
    reveal_strlit("worktree");
    reveal_strlit("status");
    reveal_strlit("rev-list");
    assert("merge"@[0] == 'm' && "merge"@[1] == 'e');
    assert("clone"@[0] == 'c');
    assert("config"@[0] == 'c');
    assert("fetch"@[0] == 'f');
    assert("rev-parse"@[0] == 'r');
    assert("update-ref"@[0] == 'u');
    assert("show-ref"@[0] == 's');
    assert("branch"@[0] == 'b');
    assert("worktree"@[0] == 'w');
    assert("status"@[0] == 's');
    assert("rev-list"@[0] == 'r');
}

/// When a sync finishes, it reports one outcome per agent, in agent order.
pub proof fn lemma_finished_reports_every_agent(m: SyncView)
    requires
        sync_inv(m),
        pending_spec(m) is Finished,
    ensures
        m.results.len() == agent_count(),
        m.results[0].agent == agent_name(0),
        m.results[1].agent == agent_name(1),
        forall|i: int| 0 <= i < m.results.len() ==> result_consistent(#[trigger] m.results[i]),
{
    assert(m.results[0].agent == agent_name(0));
    assert(m.results[1].agent == agent_name(1nat));
}

/// The state after the events `es`, taken in turn from state `m`.
pub open spec fn run_spec(m: SyncView, es: Seq<SyncEventView>) -> SyncView
    decreases es.len(),
{
    if es.len() == 0 {
        m
    } else {
        run_spec(advance_spec(m, es[0]), es.drop_first())
    }
}

/// The answers to the check for the bare clone met along the events `es` from state `m`.
pub open spec fn bare_answers(m: SyncView, es: Seq<SyncEventView>) -> Seq<bool>
    decreases es.len(),
{
    if es.len() == 0 {
        Seq::empty()
    } else {
        let here: Seq<bool> = match es[0] {
            SyncEventView::Exists(b) => if m.phase == SyncPhase::CheckBare {
                seq![b]
            } else {
                Seq::empty()
            },
            _ => Seq::empty(),
        };
        here + bare_answers(advance_spec(m, es[0]), es.drop_first())
    }
}

/// With `a` the answers to the check for the bare clone so far: it is checked once, the
/// clone is only made when it was absent, and `created` says whether it was made.
pub open spec fn created_inv(m: SyncView, a: Seq<bool>) -> bool {
    &&& m.phase == SyncPhase::CheckBare ==> a.len() == 0 && !m.created
    &&& m.phase != SyncPhase::CheckBare ==> a.len() == 1
    &&& (m.phase == SyncPhase::CreateDir || m.phase == SyncPhase::Clone) ==> !a[0] && !m.created
    &&& (m.phase != SyncPhase::CheckBare && m.phase != SyncPhase::CreateDir && m.phase
        != SyncPhase::Clone && m.phase != SyncPhase::Failed) ==> m.created == !a[0]
}

proof fn lemma_created_run(m: SyncView, es: Seq<SyncEventView>, a: Seq<bool>)
    requires
        created_inv(m, a),
    ensures
        created_inv(run_spec(m, es), a + bare_answers(m, es)),
    decreases es.len(),
{
    if es.len() > 0 {
        let e = es[0];
        let n = advance_spec(m, e);
        let here: Seq<bool> = match e {
            SyncEventView::Exists(b) => if m.phase == SyncPhase::CheckBare {
                seq![b]
            } else {
                Seq::empty()
            },
            _ => Seq::empty(),
        };
        let a1 = a + here;
        if m.phase == SyncPhase::CheckBare && e is Exists {
            assert(a1 =~= seq![e->Exists_0]);
        } else {
            assert(a1 =~= a);
        }
        assert(created_inv(n, a1));
        lemma_created_run(n, es.drop_first(), a1);
        assert(a1 + bare_answers(n, es.drop_first()) =~= a + bare_answers(m, es));
    }
}

/// A sync that finishes checked once whether the bare clone existed, and reports it as
/// created exactly when that check answered that it did not; it always reports that it
/// fetched.
pub proof fn lemma_created_iff_bare_absent(
    projects_dir: Seq<char>,
    repo: Seq<char>,
    member: Option<Seq<char>>,
    clone_url: Seq<char>,
    default_branch: Seq<char>,
    es: Seq<SyncEventView>,
)
    ensures
        ({
            let m0 = initial_spec(projects_dir, repo, member, clone_url, default_branch);
            let a = bare_answers(m0, es);
            pending_spec(run_spec(m0, es)) matches SyncActionView::Finished { created, fetched, .. } ==> {
                &&& a.len() == 1
                &&& created <==> !a[0]
                &&& fetched
            }
        }),
{
    let m0 = initial_spec(projects_dir, repo, member, clone_url, default_branch);
    assert(created_inv(m0, Seq::<bool>::empty()));
    lemma_created_run(m0, es, Seq::<bool>::empty());
    assert(Seq::<bool>::empty() + bare_answers(m0, es) =~= bare_answers(m0, es));
}

/// The answers to the checks for the agents' worktrees met along the events `es` from
/// state `m`, in order.
pub open spec fn worktree_answers(m: SyncView, es: Seq<SyncEventView>) -> Seq<bool>
    decreases es.len(),
{
    if es.len() == 0 {
        Seq::empty()
    } else {
        answer_here(m, es[0]) + worktree_answers(advance_spec(m, es[0]), es.drop_first())
    }
}

/// The answer event `e` gives, in state `m`, to a check for a worktree, if it is one.
pub open spec fn answer_here(m: SyncView, e: SyncEventView) -> Seq<bool> {
    match e {
        SyncEventView::Exists(b) => if m.phase == SyncPhase::CheckWorktree {
            seq![b]
        } else {
            Seq::empty()
        },
        _ => Seq::empty(),
    }
}

/// Whether a phase works on a worktree that already existed when it was checked.
pub open spec fn on_existing(p: SyncPhase) -> bool {
    match p {
        SyncPhase::Status | SyncPhase::VerifyUpstream | SyncPhase::RevList
        | SyncPhase::RevParseBefore | SyncPhase::Merge | SyncPhase::RevParseAfter => true,
        _ => false,
    }
}

/// Whether a phase works on a worktree that was missing when it was checked.
pub open spec fn on_missing(p: SyncPhase) -> bool {
    match p {
        SyncPhase::VerifyBranch | SyncPhase::ShowRef | SyncPhase::CreateBranch
        | SyncPhase::AddWorktree => true,
        _ => false,
    }
}

/// With `a` the answers to the worktree checks so far: each recorded outcome is
/// `Created` exactly when its worktree was missing, and the agent at work is on the side
/// its answer gave.
pub open spec fn answers_inv(m: SyncView, a: Seq<bool>) -> bool {
    m.phase != SyncPhase::Failed ==> {
        &&& a.len() == m.results.len() + (if on_existing(m.phase) || on_missing(m.phase) {
            1int
        } else {
            0int
        })
        &&& forall|i: int| 0 <= i < m.results.len() ==> ((#[trigger] m.results[i]).action
            == WorktreeAction::Created <==> !a[i])
        &&& on_existing(m.phase) ==> a.last()
        &&& on_missing(m.phase) ==> !a.last()
    }
}

proof fn lemma_answers_step(m: SyncView, e: SyncEventView, a: Seq<bool>)
    requires
        answers_inv(m, a),
    ensures
        answers_inv(advance_spec(m, e), a + answer_here(m, e)),
{
    let n = advance_spec(m, e);
    let here = answer_here(m, e);
    let b = a + here;
    if m.phase != SyncPhase::CheckWorktree {
        assert(here =~= Seq::<bool>::empty());
        assert(b =~= a);
    }
    if n.phase != SyncPhase::Failed {
        assert forall|i: int| 0 <= i < n.results.len() implies ((#[trigger] n.results[i]).action
            == WorktreeAction::Created <==> !b[i]) by {
            if i < m.results.len() {
                assert(n.results[i] == m.results[i]);
                assert(b[i] == a[i]);
            } else {
                assert(b[i] == a.last());
            }
        }
    }
}

proof fn lemma_answers_run(m: SyncView, es: Seq<SyncEventView>, a: Seq<bool>)
    requires
        answers_inv(m, a),
    ensures
        answers_inv(run_spec(m, es), a + worktree_answers(m, es)),
    decreases es.len(),
{
    if es.len() > 0 {
        let e = es[0];
        let n = advance_spec(m, e);
        lemma_answers_step(m, e, a);
        let a1 = a + answer_here(m, e);
        lemma_answers_run(n, es.drop_first(), a1);
        assert(a1 + worktree_answers(n, es.drop_first()) =~= a + worktree_answers(m, es));
    }
}

/// A sync that finishes reports, for each agent in turn, that it created the agent's
/// worktree exactly when the check for that worktree answered that it did not exist.
pub proof fn lemma_created_iff_worktree_absent(
    projects_dir: Seq<char>,
    repo: Seq<char>,
    member: Option<Seq<char>>,
    clone_url: Seq<char>,
    default_branch: Seq<char>,
    es: Seq<SyncEventView>,
)
    ensures
        ({
            let m0 = initial_spec(projects_dir, repo, member, clone_url, default_branch);
            let a = worktree_answers(m0, es);
            pending_spec(run_spec(m0, es)) matches SyncActionView::Finished { results, .. } ==> {
                &&& a.len() == results.len()
                &&& forall|i: int| 0 <= i < results.len() ==> ((#[trigger] results[i]).action
                    == WorktreeAction::Created <==> !a[i])
            }
        }),
{
    let m0 = initial_spec(projects_dir, repo, member, clone_url, default_branch);
    assert(answers_inv(m0, Seq::<bool>::empty()));
    lemma_answers_run(m0, es, Seq::<bool>::empty());
    assert(Seq::<bool>::empty() + worktree_answers(m0, es) =~= worktree_answers(m0, es));
}

/// Whether `e`, in state `m`, is the answer of a repository that is already in place and
/// up to date: every path checked exists, every `git` run succeeds, each worktree is
/// clean, neither ahead of nor behind upstream, and its head does not move on merging.
pub open spec fn steady_answer(m: SyncView, e: SyncEventView) -> bool {
    match m.phase {
        SyncPhase::CheckBare | SyncPhase::CheckWorktree => e == SyncEventView::Exists(true),
        SyncPhase::Done | SyncPhase::Failed => true,
        SyncPhase::CreateDir => e is DirCreated,
        _ => match e {
            SyncEventView::Git(Ok(o)) => o.status == 0 && match m.phase {
                SyncPhase::Status => trim(o.stdout).len() == 0,
                SyncPhase::RevList => left_right_spec(o.stdout) == Some((0u32, 0u32)),
                SyncPhase::RevParseAfter => trim(o.stdout) == m.before,
                _ => true,
            },
            _ => false,
        },
    }
}

/// Whether every one of `es`, taken in turn from state `m`, is such an answer.
pub open spec fn steady_run(m: SyncView, es: Seq<SyncEventView>) -> bool
    decreases es.len(),
{
    es.len() == 0 || (steady_answer(m, es[0]) && steady_run(advance_spec(m, es[0]), es.drop_first()))
}

/// What a sync keeps while every answer is that of a repository in place and up to date.
pub open spec fn steady_inv(m: SyncView) -> bool {
    &&& !m.created
    &&& match m.phase {
        SyncPhase::CreateDir | SyncPhase::Clone | SyncPhase::UpdateOriginRef
        | SyncPhase::VerifyBranch | SyncPhase::ShowRef | SyncPhase::CreateBranch
        | SyncPhase::AddWorktree | SyncPhase::Failed => false,
        _ => true,
    }
    &&& (m.phase == SyncPhase::VerifyUpstream || m.phase == SyncPhase::RevList || m.phase
        == SyncPhase::RevParseBefore || m.phase == SyncPhase::Merge || m.phase
        == SyncPhase::RevParseAfter) ==> !m.dirty
    &&& forall|i: int| 0 <= i < m.results.len() ==> (#[trigger] m.results[i]).action
        == WorktreeAction::AlreadyUpToDate
}

proof fn lemma_steady_run(m: SyncView, es: Seq<SyncEventView>)
    requires
        steady_inv(m),
        steady_run(m, es),
    ensures
        steady_inv(run_spec(m, es)),
    decreases es.len(),
{
    if es.len() > 0 {
        let e = es[0];
        let n = advance_spec(m, e);
        assert forall|i: int| 0 <= i < n.results.len() implies (#[trigger] n.results[i]).action
            == WorktreeAction::AlreadyUpToDate by {
            if i < m.results.len() {
                assert(n.results[i] == m.results[i]);
            }
        }
        assert(steady_inv(n));
        lemma_steady_run(n, es.drop_first());
    }
}

/// Syncing a repository that is already in place and up to date changes nothing: when
/// every answer says so, the sync never clones, creates a branch or a worktree, or fails,
/// and if it finishes it reports nothing created and every worktree already up to date.
pub proof fn lemma_sync_in_place_is_up_to_date(
    projects_dir: Seq<char>,
    repo: Seq<char>,
    member: Option<Seq<char>>,
    clone_url: Seq<char>,
    default_branch: Seq<char>,
    es: Seq<SyncEventView>,
)
    requires
        steady_run(initial_spec(projects_dir, repo, member, clone_url, default_branch), es),
    ensures
        ({
            let m = run_spec(initial_spec(projects_dir, repo, member, clone_url, default_branch), es);
            &&& m.phase != SyncPhase::Failed
            &&& m.phase != SyncPhase::Clone && m.phase != SyncPhase::AddWorktree
                && m.phase != SyncPhase::CreateBranch
            &&& pending_spec(m) matches SyncActionView::Finished { created, results, .. } ==> {
                &&& !created
                &&& forall|i: int| 0 <= i < results.len() ==> (#[trigger] results[i]).action
                    == WorktreeAction::AlreadyUpToDate
            }
        }),
{
    let m0 = initial_spec(projects_dir, repo, member, clone_url, default_branch);
    lemma_steady_run(m0, es);
}

/// A worktree is skipped as diverged only when it is both ahead of and behind upstream.
/// Once the ahead/behind counts `(ahead, behind)` of a clean worktree are read: when it
/// is not both ahead and behind (only ahead, only behind, or neither), the sync goes on
/// to merge it (reading its head first), records it as not diverged and records no
/// outcome yet; when it is both, the sync records it as skipped for divergence, with the
/// diverged flag set, and never merges it. A dirty worktree is skipped as dirty, its
/// diverged flag recording whether it is both ahead and behind.
pub proof fn lemma_diverged_only_when_ahead_and_behind(
    m: SyncView,
    o: CmdOutputView,
    ahead: u32,
    behind: u32,
)
    requires
        m.phase == SyncPhase::RevList,
        o.status == 0,
        left_right_spec(o.stdout) == Some((ahead, behind)),
    ensures
        ({
            let n = advance_spec(m, SyncEventView::Git(Ok(o)));
            &&& !m.dirty && !(ahead > 0 && behind > 0) ==> {
                &&& n.phase == SyncPhase::RevParseBefore
                &&& !n.diverged
                &&& n.results == m.results
                &&& pending_spec(n) == git_in(seq!["rev-parse"@, "HEAD"@], wt_of(m))
            }
            &&& !m.dirty && ahead > 0 && behind > 0 ==> {
                &&& n.results == m.results.push(
                    WorktreeResultView {
                        agent: agent_name(m.agent),
                        action: WorktreeAction::SkippedDiverged,
                        dirty: false,
                        diverged: true,
                    },
                )
                &&& n.phase != SyncPhase::RevParseBefore && n.phase != SyncPhase::Merge
            }
            &&& m.dirty ==> n.results == m.results.push(
                WorktreeResultView {
                    agent: agent_name(m.agent),
                    action: WorktreeAction::SkippedDirty,
                    dirty: true,
                    diverged: ahead > 0 && behind > 0,
                },
            )
        }),
{
}

// ---------------------------------------------------------------- execution
fn cat(a: &str, b: &str) -> (r: String)
    ensures
        r@ == a@ + b@,
{
    let mut r = owned(a);
    push_str(&mut r, b);
    r
}

fn list2(a: &str, b: &str) -> (r: Vec<String>)
    ensures
        views(r@) == seq![a@, b@],
{
    let r = vec![owned(a), owned(b)];
    assert(views(r@) =~= seq![a@, b@]);
    r
}

fn list3(a: &str, b: &str, c: &str) -> (r: Vec<String>)
    ensures
        views(r@) == seq![a@, b@, c@],
{
    let r = vec![owned(a), owned(b), owned(c)];
    assert(views(r@) =~= seq![a@, b@, c@]);
    r
}

fn list4(a: &str, b: &str, c: &str, d: &str) -> (r: Vec<String>)
    ensures
        views(r@) == seq![a@, b@, c@, d@],
{
    let r = vec![owned(a), owned(b), owned(c), owned(d)];
    assert(views(r@) =~= seq![a@, b@, c@, d@]);
    r
}

fn copy_results(v: &Vec<WorktreeResult>) -> (r: Vec<WorktreeResult>)
    ensures
        result_views(r@) == result_views(v@),
{
    let mut r: Vec<WorktreeResult> = Vec::new();
    let mut i: usize = 0;
    while i < v.len()
        invariant
            i <= v@.len(),
            result_views(r@) == result_views(v@.subrange(0, i as int)),
        decreases v@.len() - i,
    {
        let x = &v[i];
        let y = WorktreeResult {
            agent: x.agent.clone(),
            action: x.action,
            dirty: x.dirty,
            diverged: x.diverged,
        };
        let ghost before = result_views(r@);
        r.push(y);
        assert(result_views(r@) == before.push(y@));
        assert(v@.subrange(0, i + 1) == v@.subrange(0, i as int).push(v@[i as int]));
        assert(result_views(v@.subrange(0, i + 1)) == result_views(v@.subrange(0, i as int)).push(
            v@[i as int]@,
        ));
        i += 1;
    }
    assert(v@.subrange(0, v@.len() as int) == v@);
    r
}

impl SyncMachine {
    /// Whether the machine is in a state every step keeps.
    pub closed spec fn wf(&self) -> bool {
        sync_inv(self@)
    }

    /// A sync of `repo` from `clone_url` into `projects_dir`, tracking
    /// `origin/<default_branch>`, with its first action.
    pub fn start(projects_dir: &str, repo: &str, clone_url: &str, default_branch: &str) -> (r: (
        SyncMachine,
        SyncAction,
    ))
        ensures
            r.0@ == initial_spec(projects_dir@, repo@, None, clone_url@, default_branch@),
            r.0.wf(),
            r.1@ == pending_spec(r.0@),
    {
        Self::begin(projects_dir, repo, None, clone_url, default_branch)
    }

    /// A sync of the member with key `key` of project `project` under `projects_dir`,
    /// from `clone_url`, tracking `origin/<default_branch>`, with its first action: the
    /// bare clone goes to `<project>/.bares/<key>` and each agent's worktree to
    /// `<project>/<agent>/<key>`.
    pub fn start_member(
        projects_dir: &str,
        project: &str,
        key: &str,
        clone_url: &str,
        default_branch: &str,
    ) -> (r: (SyncMachine, SyncAction))
        ensures
            r.0@ == initial_spec(projects_dir@, project@, Some(key@), clone_url@, default_branch@),
            r.0.wf(),
            r.1@ == pending_spec(r.0@),
    {
        Self::begin(projects_dir, project, Some(owned(key)), clone_url, default_branch)
    }

    fn begin(
        projects_dir: &str,
        repo: &str,
        member: Option<String>,
        clone_url: &str,
        default_branch: &str,
    ) -> (r: (SyncMachine, SyncAction))
        ensures
            r.0@ == initial_spec(projects_dir@, repo@, opt_view(member), clone_url@, default_branch@),
            r.0.wf(),
            r.1@ == pending_spec(r.0@),
    {
        let m = SyncMachine {
            projects_dir: owned(projects_dir),
            repo: owned(repo),
            member,
            clone_url: owned(clone_url),
            default_branch: owned(default_branch),
            phase: SyncPhase::CheckBare,
            created: false,
            agent: 0,
            dirty: false,
            diverged: false,
            before: String::new(),
            results: Vec::new(),
            error: String::new(),
        };
        assert(result_views(m.results@) == Seq::<WorktreeResultView>::empty());
        let a = m.pending();
        (m, a)
    }

    /// The state as plain values.
    pub fn phase(&self) -> (r: SyncPhase)
        ensures
            r == self@.phase,
    {
        self.phase
    }

    /// Whether `e` answers the action the machine waits on.
    pub fn accepts(&self, e: &SyncEvent) -> (r: bool)
        ensures
            r == accepts_spec(self@.phase, e@),
    {
        match self.phase {
            SyncPhase::CheckBare | SyncPhase::CheckWorktree => matches!(e, SyncEvent::Exists(_)),
            SyncPhase::CreateDir => matches!(e, SyncEvent::DirCreated(_)),
            SyncPhase::Done | SyncPhase::Failed => true,
            _ => matches!(e, SyncEvent::Git(_)),
        }
    }

    /// The action the machine waits on.
    pub fn pending(&self) -> (r: SyncAction)
        requires
            self.wf(),
        ensures
            r@ == pending_spec(self@),
    {
        let bare = self.bare_path();
        let origin = cat("origin/", self.default_branch.as_str());
        match self.phase {
            SyncPhase::CheckBare => SyncAction::CheckExists { path: bare },
            SyncPhase::CreateDir => SyncAction::CreateDirAll {
                path: project_dir(self.projects_dir.as_str(), self.repo.as_str()),
            },
            SyncPhase::Clone => SyncAction::Git {
                args: list4("clone", "--bare", self.clone_url.as_str(), bare.as_str()),
                cwd: None,
                authenticated: true,
            },
            SyncPhase::ConfigFetch => SyncAction::Git {
                args: list3("config", "remote.origin.fetch", "+refs/heads/*:refs/remotes/origin/*"),
                cwd: Some(bare),
                authenticated: false,
            },
            SyncPhase::Fetch => SyncAction::Git {
                args: list2("fetch", "origin"),
                cwd: Some(bare),
                authenticated: true,
            },
            SyncPhase::VerifyOrigin => SyncAction::Git {
                args: list3("rev-parse", "--verify", origin.as_str()),
                cwd: Some(bare),
                authenticated: false,
            },
            SyncPhase::UpdateOriginRef => {
                let remote = cat("refs/remotes/origin/", self.default_branch.as_str());
                let local = cat("refs/heads/", self.default_branch.as_str());
                SyncAction::Git {
                    args: list3("update-ref", remote.as_str(), local.as_str()),
                    cwd: Some(bare),
                    authenticated: false,
                }
            },
            SyncPhase::Done => SyncAction::Finished {
                created: self.created,
                fetched: true,
                results: copy_results(&self.results),
            },
            SyncPhase::Failed => SyncAction::Failed { message: self.error.clone() },
            _ => self.pending_worktree(bare, origin),
        }
    }

    fn bare_path(&self) -> (r: String)
        ensures
            r@ == bare_of(self@),
    {
        match &self.member {
            None => bare_dir(self.projects_dir.as_str(), self.repo.as_str()),
            Some(k) => {
                let p = project_dir(self.projects_dir.as_str(), self.repo.as_str());
                member_bare_dir(p.as_str(), k.as_str())
            },
        }
    }

    fn worktree_path(&self, name: &str) -> (r: String)
        requires
            name@ == agent_name(self@.agent),
        ensures
            r@ == wt_of(self@),
    {
        match &self.member {
            None => worktree_dir(self.projects_dir.as_str(), self.repo.as_str(), name),
            Some(k) => {
                let p = project_dir(self.projects_dir.as_str(), self.repo.as_str());
                member_worktree_dir(p.as_str(), name, k.as_str())
            },
        }
    }

    fn pending_worktree(&self, bare: String, origin: String) -> (r: SyncAction)
        requires
            self.wf(),
            per_agent(self@.phase),
            bare@ == bare_of(self@),
            origin@ == origin_ref(self@),
        ensures
            r@ == pending_spec(self@),
    {
        let name = agent_name_of(self.agent);
        let branch = agent_branch_of(self.agent);
        let wt = self.worktree_path(name);
        match self.phase {
            SyncPhase::CheckWorktree => SyncAction::CheckExists { path: wt },
            SyncPhase::VerifyBranch => SyncAction::Git {
                args: list3("rev-parse", "--verify", branch),
                cwd: Some(bare),
                authenticated: false,
            },
            SyncPhase::ShowRef => {
                let r = cat("refs/heads/", branch);
                SyncAction::Git {
                    args: list4("show-ref", "--verify", "--quiet", r.as_str()),
                    cwd: Some(bare),
                    authenticated: false,
                }
            },
            SyncPhase::CreateBranch => SyncAction::Git {
                args: list3("branch", branch, origin.as_str()),
                cwd: Some(bare),
                authenticated: false,
            },
            SyncPhase::AddWorktree => SyncAction::Git {
                args: list4("worktree", "add", wt.as_str(), branch),
                cwd: Some(bare),
                authenticated: false,
            },
            SyncPhase::Status => SyncAction::Git {
                args: list2("status", "--porcelain"),
                cwd: Some(wt),
                authenticated: false,
            },
            SyncPhase::VerifyUpstream => SyncAction::Git {
                args: list3("rev-parse", "--verify", origin.as_str()),
                cwd: Some(wt),
                authenticated: false,
            },
            SyncPhase::RevList => {
                let range = cat("HEAD...", origin.as_str());
                SyncAction::Git {
                    args: list4("rev-list", "--left-right", "--count", range.as_str()),
                    cwd: Some(wt),
                    authenticated: false,
                }
            },
            SyncPhase::RevParseBefore | SyncPhase::RevParseAfter => SyncAction::Git {
                args: list2("rev-parse", "HEAD"),
                cwd: Some(wt),
                authenticated: false,
            },
            _ => SyncAction::Git {
                args: list3("merge", "--ff-only", origin.as_str()),
                cwd: Some(wt),
                authenticated: false,
            },
        }
    }
}

/// The outcome of a `git` answer when a non-zero exit is an error labelled `label`.
pub open spec fn checked_spec(e: SyncEventView, label: Seq<char>) -> Result<CmdOutputView, Seq<char>> {
    match e {
        SyncEventView::Git(Ok(o)) => if o.status == 0 {
            Ok(o)
        } else {
            Err(failure_message(label, o.status, o.stderr))
        },
        SyncEventView::Git(Err(msg)) => Err(msg),
        _ => Err(seq![]),
    }
}

fn checked(e: SyncEvent, label: &str) -> (r: Result<CmdOutput, String>)
    requires
        e@ is Git,
    ensures
        match r {
            Ok(o) => checked_spec(e@, label@) == Ok::<CmdOutputView, Seq<char>>(o@),
            Err(m) => checked_spec(e@, label@) == Err::<CmdOutputView, Seq<char>>(m@),
        },
{
    match e {
        SyncEvent::Git(Ok(o)) => {
            match o.ensure_success(label) {
                Ok(()) => Ok(o),
                Err(m) => Err(m),
            }
        },
        SyncEvent::Git(Err(m)) => Err(m),
        _ => Err(String::new()),
    }
}

impl SyncMachine {
    fn fail(self, msg: String) -> (r: SyncMachine)
        ensures
            r@ == fail_with(self@, msg@),
    {
        let mut m = self;
        m.phase = SyncPhase::Failed;
        m.error = msg;
        m
    }

    fn goto(self, p: SyncPhase) -> (r: SyncMachine)
        ensures
            r@ == with_phase(self@, p),
    {
        let mut m = self;
        m.phase = p;
        m
    }

    fn finish_agent(self, action: WorktreeAction, dirty: bool, diverged: bool) -> (r: SyncMachine)
        requires
            self@.agent < agent_count(),
        ensures
            r@ == next_agent(self@, result_for(self@, action, dirty, diverged)),
    {
        let mut m = self;
        let res = WorktreeResult { agent: owned(agent_name_of(m.agent)), action, dirty, diverged };
        let ghost before = result_views(m.results@);
        m.results.push(res);
        assert(result_views(m.results@) == before.push(res@));
        m.agent = m.agent + 1;
        m.phase = if m.agent < 2 {
            SyncPhase::CheckWorktree
        } else {
            SyncPhase::Done
        };
        m
    }

    fn decide(self, ahead: u32, behind: u32) -> (r: SyncMachine)
        requires
            self@.agent < agent_count(),
        ensures
            r@ == decide(self@, ahead, behind),
    {
        let diverged = ahead > 0 && behind > 0;
        let mut m = self;
        if m.dirty {
            m.diverged = diverged;
            m.finish_agent(WorktreeAction::SkippedDirty, true, diverged)
        } else if diverged {
            m.diverged = diverged;
            m.finish_agent(WorktreeAction::SkippedDiverged, false, true)
        } else {
            m.phase = SyncPhase::RevParseBefore;
            m.diverged = false;
            m
        }
    }

    /// Hands the outcome `e` of the pending action to the machine; gives its next
    /// state and the action that state waits on.
    pub fn step(self, e: SyncEvent) -> (r: (SyncMachine, SyncAction))
        requires
            self.wf(),
            accepts_spec(self@.phase, e@),
        ensures
            r.0@ == advance_spec(self@, e@),
            r.0.wf(),
            r.1@ == pending_spec(r.0@),
    {
        proof {
            lemma_step_keeps_invariant(self@, e@);
        }
        let m = self.advance(e);
        let a = m.pending();
        (m, a)
    }

    fn advance(self, e: SyncEvent) -> (r: SyncMachine)
        requires
            self.wf(),
            accepts_spec(self@.phase, e@),
        ensures
            r@ == advance_spec(self@, e@),
    {
        match self.phase {
            SyncPhase::CheckBare => match e {
                SyncEvent::Exists(true) => self.goto(SyncPhase::ConfigFetch),
                _ => self.goto(SyncPhase::CreateDir),
            },
            SyncPhase::CreateDir => match e {
                SyncEvent::DirCreated(Ok(())) => self.goto(SyncPhase::Clone),
                _ => self.fail(owned("create project dir")),
            },
            SyncPhase::Clone => match checked(e, "git clone --bare") {
                Ok(_) => {
                    let mut m = self;
                    m.created = true;
                    m.goto(SyncPhase::ConfigFetch)
                },
                Err(msg) => self.fail(msg),
            },
            SyncPhase::ConfigFetch => match checked(e, "git config remote.origin.fetch") {
                Ok(_) => self.goto(SyncPhase::Fetch),
                Err(msg) => self.fail(msg),
            },
            SyncPhase::Fetch => match checked(e, "git fetch") {
                Ok(_) => self.goto(SyncPhase::VerifyOrigin),
                Err(msg) => self.fail(msg),
            },
            SyncPhase::VerifyOrigin => match e {
                SyncEvent::Git(Ok(o)) => if o.success() {
                    self.goto(SyncPhase::CheckWorktree)
                } else {
                    self.goto(SyncPhase::UpdateOriginRef)
                },
                SyncEvent::Git(Err(msg)) => self.fail(msg),
                _ => self,
            },
            SyncPhase::UpdateOriginRef => match checked(e, "git update-ref origin ref") {
                Ok(_) => self.goto(SyncPhase::CheckWorktree),
                Err(msg) => self.fail(msg),
            },
            SyncPhase::Done | SyncPhase::Failed => self,
            _ => self.advance_worktree(e),
        }
    }

    fn advance_worktree(self, e: SyncEvent) -> (r: SyncMachine)
        requires
            self.wf(),
            per_agent(self@.phase),
            accepts_spec(self@.phase, e@),
        ensures
            r@ == advance_spec(self@, e@),
    {
        match self.phase {
            SyncPhase::CheckWorktree => match e {
                SyncEvent::Exists(true) => self.goto(SyncPhase::Status),
                _ => self.goto(SyncPhase::VerifyBranch),
            },
            SyncPhase::VerifyBranch => match e {
                SyncEvent::Git(Ok(_)) => self.goto(SyncPhase::ShowRef),
                SyncEvent::Git(Err(msg)) => self.fail(msg),
                _ => self,
            },
            SyncPhase::ShowRef => match e {
                SyncEvent::Git(Ok(o)) => if o.success() {
                    self.goto(SyncPhase::AddWorktree)
                } else {
                    self.goto(SyncPhase::CreateBranch)
                },
                SyncEvent::Git(Err(msg)) => self.fail(msg),
                _ => self,
            },
            SyncPhase::CreateBranch => {
                let label = cat("git branch ", agent_branch_of(self.agent));
                match checked(e, label.as_str()) {
                    Ok(_) => self.goto(SyncPhase::AddWorktree),
                    Err(msg) => self.fail(msg),
                }
            },
            SyncPhase::AddWorktree => {
                let label = cat("git worktree add ", agent_name_of(self.agent));
                match checked(e, label.as_str()) {
                    Ok(_) => self.finish_agent(WorktreeAction::Created, false, false),
                    Err(msg) => self.fail(msg),
                }
            },
            SyncPhase::Status => match checked(e, "git status") {
                Ok(o) => {
                    let t = trim_str(o.stdout.as_str());
                    let mut m = self;
                    m.dirty = !t.as_str().is_empty();
                    m.goto(SyncPhase::VerifyUpstream)
                },
                Err(msg) => self.fail(msg),
            },
            SyncPhase::VerifyUpstream => match e {
                SyncEvent::Git(Ok(o)) => if o.success() {
                    self.goto(SyncPhase::RevList)
                } else {
                    self.decide(0, 0)
                },
                _ => self.decide(0, 0),
            },
            SyncPhase::RevList => match e {
                SyncEvent::Git(Ok(o)) => if o.success() {
                    match parse_left_right(o.stdout.as_str()) {
                        Ok((a, b)) => self.decide(a, b),
                        Err(_) => self.decide(0, 0),
                    }
                } else {
                    self.decide(0, 0)
                },
                _ => self.decide(0, 0),
            },
            SyncPhase::RevParseBefore => match checked(e, "git rev-parse") {
                Ok(o) => {
                    let mut m = self;
                    m.before = trim_str(o.stdout.as_str());
                    m.goto(SyncPhase::Merge)
                },
                Err(msg) => self.fail(msg),
            },
            SyncPhase::Merge => match e {
                SyncEvent::Git(Ok(o)) => if o.success() {
                    self.goto(SyncPhase::RevParseAfter)
                } else {
                    self.finish_agent(WorktreeAction::SkippedDiverged, false, true)
                },
                SyncEvent::Git(Err(msg)) => self.fail(msg),
                _ => self,
            },
            _ => match checked(e, "git rev-parse") {
                Ok(o) => {
                    let after = trim_str(o.stdout.as_str());
                    let same = str_eq(self.before.as_str(), after.as_str());
                    if same {
                        self.finish_agent(WorktreeAction::AlreadyUpToDate, false, false)
                    } else {
                        self.finish_agent(WorktreeAction::FastForwarded, false, false)
                    }
                },
                Err(msg) => self.fail(msg),
            },
        }
    }
}

// ---------------------------------------------------------------- status scan
/// What a status scan is waiting for.
#[derive(Debug, Clone, Copy, PartialEq, Eq, Structural)]
pub enum ScanPhase {
    /// Whether the current agent's worktree exists.
    CheckWorktree,
    /// `git status --porcelain`.
    Status,
    /// `git rev-parse --verify origin/<default>`.
    VerifyUpstream,
    /// `git rev-list --left-right --count HEAD...origin/<default>`.
    RevList,
    /// Finished.
    Done,
    /// Stopped on an error.
    Failed,
}

/// Only the two `git` runs that reach GitHub, the bare clone and the fetch, are given the
/// token's environment; every other `git` run goes without it.
pub proof fn lemma_token_only_for_network(m: SyncView)
    ensures
        pending_spec(m) matches SyncActionView::Git { args, authenticated, .. } ==> (authenticated
            ==> args.len() > 0 && (args[0] == "clone"@ || args[0] == "fetch"@)),
{
}

/// What the caller must do next for a status scan.
pub enum ScanAction {
    CheckExists { path: String },
    Git { args: Vec<String>, cwd: String },
    Finished { statuses: Vec<WorktreeStatus> },
    Failed { message: String },
}

#[verifier::ext_equal]
pub enum ScanActionView {
    CheckExists { path: Seq<char> },
    Git { args: Seq<Seq<char>>, cwd: Seq<char> },
    Finished { statuses: Seq<WorktreeStatusView> },
    Failed { message: Seq<char> },
}

pub open spec fn status_views(s: Seq<WorktreeStatus>) -> Seq<WorktreeStatusView> {
    s.map_values(|r: WorktreeStatus| r@)
}

impl View for ScanAction {
    type V = ScanActionView;

    open spec fn view(&self) -> ScanActionView {
        match self {
            ScanAction::CheckExists { path } => ScanActionView::CheckExists { path: path@ },
            ScanAction::Git { args, cwd } => ScanActionView::Git { args: views(args@), cwd: cwd@ },
            ScanAction::Finished { statuses } => ScanActionView::Finished {
                statuses: status_views(statuses@),
            },
            ScanAction::Failed { message } => ScanActionView::Failed { message: message@ },
        }
    }
}

/// A scan of the live state of a project's agent worktrees (missing ones are left out).
pub struct StatusScan {
    projects_dir: String,
    repo: String,
    member: Option<String>,
    default_branch: String,
    phase: ScanPhase,
    agent: usize,
    dirty: bool,
    statuses: Vec<WorktreeStatus>,
    error: String,
}

pub struct ScanView {
    pub projects_dir: Seq<char>,
    pub repo: Seq<char>,
    /// The member's key inside project `repo`, or `None` for a repository on its own.
    pub member: Option<Seq<char>>,
    pub default_branch: Seq<char>,
    pub phase: ScanPhase,
    pub agent: nat,
    pub dirty: bool,
    pub statuses: Seq<WorktreeStatusView>,
    pub error: Seq<char>,
}

impl View for StatusScan {
    type V = ScanView;

    closed spec fn view(&self) -> ScanView {
        ScanView {
            projects_dir: self.projects_dir@,
            repo: self.repo@,
            member: opt_view(self.member),
            default_branch: self.default_branch@,
            phase: self.phase,
            agent: self.agent as nat,
            dirty: self.dirty,
            statuses: status_views(self.statuses@),
            error: self.error@,
        }
    }
}

/// The current agent's worktree, laid out as for a sync.
pub open spec fn scan_wt(m: ScanView) -> Seq<char> {
    match m.member {
        None => worktree_dir_spec(m.projects_dir, m.repo, agent_name(m.agent)),
        Some(k) => member_worktree_spec(project_dir_spec(m.projects_dir, m.repo), agent_name(m.agent), k),
    }
}

pub open spec fn scan_origin(m: ScanView) -> Seq<char> {
    "origin/"@ + m.default_branch
}

/// The action a scan in state `m` waits on.
pub open spec fn scan_pending_spec(m: ScanView) -> ScanActionView {
    match m.phase {
        ScanPhase::CheckWorktree => ScanActionView::CheckExists { path: scan_wt(m) },
        ScanPhase::Status => ScanActionView::Git {
            args: seq!["status"@, "--porcelain"@],
            cwd: scan_wt(m),
        },
        ScanPhase::VerifyUpstream => ScanActionView::Git {
            args: seq!["rev-parse"@, "--verify"@, scan_origin(m)],
            cwd: scan_wt(m),
        },
        ScanPhase::RevList => ScanActionView::Git {
            args: seq!["rev-list"@, "--left-right"@, "--count"@, "HEAD..."@ + scan_origin(m)],
            cwd: scan_wt(m),
        },
        ScanPhase::Done => ScanActionView::Finished { statuses: m.statuses },
        ScanPhase::Failed => ScanActionView::Failed { message: m.error },
    }
}

/// Move on to the next agent, or finish.
pub open spec fn scan_next(m: ScanView) -> ScanView {
    ScanView {
        phase: if m.agent + 1 < agent_count() {
            ScanPhase::CheckWorktree
        } else {
            ScanPhase::Done
        },
        agent: m.agent + 1,
        ..m
    }
}

/// Record the current worktree with these counts and move on.
pub open spec fn scan_record(m: ScanView, ahead: u32, behind: u32) -> ScanView {
    scan_next(
        ScanView {
            statuses: m.statuses.push(
                WorktreeStatusView {
                    agent: agent_name(m.agent),
                    branch: agent_branch(m.agent),
                    ahead,
                    behind,
                    dirty: m.dirty,
                    diverged: ahead > 0 && behind > 0,
                },
            ),
            ..m
        },
    )
}

/// The scan state after outcome `e`.
pub open spec fn scan_advance_spec(m: ScanView, e: SyncEventView) -> ScanView {
    match m.phase {
        ScanPhase::CheckWorktree => match e {
            SyncEventView::Exists(true) => ScanView { phase: ScanPhase::Status, ..m },
            SyncEventView::Exists(false) => scan_next(m),
            _ => m,
        },
        ScanPhase::Status => match checked_spec(e, "git status"@) {
            Ok(o) => ScanView {
                phase: ScanPhase::VerifyUpstream,
                dirty: trim(o.stdout).len() > 0,
                ..m
            },
            Err(msg) => ScanView { phase: ScanPhase::Failed, error: msg, ..m },
        },
        ScanPhase::VerifyUpstream => match e {
            SyncEventView::Git(Ok(o)) => if o.status == 0 {
                ScanView { phase: ScanPhase::RevList, ..m }
            } else {
                scan_record(m, 0, 0)
            },
            _ => scan_record(m, 0, 0),
        },
        ScanPhase::RevList => match e {
            SyncEventView::Git(Ok(o)) => if o.status == 0 {
                match left_right_spec(o.stdout) {
                    Some((a, b)) => scan_record(m, a, b),
                    None => scan_record(m, 0, 0),
                }
            } else {
                scan_record(m, 0, 0)
            },
            _ => scan_record(m, 0, 0),
        },
        ScanPhase::Done | ScanPhase::Failed => m,
    }
}

pub open spec fn scan_accepts_spec(p: ScanPhase, e: SyncEventView) -> bool {
    match p {
        ScanPhase::CheckWorktree => e is Exists,
        ScanPhase::Done | ScanPhase::Failed => true,
        _ => e is Git,
    }
}

/// What holds of every state a scan passes through: one status per existing worktree,
/// in agent order, each diverged exactly when it is both ahead and behind.
pub open spec fn scan_inv(m: ScanView) -> bool {
    &&& m.agent <= agent_count()
    &&& m.statuses.len() <= m.agent
    &&& m.phase != ScanPhase::Done && m.phase != ScanPhase::Failed ==> m.agent < agent_count()
    &&& m.phase == ScanPhase::Done ==> m.agent == agent_count()
    &&& forall|i: int| 0 <= i < m.statuses.len() ==> (#[trigger] m.statuses[i]).diverged == (
    m.statuses[i].ahead > 0 && m.statuses[i].behind > 0)
    &&& m.agent == 0 ==> m.statuses.len() == 0
    &&& m.agent == 1 && m.statuses.len() == 1 ==> m.statuses[0].agent == agent_name(0)
    &&& m.statuses.len() == 2 ==> m.statuses[0].agent == agent_name(0) && m.statuses[1].agent
        == agent_name(1)
    &&& m.statuses.len() == 1 ==> m.statuses[0].agent == agent_name(0) || m.statuses[0].agent
        == agent_name(1)
}

/// Every step of a status scan keeps [`scan_inv`].
pub proof fn lemma_scan_step_keeps_invariant(m: ScanView, e: SyncEventView)
    requires
        scan_inv(m),
        scan_accepts_spec(m.phase, e),
    ensures
        scan_inv(scan_advance_spec(m, e)),
{
    let n = scan_advance_spec(m, e);
    assert forall|i: int| 0 <= i < n.statuses.len() implies (#[trigger] n.statuses[i]).diverged
        == (n.statuses[i].ahead > 0 && n.statuses[i].behind > 0) by {
        if i < m.statuses.len() {
            assert(n.statuses[i] == m.statuses[i]);
        }
    }
    if n.statuses.len() > m.statuses.len() && m.statuses.len() > 0 {
        assert(n.statuses[0] == m.statuses[0]);
    }
}

impl StatusScan {
    pub closed spec fn wf(&self) -> bool {
        scan_inv(self@)
    }

    /// A scan of `repo`'s worktrees under `projects_dir` against `origin/<default_branch>`,
    /// with its first action.
    pub fn start(projects_dir: &str, repo: &str, default_branch: &str) -> (r: (
        StatusScan,
        ScanAction,
    ))
        ensures
            r.0@.phase == ScanPhase::CheckWorktree,
            r.0@.agent == 0,
            r.0@.statuses.len() == 0,
            r.0@.projects_dir == projects_dir@,
            r.0@.repo == repo@,
            r.0@.member is None,
            r.0@.default_branch == default_branch@,
            r.0.wf(),
            r.1@ == scan_pending_spec(r.0@),
    {
        Self::begin(projects_dir, repo, None, default_branch)
    }

    /// A scan of the worktrees of the member with key `key` of project `project` under
    /// `projects_dir` (`<project>/<agent>/<key>`) against `origin/<default_branch>`, with
    /// its first action.
    pub fn start_member(projects_dir: &str, project: &str, key: &str, default_branch: &str) -> (r: (
        StatusScan,
        ScanAction,
    ))
        ensures
            r.0@.phase == ScanPhase::CheckWorktree,
            r.0@.agent == 0,
            r.0@.statuses.len() == 0,
            r.0@.projects_dir == projects_dir@,
            r.0@.repo == project@,
            r.0@.member == Some(key@),
            r.0@.default_branch == default_branch@,
            r.0.wf(),
            r.1@ == scan_pending_spec(r.0@),
    {
        Self::begin(projects_dir, project, Some(owned(key)), default_branch)
    }

    fn begin(projects_dir: &str, repo: &str, member: Option<String>, default_branch: &str) -> (r: (
        StatusScan,
        ScanAction,
    ))
        ensures
            r.0@.phase == ScanPhase::CheckWorktree,
            r.0@.agent == 0,
            r.0@.statuses.len() == 0,
            r.0@.projects_dir == projects_dir@,
            r.0@.repo == repo@,
            r.0@.member == opt_view(member),
            r.0@.default_branch == default_branch@,
            r.0.wf(),
            r.1@ == scan_pending_spec(r.0@),
    {
        let m = StatusScan {
            projects_dir: owned(projects_dir),
            repo: owned(repo),
            member,
            default_branch: owned(default_branch),
            phase: ScanPhase::CheckWorktree,
            agent: 0,
            dirty: false,
            statuses: Vec::new(),
            error: String::new(),
        };
        assert(status_views(m.statuses@) =~= Seq::<WorktreeStatusView>::empty());
        let a = m.pending();
        (m, a)
    }

    pub fn accepts(&self, e: &SyncEvent) -> (r: bool)
        ensures
            r == scan_accepts_spec(self@.phase, e@),
    {
        match self.phase {
            ScanPhase::CheckWorktree => matches!(e, SyncEvent::Exists(_)),
            ScanPhase::Done | ScanPhase::Failed => true,
            _ => matches!(e, SyncEvent::Git(_)),
        }
    }

    /// The action the scan waits on.
    pub fn pending(&self) -> (r: ScanAction)
        requires
            self.wf(),
        ensures
            r@ == scan_pending_spec(self@),
    {
        match self.phase {
            ScanPhase::Done => {
                let mut out: Vec<WorktreeStatus> = Vec::new();
                let mut i: usize = 0;
                while i < self.statuses.len()
                    invariant
                        i <= self.statuses@.len(),
                        status_views(out@) == status_views(self.statuses@.subrange(0, i as int)),
                    decreases self.statuses@.len() - i,
                {
                    let x = &self.statuses[i];
                    let y = WorktreeStatus {
                        agent: x.agent.clone(),
                        branch: x.branch.clone(),
                        ahead: x.ahead,
                        behind: x.behind,
                        dirty: x.dirty,
                        diverged: x.diverged,
                    };
                    let ghost before = status_views(out@);
                    out.push(y);
                    assert(status_views(out@) == before.push(y@));
                    assert(self.statuses@.subrange(0, i + 1) == self.statuses@.subrange(
                        0,
                        i as int,
                    ).push(self.statuses@[i as int]));
                    assert(status_views(self.statuses@.subrange(0, i + 1)) == status_views(
                        self.statuses@.subrange(0, i as int),
                    ).push(self.statuses@[i as int]@));
                    i += 1;
                }
                assert(self.statuses@.subrange(0, self.statuses@.len() as int) == self.statuses@);
                ScanAction::Finished { statuses: out }
            },
            ScanPhase::Failed => ScanAction::Failed { message: self.error.clone() },
            _ => {
                let name = agent_name_of(self.agent);
                let wt = match &self.member {
                    None => worktree_dir(self.projects_dir.as_str(), self.repo.as_str(), name),
                    Some(k) => {
                        let p = project_dir(self.projects_dir.as_str(), self.repo.as_str());
                        member_worktree_dir(p.as_str(), name, k.as_str())
                    },
                };
                let origin = cat("origin/", self.default_branch.as_str());
                match self.phase {
                    ScanPhase::CheckWorktree => ScanAction::CheckExists { path: wt },
                    ScanPhase::Status => ScanAction::Git {
                        args: list2("status", "--porcelain"),
                        cwd: wt,
                    },
                    ScanPhase::VerifyUpstream => ScanAction::Git {
                        args: list3("rev-parse", "--verify", origin.as_str()),
                        cwd: wt,
                    },
                    _ => {
                        let range = cat("HEAD...", origin.as_str());
                        ScanAction::Git {
                            args: list4("rev-list", "--left-right", "--count", range.as_str()),
                            cwd: wt,
                        }
                    },
                }
            },
        }
    }

    fn next(self) -> (r: StatusScan)
        requires
            self@.agent < agent_count(),
        ensures
            r@ == scan_next(self@),
    {
        let mut m = self;
        m.agent = m.agent + 1;
        m.phase = if m.agent < 2 {
            ScanPhase::CheckWorktree
        } else {
            ScanPhase::Done
        };
        m
    }

    fn record(self, ahead: u32, behind: u32) -> (r: StatusScan)
        requires
            self@.agent < agent_count(),
        ensures
            r@ == scan_record(self@, ahead, behind),
    {
        let mut m = self;
        let st = WorktreeStatus {
            agent: owned(agent_name_of(m.agent)),
            branch: owned(agent_branch_of(m.agent)),
            ahead,
            behind,
            dirty: m.dirty,
            diverged: ahead > 0 && behind > 0,
        };
        let ghost before = status_views(m.statuses@);
        m.statuses.push(st);
        assert(status_views(m.statuses@) == before.push(st@));
        m.next()
    }

    /// Hands the outcome of the pending action to the scan; gives its next state and
    /// the action that state waits on.
    pub fn step(self, e: SyncEvent) -> (r: (StatusScan, ScanAction))
        requires
            self.wf(),
            scan_accepts_spec(self@.phase, e@),
        ensures
            r.0@ == scan_advance_spec(self@, e@),
            r.0.wf(),
            r.1@ == scan_pending_spec(r.0@),
    {
        proof {
            lemma_scan_step_keeps_invariant(self@, e@);
        }
        let m = match self.phase {
            ScanPhase::CheckWorktree => match e {
                SyncEvent::Exists(true) => {
                    let mut m = self;
                    m.phase = ScanPhase::Status;
                    m
                },
                _ => self.next(),
            },
            ScanPhase::Status => match checked(e, "git status") {
                Ok(o) => {
                    let t = trim_str(o.stdout.as_str());
                    let mut m = self;
                    m.dirty = !t.as_str().is_empty();
                    m.phase = ScanPhase::VerifyUpstream;
                    m
                },
                Err(msg) => {
                    let mut m = self;
                    m.phase = ScanPhase::Failed;
                    m.error = msg;
                    m
                },
            },
            ScanPhase::VerifyUpstream => match e {
                SyncEvent::Git(Ok(o)) => if o.success() {
                    let mut m = self;
                    m.phase = ScanPhase::RevList;
                    m
                } else {
                    self.record(0, 0)
                },
                _ => self.record(0, 0),
            },
            ScanPhase::RevList => match e {
                SyncEvent::Git(Ok(o)) => if o.success() {
                    match parse_left_right(o.stdout.as_str()) {
                        Ok((a, b)) => self.record(a, b),
                        Err(_) => self.record(0, 0),
                    }
                } else {
                    self.record(0, 0)
                },
                _ => self.record(0, 0),
            },
            _ => self,
        };
        let a = m.pending();
        (m, a)
    }
}

} // verus!
