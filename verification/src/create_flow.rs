//! Creating a project from the dashboard's form, as a decision machine: check the slug
//! is free, resolve each requested repository on GitHub in order, store the project,
//! sync its members, and answer with a flash message.
//!
//! The caller performs each step the flow asks for and hands back its outcome.

use vstd::prelude::*;

use crate::dashboard::{
    create_plan_spec, created_message, member_or_flash, plan_create, slug_taken_message,
    CreateProjectForm,
};
use crate::github::{Repo, RepoView as GhRepoView};
use crate::project_store::{repo_views, validate_slug_spec, ProjectRepoRecord, RepoView};
use crate::projects::member_from_github_spec;
use crate::text::views;

verus! {

/// Where a creation stands.
#[derive(Debug, Clone, Copy, PartialEq, Eq, Structural)]
pub enum CreatePhase {
    /// Waiting to learn whether the slug is taken.
    CheckSlug,
    /// Waiting for the GitHub lookup of the requested repository at `next`.
    FindRepo,
    /// Waiting for the project to be stored.
    Save,
    /// Waiting for the members' sync.
    SyncMembers,
    /// Over; the flash message is the answer.
    Finished,
}

/// What the caller must do next.
pub enum CreateStep {
    /// Report whether a stored project already has `slug`.
    CheckSlug { slug: String },
    /// Look up `spec` (`owner/name`) among the GitHub repositories.
    FindRepo { spec: String },
    /// Store the project (giving it a new id and its creation time) and mirror it.
    Save { name: String, slug: String, repos: Vec<ProjectRepoRecord> },
    /// Sync the new project's members (the outcome does not change the answer).
    SyncMembers { slug: String },
    /// Answer with this flash message.
    Flash { is_error: bool, message: String },
}

#[verifier::ext_equal]
pub enum CreateStepView {
    CheckSlug { slug: Seq<char> },
    FindRepo { spec: Seq<char> },
    Save { name: Seq<char>, slug: Seq<char>, repos: Seq<RepoView> },
    SyncMembers { slug: Seq<char> },
    Flash { is_error: bool, message: Seq<char> },
}

impl View for CreateStep {
    type V = CreateStepView;

    open spec fn view(&self) -> CreateStepView {
        match self {
            CreateStep::CheckSlug { slug } => CreateStepView::CheckSlug { slug: slug@ },
            CreateStep::FindRepo { spec } => CreateStepView::FindRepo { spec: spec@ },
            CreateStep::Save { name, slug, repos } => CreateStepView::Save {
                name: name@,
                slug: slug@,
                repos: repo_views(repos@),
            },
            CreateStep::SyncMembers { slug } => CreateStepView::SyncMembers { slug: slug@ },
            CreateStep::Flash { is_error, message } => CreateStepView::Flash {
                is_error: *is_error,
                message: message@,
            },
        }
    }
}

/// The outcome of the last step.
pub enum CreateEvent {
    /// Answer to `CheckSlug`.
    SlugTaken(bool),
    /// Answer to `FindRepo`: the repository, none, or the lookup's error text.
    Found(Result<Option<Repo>, String>),
    /// Answer to `Save`: `Err` holds the error text.
    Saved(Result<(), String>),
    /// Answer to `SyncMembers`.
    Synced,
}

pub enum CreateEventView {
    SlugTaken(bool),
    Found(Result<Option<GhRepoView>, Seq<char>>),
    Saved(Result<(), Seq<char>>),
    Synced,
}

impl View for CreateEvent {
    type V = CreateEventView;

    open spec fn view(&self) -> CreateEventView {
        match self {
            CreateEvent::SlugTaken(b) => CreateEventView::SlugTaken(*b),
            CreateEvent::Found(r) => CreateEventView::Found(
                match r {
                    Ok(Some(g)) => Ok(Some(g@)),
                    Ok(None) => Ok(None),
                    Err(e) => Err(e@),
                },
            ),
            CreateEvent::Saved(r) => CreateEventView::Saved(
                match r {
                    Ok(()) => Ok(()),
                    Err(e) => Err(e@),
                },
            ),
            CreateEvent::Synced => CreateEventView::Synced,
        }
    }
}

/// A creation in progress.
pub struct CreateFlow {
    name: String,
    slug: String,
    specs: Vec<String>,
    next: usize,
    repos: Vec<ProjectRepoRecord>,
    phase: CreatePhase,
    checked: bool,
    is_error: bool,
    message: String,
}

pub struct CreateFlowView {
    pub name: Seq<char>,
    pub slug: Seq<char>,
    pub specs: Seq<Seq<char>>,
    pub next: nat,
    pub repos: Seq<RepoView>,
    pub phase: CreatePhase,
    /// Whether the slug was reported free.
    pub checked: bool,
    pub is_error: bool,
    pub message: Seq<char>,
}

impl View for CreateFlow {
    type V = CreateFlowView;

    closed spec fn view(&self) -> CreateFlowView {
        CreateFlowView {
            name: self.name@,
            slug: self.slug@,
            specs: views(self.specs@),
            next: self.next as nat,
            repos: repo_views(self.repos@),
            phase: self.phase,
            checked: self.checked,
            is_error: self.is_error,
            message: self.message@,
        }
    }
}

/// The step a flow in state `m` waits on.
pub open spec fn create_pending_spec(m: CreateFlowView) -> CreateStepView {
    match m.phase {
        CreatePhase::CheckSlug => CreateStepView::CheckSlug { slug: m.slug },
        CreatePhase::FindRepo => CreateStepView::FindRepo { spec: m.specs[m.next as int] },
        CreatePhase::Save => CreateStepView::Save { name: m.name, slug: m.slug, repos: m.repos },
        CreatePhase::SyncMembers => CreateStepView::SyncMembers { slug: m.slug },
        CreatePhase::Finished => CreateStepView::Flash { is_error: m.is_error, message: m.message },
    }
}

pub open spec fn finish(m: CreateFlowView, is_error: bool, message: Seq<char>) -> CreateFlowView {
    CreateFlowView { phase: CreatePhase::Finished, is_error, message, ..m }
}

/// After the members at `0..next` are resolved: look up the next one, or store.
pub open spec fn lookup_or_save(m: CreateFlowView) -> CreateFlowView {
    if m.next < m.specs.len() {
        CreateFlowView { phase: CreatePhase::FindRepo, ..m }
    } else {
        CreateFlowView { phase: CreatePhase::Save, ..m }
    }
}

/// The flow's first state for a submitted form: refused at once when the form's name
/// or slug is not acceptable, else waiting on the slug check.
pub open spec fn create_initial_spec(name: Seq<char>, slug: Seq<char>, specs: Seq<Seq<char>>) -> CreateFlowView {
    let base = CreateFlowView {
        name: Seq::empty(),
        slug: Seq::empty(),
        specs,
        next: 0,
        repos: Seq::empty(),
        phase: CreatePhase::CheckSlug,
        checked: false,
        is_error: false,
        message: Seq::empty(),
    };
    match create_plan_spec(name, slug) {
        Err(msg) => finish(base, true, msg),
        Ok((n, s)) => CreateFlowView { name: n, slug: s, ..base },
    }
}

/// The state after outcome `e` in state `m`. A taken slug, an unknown repository, a
/// failed lookup or a failed store ends the creation with an error; otherwise the flow
/// goes on, and the answer is `Created project <slug>`.
pub open spec fn create_advance_spec(m: CreateFlowView, e: CreateEventView) -> CreateFlowView {
    match (m.phase, e) {
        (CreatePhase::CheckSlug, CreateEventView::SlugTaken(true)) => finish(
            m,
            true,
            "Slug already exists: "@ + m.slug,
        ),
        (CreatePhase::CheckSlug, CreateEventView::SlugTaken(false)) => lookup_or_save(
            CreateFlowView { checked: true, ..m },
        ),
        (CreatePhase::FindRepo, CreateEventView::Found(Ok(Some(g)))) => lookup_or_save(
            CreateFlowView { next: m.next + 1, repos: m.repos.push(member_from_github_spec(g)), ..m },
        ),
        (CreatePhase::FindRepo, CreateEventView::Found(Ok(None))) => finish(
            m,
            true,
            "Unknown GitHub repo: "@ + m.specs[m.next as int],
        ),
        (CreatePhase::FindRepo, CreateEventView::Found(Err(msg))) => finish(m, true, msg),
        (CreatePhase::Save, CreateEventView::Saved(Err(msg))) => finish(m, true, msg),
        (CreatePhase::Save, CreateEventView::Saved(Ok(()))) => if m.repos.len() > 0 {
            CreateFlowView { phase: CreatePhase::SyncMembers, ..m }
        } else {
            finish(m, false, "Created project "@ + m.slug)
        },
        (CreatePhase::SyncMembers, CreateEventView::Synced) => finish(
            m,
            false,
            "Created project "@ + m.slug,
        ),
        _ => m,
    }
}

/// Whether `e` answers the step of phase `p`.
pub open spec fn create_accepts_spec(p: CreatePhase, e: CreateEventView) -> bool {
    match p {
        CreatePhase::CheckSlug => e is SlugTaken,
        CreatePhase::FindRepo => e is Found,
        CreatePhase::Save => e is Saved,
        CreatePhase::SyncMembers => e is Synced,
        CreatePhase::Finished => true,
    }
}

/// What every state of a flow keeps: the members resolved so far are those at
/// `0..next`; past the slug check, the slug is valid and was reported free.
pub open spec fn create_inv(m: CreateFlowView) -> bool {
    &&& m.next <= m.specs.len()
    &&& m.repos.len() == m.next
    &&& m.phase == CreatePhase::FindRepo ==> m.next < m.specs.len()
    &&& (m.phase == CreatePhase::Save || m.phase == CreatePhase::SyncMembers) ==> m.next
        == m.specs.len()
    &&& m.phase != CreatePhase::Finished ==> validate_slug_spec(m.slug) is Ok
    &&& (m.phase == CreatePhase::FindRepo || m.phase == CreatePhase::Save || m.phase
        == CreatePhase::SyncMembers) ==> m.checked
}

/// Every step keeps the flow's invariant.
pub proof fn lemma_create_step_keeps_invariant(m: CreateFlowView, e: CreateEventView)
    requires
        create_inv(m),
    ensures
        create_inv(create_advance_spec(m, e)),
{
}

/// A project is only stored once its slug is valid and was reported free, and every
/// requested repository was found, in the order asked for.
pub proof fn lemma_save_only_when_resolved(m: CreateFlowView)
    requires
        create_inv(m),
        create_pending_spec(m) is Save,
    ensures
        m.checked,
        validate_slug_spec(m.slug) is Ok,
        m.repos.len() == m.specs.len(),
{
}

impl CreateFlow {
    pub closed spec fn wf(&self) -> bool {
        create_inv(self@)
    }

    /// The creation asked for by `form`, with its first step.
    pub fn start(form: &CreateProjectForm) -> (r: (CreateFlow, CreateStep))
        ensures
            r.0@ == create_initial_spec(form.name@, form.slug@, views(form.repos@)),
            r.0.wf(),
            r.1@ == create_pending_spec(r.0@),
    {
        let mut specs: Vec<String> = Vec::new();
        let mut i: usize = 0;
        while i < form.repos.len()
            invariant
                i <= form.repos@.len(),
                views(specs@) == views(form.repos@).subrange(0, i as int),
            decreases form.repos@.len() - i,
        {
            let ghost before = views(specs@);
            specs.push(form.repos[i].clone());
            assert(views(specs@) == before.push(form.repos@[i as int]@));
            i += 1;
        }
        assert(views(form.repos@).subrange(0, i as int) == views(form.repos@));
        let flow = match plan_create(form) {
            Err(msg) => CreateFlow {
                name: String::new(),
                slug: String::new(),
                specs,
                next: 0,
                repos: Vec::new(),
                phase: CreatePhase::Finished,
                checked: false,
                is_error: true,
                message: msg,
            },
            Ok((name, slug)) => CreateFlow {
                name,
                slug,
                specs,
                next: 0,
                repos: Vec::new(),
                phase: CreatePhase::CheckSlug,
                checked: false,
                is_error: false,
                message: String::new(),
            },
        };
        assert(repo_views(flow.repos@) =~= Seq::<RepoView>::empty());
        let step = flow.pending();
        (flow, step)
    }

    /// The phase the flow is in.
    pub fn phase(&self) -> (r: CreatePhase)
        ensures
            r == self@.phase,
    {
        self.phase
    }

    /// Whether `e` answers the step this flow waits on.
    pub fn accepts(&self, e: &CreateEvent) -> (r: bool)
        ensures
            r == create_accepts_spec(self@.phase, e@),
    {
        match (self.phase, e) {
            (CreatePhase::CheckSlug, CreateEvent::SlugTaken(_)) => true,
            (CreatePhase::FindRepo, CreateEvent::Found(_)) => true,
            (CreatePhase::Save, CreateEvent::Saved(_)) => true,
            (CreatePhase::SyncMembers, CreateEvent::Synced) => true,
            (CreatePhase::Finished, _) => true,
            _ => false,
        }
    }

    /// The step this flow waits on.
    pub fn pending(&self) -> (r: CreateStep)
        requires
            self.wf(),
        ensures
            r@ == create_pending_spec(self@),
    {
        match self.phase {
            CreatePhase::CheckSlug => CreateStep::CheckSlug { slug: self.slug.clone() },
            CreatePhase::FindRepo => {
                assert(views(self.specs@)[self.next as int] == self.specs@[self.next as int]@);
                CreateStep::FindRepo { spec: self.specs[self.next].clone() }
            },
            CreatePhase::Save => {
                let mut repos: Vec<ProjectRepoRecord> = Vec::new();
                let mut i: usize = 0;
                while i < self.repos.len()
                    invariant
                        i <= self.repos@.len(),
                        repo_views(repos@) == repo_views(self.repos@).subrange(0, i as int),
                    decreases self.repos@.len() - i,
                {
                    let r = &self.repos[i];
                    let c = ProjectRepoRecord {
                        owner: r.owner.clone(),
                        name: r.name.clone(),
                        full_name: r.full_name.clone(),
                        clone_url: r.clone_url.clone(),
                        private: r.private,
                        default_branch: r.default_branch.clone(),
                    };
                    let ghost before = repo_views(repos@);
                    repos.push(c);
                    assert(repo_views(repos@) == before.push(self.repos@[i as int]@));
                    i += 1;
                }
                assert(repo_views(self.repos@).subrange(0, i as int) == repo_views(self.repos@));
                CreateStep::Save { name: self.name.clone(), slug: self.slug.clone(), repos }
            },
            CreatePhase::SyncMembers => CreateStep::SyncMembers { slug: self.slug.clone() },
            CreatePhase::Finished => CreateStep::Flash {
                is_error: self.is_error,
                message: self.message.clone(),
            },
        }
    }

    /// Takes the outcome of the step asked for; gives the next state and step.
    pub fn step(self, e: CreateEvent) -> (r: (CreateFlow, CreateStep))
        requires
            self.wf(),
            create_accepts_spec(self@.phase, e@),
        ensures
            r.0@ == create_advance_spec(self@, e@),
            r.0.wf(),
            r.1@ == create_pending_spec(r.0@),
    {
        proof {
            lemma_create_step_keeps_invariant(self@, e@);
        }
        let ghost e_view = e@;
        let mut m = self;
        let ghost before = m@;
        match e {
            CreateEvent::SlugTaken(taken) => if m.phase == CreatePhase::CheckSlug {
                if taken {
                    let msg = slug_taken_message(m.slug.as_str());
                    m.phase = CreatePhase::Finished;
                    m.is_error = true;
                    m.message = msg;
                } else {
                    m.checked = true;
                    if m.next < m.specs.len() {
                        m.phase = CreatePhase::FindRepo;
                    } else {
                        m.phase = CreatePhase::Save;
                    }
                }
            },
            CreateEvent::Found(found) => if m.phase == CreatePhase::FindRepo {
                assert(views(m.specs@)[m.next as int] == m.specs@[m.next as int]@);
                match member_or_flash(m.specs[m.next].as_str(), found) {
                    Ok(rec) => {
                        let ghost old_repos = repo_views(m.repos@);
                        let ghost rv = rec@;
                        m.repos.push(rec);
                        assert(repo_views(m.repos@) == old_repos.push(rv));
                        let n = m.specs.len();
                        assert(views(m.specs@).len() == m.specs@.len());
                        assert(m.next < n);
                        m.next = m.next + 1;
                        if m.next < m.specs.len() {
                            m.phase = CreatePhase::FindRepo;
                        } else {
                            m.phase = CreatePhase::Save;
                        }
                    },
                    Err(msg) => {
                        m.phase = CreatePhase::Finished;
                        m.is_error = true;
                        m.message = msg;
                    },
                }
            },
            CreateEvent::Saved(saved) => if m.phase == CreatePhase::Save {
                match saved {
                Err(msg) => {
                    m.phase = CreatePhase::Finished;
                    m.is_error = true;
                    m.message = msg;
                },
                Ok(()) => {
                    if m.repos.len() > 0 {
                        m.phase = CreatePhase::SyncMembers;
                    } else {
                        let msg = created_message(m.slug.as_str());
                        m.phase = CreatePhase::Finished;
                        m.is_error = false;
                        m.message = msg;
                    }
                },
                }
            },
            CreateEvent::Synced => if m.phase == CreatePhase::SyncMembers {
                let msg = created_message(m.slug.as_str());
                m.phase = CreatePhase::Finished;
                m.is_error = false;
                m.message = msg;
            },
        }
        assert(m@ =~= create_advance_spec(before, e_view));
        let step = m.pending();
        (m, step)
    }
}

} // verus!
