//! The status of a project as the dashboard shows it: its members with their worktrees,
//! whether its directory and tmux window exist, and its last sync.

use vstd::prelude::*;

use crate::error::AppError;
use crate::git::{WorktreeStatus, WorktreeStatusView};
use crate::github::Repo;
use crate::order::{Slugged, sort_by_slug, sorted_by_slug, stable_sort_spec};
use crate::project_store::{ProjectRecord, ProjectRepoRecord, RepoView};
use crate::sync_memory::{LastSync, LastSyncView};
use crate::sync_plan::status_views;
use crate::text::{contains_char, owned, push_str, split_once, split_once_str, str_eq};

verus! {

/// One member repository of a project, with its agent worktrees.
#[derive(Debug, Clone)]
pub struct MemberStatus {
    pub owner: String,
    pub name: String,
    pub full_name: String,
    pub private: bool,
    pub default_branch: String,
    pub worktrees: Vec<WorktreeStatus>,
}

pub struct MemberStatusView {
    pub owner: Seq<char>,
    pub name: Seq<char>,
    pub full_name: Seq<char>,
    pub private: bool,
    pub default_branch: Seq<char>,
    pub worktrees: Seq<WorktreeStatusView>,
}

impl View for MemberStatus {
    type V = MemberStatusView;

    open spec fn view(&self) -> MemberStatusView {
        MemberStatusView {
            owner: self.owner@,
            name: self.name@,
            full_name: self.full_name@,
            private: self.private,
            default_branch: self.default_branch@,
            worktrees: status_views(self.worktrees@),
        }
    }
}

/// A project as the dashboard shows it.
#[derive(Debug, Clone)]
pub struct ProjectStatus {
    pub slug: String,
    pub name: String,
    pub member_count: usize,
    pub members: Vec<MemberStatus>,
    pub on_disk: bool,
    pub tmux_window_exists: bool,
    /// When the last sync ended (milliseconds since the Unix epoch, UTC).
    pub last_synced: Option<i64>,
    pub last_sync: Option<LastSync>,
}

pub struct ProjectStatusView {
    pub slug: Seq<char>,
    pub name: Seq<char>,
    pub member_count: usize,
    pub members: Seq<MemberStatusView>,
    pub on_disk: bool,
    pub tmux_window_exists: bool,
    pub last_synced: Option<i64>,
    pub last_sync: Option<LastSyncView>,
}

pub open spec fn member_status_views(s: Seq<MemberStatus>) -> Seq<MemberStatusView> {
    s.map_values(|m: MemberStatus| m@)
}

pub open spec fn last_view(o: Option<LastSync>) -> Option<LastSyncView> {
    match o {
        Some(l) => Some(l@),
        None => None,
    }
}

impl View for ProjectStatus {
    type V = ProjectStatusView;

    open spec fn view(&self) -> ProjectStatusView {
        ProjectStatusView {
            slug: self.slug@,
            name: self.name@,
            member_count: self.member_count,
            members: member_status_views(self.members@),
            on_disk: self.on_disk,
            tmux_window_exists: self.tmux_window_exists,
            last_synced: self.last_synced,
            last_sync: last_view(self.last_sync),
        }
    }
}

impl Slugged for ProjectStatus {
    open spec fn slug_view(&self) -> Seq<char> {
        self.slug@
    }

    fn slug_str(&self) -> (r: &str) {
        self.slug.as_str()
    }
}

/// A member's status: the member repository with its worktrees.
pub open spec fn member_spec(r: RepoView, worktrees: Seq<WorktreeStatusView>) -> MemberStatusView {
    MemberStatusView {
        owner: r.owner,
        name: r.name,
        full_name: r.full_name,
        private: r.private,
        default_branch: r.default_branch,
        worktrees,
    }
}

/// The status of a project with member repositories `repos`, the `i`-th member's
/// worktrees being `worktrees[i]`.
pub open spec fn status_spec(
    slug: Seq<char>,
    name: Seq<char>,
    repos: Seq<RepoView>,
    worktrees: Seq<Seq<WorktreeStatusView>>,
    on_disk: bool,
    tmux_window_exists: bool,
    last_sync: Option<LastSyncView>,
) -> ProjectStatusView {
    ProjectStatusView {
        slug,
        name,
        member_count: repos.len() as usize,
        members: Seq::new(repos.len(), |i: int| member_spec(repos[i], worktrees[i])),
        on_disk,
        tmux_window_exists,
        last_synced: match last_sync {
            Some(l) => Some(l.at),
            None => None,
        },
        last_sync,
    }
}

pub open spec fn worktree_lists(s: Seq<Vec<WorktreeStatus>>) -> Seq<Seq<WorktreeStatusView>> {
    s.map_values(|v: Vec<WorktreeStatus>| status_views(v@))
}

/// The error for a project that is neither stored nor on disk.
pub fn unknown_project(slug: &str) -> (r: AppError)
    ensures
        r matches AppError::NotFound(m) && m@ == "unknown project: "@ + slug@,
{
    let mut m = owned("unknown project: ");
    push_str(&mut m, slug);
    AppError::NotFound(m)
}

impl ProjectStatus {
    /// The status of `record`, given each member's worktrees (in member order), whether
    /// the project's directory and tmux window exist, and its last sync.
    pub fn assemble(
        record: ProjectRecord,
        worktrees: Vec<Vec<WorktreeStatus>>,
        on_disk: bool,
        tmux_window_exists: bool,
        last_sync: Option<LastSync>,
    ) -> (r: ProjectStatus)
        requires
            worktrees@.len() == record.repos@.len(),
        ensures
            r@ == status_spec(
                record.slug@,
                record.name@,
                record@.repos,
                worktree_lists(worktrees@),
                on_disk,
                tmux_window_exists,
                last_view(last_sync),
            ),
    {
        let ghost repos = record@.repos;
        let ghost lists = worktree_lists(worktrees@);
        let n = record.repos.len();
        let mut members: Vec<MemberStatus> = Vec::new();
        let mut rest = worktrees;
        let mut i: usize = 0;
        while i < n
            invariant
                n == record.repos@.len(),
                repos == record@.repos,
                lists.len() == n,
                i <= n,
                worktree_lists(rest@) == lists.subrange(i as int, n as int),
                member_status_views(members@) == Seq::new(
                    i as nat,
                    |k: int| member_spec(repos[k], lists[k]),
                ),
            decreases n - i,
        {
            let ghost before = member_status_views(members@);
            let ghost rest_before = worktree_lists(rest@);
            assert(rest@.len() == rest_before.len());
            let wts = rest.remove(0);
            assert(status_views(wts@) == rest_before[0]);
            assert(worktree_lists(rest@) =~= rest_before.drop_first());
            let r = &record.repos[i];
            let m = MemberStatus {
                owner: r.owner.clone(),
                name: r.name.clone(),
                full_name: r.full_name.clone(),
                private: r.private,
                default_branch: r.default_branch.clone(),
                worktrees: wts,
            };
            assert(record.repos@[i as int]@ == repos[i as int]);
            assert(lists[i as int] == rest_before[0]);
            assert(m@ == member_spec(repos[i as int], lists[i as int]));
            let ghost mv = m@;
            members.push(m);
            assert(member_status_views(members@) == before.push(mv));
            assert(member_status_views(members@) =~= Seq::new(
                (i + 1) as nat,
                |k: int| member_spec(repos[k], lists[k]),
            ));
            i += 1;
        }
        let last_synced = match &last_sync {
            Some(l) => Some(l.at),
            None => None,
        };
        ProjectStatus {
            slug: record.slug,
            name: record.name,
            member_count: n,
            members,
            on_disk,
            tmux_window_exists,
            last_synced,
            last_sync,
        }
    }
}

/// The project directories to look at besides the listed projects: those whose name is
/// not the slug of a listed project, in order.
pub open spec fn unlisted_spec(listed: Seq<ProjectRecord>, dirs: Seq<Seq<char>>) -> Seq<Seq<char>>
    decreases dirs.len(),
{
    if dirs.len() == 0 {
        Seq::empty()
    } else {
        let r = unlisted_spec(listed, dirs.drop_last());
        if slug_listed(listed, dirs.last()) {
            r
        } else {
            r.push(dirs.last())
        }
    }
}

/// Whether `d` is the slug of a listed project.
pub open spec fn slug_listed(listed: Seq<ProjectRecord>, d: Seq<char>) -> bool {
    exists|i: int| 0 <= i < listed.len() && #[trigger] listed[i].slug@ == d
}

/// The project directory names that are not the slug of a listed project, in order.
pub fn unlisted_dirs(listed: &Vec<ProjectRecord>, dirs: Vec<String>) -> (r: Vec<String>)
    ensures
        crate::text::views(r@) == unlisted_spec(listed@, crate::text::views(dirs@)),
{
    let ghost ds = crate::text::views(dirs@);
    let mut r: Vec<String> = Vec::new();
    let mut i: usize = 0;
    while i < dirs.len()
        invariant
            i <= dirs@.len(),
            ds == crate::text::views(dirs@),
            crate::text::views(r@) == unlisted_spec(listed@, ds.subrange(0, i as int)),
        decreases dirs@.len() - i,
    {
        let mut seen = false;
        let mut j: usize = 0;
        while j < listed.len()
            invariant
                j <= listed@.len(),
                i < dirs@.len(),
                seen == (exists|k: int| 0 <= k < j && #[trigger] listed@[k].slug@ == dirs@[i as int]@),
            decreases listed@.len() - j,
        {
            if str_eq(listed[j].slug.as_str(), dirs[i].as_str()) {
                seen = true;
            }
            j += 1;
        }
        proof {
            assert(ds.subrange(0, i + 1).drop_last() == ds.subrange(0, i as int));
            assert(ds.subrange(0, i + 1).last() == dirs@[i as int]@);
            assert(seen == slug_listed(listed@, dirs@[i as int]@));
        }
        if !seen {
            let ghost before = crate::text::views(r@);
            r.push(dirs[i].clone());
            assert(crate::text::views(r@) == before.push(dirs@[i as int]@));
        }
        i += 1;
    }
    assert(ds.subrange(0, i as int) == ds);
    r
}

/// The names of `entries` (each a directory name and whether it holds a bare clone) that
/// hold a bare clone, in order.
pub open spec fn bare_names(entries: Seq<(String, bool)>) -> Seq<String>
    decreases entries.len(),
{
    if entries.len() == 0 {
        Seq::empty()
    } else if entries.last().1 {
        bare_names(entries.drop_last()).push(entries.last().0)
    } else {
        bare_names(entries.drop_last())
    }
}

/// The repositories on disk on their own: of the directories under the projects
/// directory (each with whether it holds `.bare`), the names of those holding a bare
/// clone, in ascending order.
pub fn on_disk_names(entries: Vec<(String, bool)>) -> (r: Vec<String>)
    ensures
        r@ == stable_sort_spec(bare_names(entries@)),
        r@.to_multiset() == bare_names(entries@).to_multiset(),
        sorted_by_slug(r@),
{
    let mut names: Vec<String> = Vec::new();
    let mut entries = entries;
    let ghost all = entries@;
    let ghost d: int = 0;
    assert(all.subrange(0, 0) =~= Seq::<(String, bool)>::empty());
    assert(all.subrange(0, all.len() as int) == all);
    while entries.len() > 0
        invariant
            0 <= d <= all.len(),
            entries@ == all.subrange(d, all.len() as int),
            names@ == bare_names(all.subrange(0, d)),
        decreases entries@.len(),
    {
        let (name, bare) = entries.remove(0);
        proof {
            assert(all.subrange(0, d + 1).drop_last() == all.subrange(0, d));
            assert(all[d] == (name, bare));
            d = d + 1;
            assert(entries@ == all.subrange(d, all.len() as int));
        }
        if bare {
            names.push(name);
        }
    }
    assert(d == all.len());
    crate::order::sort_names(names)
}

/// Project statuses ordered by slug (`list_statuses` orders what it gathers).
pub fn order_statuses(v: Vec<ProjectStatus>) -> (r: Vec<ProjectStatus>)
    ensures
        r@ == stable_sort_spec(v@),
        r@.to_multiset() == v@.to_multiset(),
        sorted_by_slug(r@),
{
    sort_by_slug(v)
}

// ---------------------------------------------------------------- member names
/// `owner/name` split in two, when both halves are non-empty and the name holds no `/`.
pub open spec fn split_full_spec(full: Seq<char>) -> Option<(Seq<char>, Seq<char>)> {
    match split_once(full, '/') {
        Some((o, n)) => if o.len() == 0 || n.len() == 0 || n.contains('/') {
            None
        } else {
            Some((o, n))
        },
        None => None,
    }
}

/// Splits `owner/name`.
pub fn split_full_name(full: &str) -> (r: Option<(String, String)>)
    ensures
        match r {
            Some((o, n)) => split_full_spec(full@) == Some((o@, n@)),
            None => split_full_spec(full@) is None,
        },
{
    match split_once_str(full, '/') {
        Some((o, n)) => {
            if o.as_str().is_empty() || n.as_str().is_empty() || contains_char(n.as_str(), '/') {
                None
            } else {
                Some((o, n))
            }
        },
        None => None,
    }
}

/// Both halves of a split full name put back together, with `/` between them, give the
/// full name again.
pub proof fn lemma_split_full_name_rejoins(full: Seq<char>)
    requires
        split_full_spec(full) is Some,
    ensures
        ({
            let (o, n) = split_full_spec(full)->0;
            o + seq!['/'] + n == full && !o.contains('/') && !n.contains('/')
        }),
{
    full.index_of_first_ensures('/');
    let i = full.index_of_first('/')->0;
    let (o, n) = split_full_spec(full)->0;
    assert(o == full.subrange(0, i));
    assert(o + seq!['/'] + n =~= full);
    assert forall|k: int| 0 <= k < o.len() implies o[k] != '/' by {
        assert(o[k] == full[k]);
    }
}

/// The member record of a GitHub repository: owner and name from its full name (the
/// owner `unknown` when that is not `owner/name`).
pub open spec fn member_from_github_spec(r: crate::github::RepoView) -> RepoView {
    let (owner, name) = match split_full_spec(r.full_name) {
        Some((o, n)) => (o, n),
        None => (Seq::<char>::empty(), r.name),
    };
    RepoView {
        owner: if owner.len() == 0 {
            "unknown"@
        } else {
            owner
        },
        name,
        full_name: r.full_name,
        clone_url: r.clone_url,
        private: r.private,
        default_branch: r.default_branch,
    }
}

/// The project member record of a GitHub repository.
pub fn repo_record_from_github(r: &Repo) -> (m: ProjectRepoRecord)
    ensures
        m@ == member_from_github_spec(r@),
{
    let (owner, name) = match split_full_name(r.full_name.as_str()) {
        Some((o, n)) => (o, n),
        None => (String::new(), r.name.clone()),
    };
    ProjectRepoRecord {
        owner: if owner.as_str().is_empty() {
            owned("unknown")
        } else {
            owner
        },
        name,
        full_name: r.full_name.clone(),
        clone_url: r.clone_url.clone(),
        private: r.private,
        default_branch: r.default_branch.clone(),
    }
}

} // verus!
