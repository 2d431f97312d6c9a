//! The JSON API's answers for single-repository projects, and its plain HTML index.

use vstd::prelude::*;

use crate::error::AppError;
use crate::git::{WorktreeResult, WorktreeStatus};
use crate::github::Repo;
use crate::text::{owned, push_str, views};
use crate::tmux::TmuxEnsureResult;

verus! {

/// A single-repository project's status.
#[derive(Debug)]
pub struct ApiProjectStatus {
    pub name: String,
    pub on_disk: bool,
    pub worktrees: Vec<WorktreeStatus>,
    pub tmux_window_exists: bool,
    /// When it was last synced (milliseconds since the Unix epoch, UTC); not tracked here.
    pub last_synced: Option<i64>,
}

/// The answer to a sync: what was cloned and fetched, each worktree's outcome, and the
/// tmux window.
#[derive(Debug)]
pub struct SyncResponse {
    pub name: String,
    pub created: bool,
    pub fetched: bool,
    pub worktrees: Vec<WorktreeResult>,
    pub tmux: TmuxEnsureResult,
}

/// The status of project `name`, found on disk, with its worktrees.
pub fn api_project_status(name: &str, worktrees: Vec<WorktreeStatus>, tmux_window_exists: bool) -> (r: ApiProjectStatus)
    ensures
        r.name@ == name@,
        r.on_disk,
        r.worktrees@ == worktrees@,
        r.tmux_window_exists == tmux_window_exists,
        r.last_synced is None,
{
    ApiProjectStatus { name: owned(name), on_disk: true, worktrees, tmux_window_exists, last_synced: None }
}

/// The branch a project's worktrees track: the repository's default branch when GitHub
/// lists it, else `main`.
pub fn default_branch_or_main(found: Option<&Repo>) -> (r: String)
    ensures
        r@ == match found {
            Some(g) => g.default_branch@,
            None => "main"@,
        },
{
    match found {
        Some(g) => g.default_branch.clone(),
        None => owned("main"),
    }
}

/// The error for a status request on a project without a bare clone.
pub fn not_on_disk(repo: &str) -> (r: AppError)
    ensures
        r matches AppError::NotFound(m) && m@ == "project not on disk: "@ + repo@,
{
    let mut m = owned("project not on disk: ");
    push_str(&mut m, repo);
    AppError::NotFound(m)
}

// ---------------------------------------------------------------- the HTML index
/// Lines joined with newlines.
pub open spec fn join_lines(items: Seq<Seq<char>>) -> Seq<char>
    decreases items.len(),
{
    if items.len() == 0 {
        Seq::empty()
    } else if items.len() == 1 {
        items[0]
    } else {
        join_lines(items.drop_last()) + "\n"@ + items.last()
    }
}

/// The list item linking to a project's status.
pub open spec fn index_item(name: Seq<char>) -> Seq<char> {
    "<li><a href=\"/api/projects/"@ + name + "/status\">"@ + name + "</a></li>"@
}

/// The index's list items: a link per project, or a hint when there is none.
pub open spec fn index_items(names: Seq<Seq<char>>) -> Seq<char> {
    if names.len() == 0 {
        "<li class=\"meta\">no projects yet — POST /api/projects/{{repo}}/sync</li>"@
    } else {
        join_lines(Seq::new(names.len(), |i: int| index_item(names[i])))
    }
}

pub open spec fn index_head() -> Seq<char> {
    "<!DOCTYPE html>\n<html lang=\"en\">\n<head><meta charset=\"utf-8\"><title>Anchor</title>\n<style>\nbody{font-family:ui-sans-serif,system-ui,sans-serif;margin:2rem;background:#0f1419;color:#e7ecf1}\nh1{font-weight:600;letter-spacing:-0.02em}\na{color:#7cb7ff}\nli{margin:0.35rem 0}\n.meta{color:#8b98a5;font-size:0.9rem}\n</style></head>\n<body>\n<h1>Anchor</h1>\n<p class=\"meta\">projects under "@
}

pub open spec fn index_middle() -> Seq<char> {
    "</p>\n<ul>\n"@
}

pub open spec fn index_tail() -> Seq<char> {
    "\n</ul>\n<p class=\"meta\"><a href=\"/api/projects\">/api/projects</a> · <a href=\"/api/repos\">/api/repos</a> · <a href=\"/healthz\">/healthz</a></p>\n</body></html>"@
}

/// The plain HTML index of the projects on disk under `projects_dir`.
pub open spec fn index_spec(projects_dir: Seq<char>, names: Seq<Seq<char>>) -> Seq<char> {
    index_head() + projects_dir + index_middle() + index_items(names) + index_tail()
}

/// The plain HTML index page listing the projects on disk.
pub fn api_index_html(projects_dir: &str, names: &Vec<String>) -> (r: String)
    ensures
        r@ == index_spec(projects_dir@, views(names@)),
{
    let mut r = owned(
        "<!DOCTYPE html>\n<html lang=\"en\">\n<head><meta charset=\"utf-8\"><title>Anchor</title>\n<style>\nbody{font-family:ui-sans-serif,system-ui,sans-serif;margin:2rem;background:#0f1419;color:#e7ecf1}\nh1{font-weight:600;letter-spacing:-0.02em}\na{color:#7cb7ff}\nli{margin:0.35rem 0}\n.meta{color:#8b98a5;font-size:0.9rem}\n</style></head>\n<body>\n<h1>Anchor</h1>\n<p class=\"meta\">projects under ",
    );
    push_str(&mut r, projects_dir);
    push_str(&mut r, "</p>\n<ul>\n");
    let ghost ns = views(names@);
    if names.len() == 0 {
        push_str(&mut r, "<li class=\"meta\">no projects yet — POST /api/projects/{{repo}}/sync</li>");
    } else {
        let ghost items = Seq::new(ns.len(), |i: int| index_item(ns[i]));
        let ghost head = r@;
        let mut i: usize = 0;
        while i < names.len()
            invariant
                i <= names@.len(),
                ns == views(names@),
                items == Seq::new(ns.len(), |i: int| index_item(ns[i])),
                r@ == head + join_lines(items.subrange(0, i as int)),
            decreases names@.len() - i,
        {
            let ghost before = r@;
            if i > 0 {
                push_str(&mut r, "\n");
            }
            push_str(&mut r, "<li><a href=\"/api/projects/");
            push_str(&mut r, names[i].as_str());
            push_str(&mut r, "/status\">");
            push_str(&mut r, names[i].as_str());
            push_str(&mut r, "</a></li>");
            proof {
                let sub = items.subrange(0, i + 1);
                assert(sub.drop_last() == items.subrange(0, i as int));
                assert(sub.last() == index_item(names@[i as int]@));
                if i == 0 {
                    assert(items.subrange(0, 0) =~= Seq::<Seq<char>>::empty());
                    assert(join_lines(sub) == sub[0]);
                }
            }
            i += 1;
        }
        assert(items.subrange(0, i as int) == items);
    }
    push_str(&mut r, "\n</ul>\n<p class=\"meta\"><a href=\"/api/projects\">/api/projects</a> · <a href=\"/api/repos\">/api/repos</a> · <a href=\"/healthz\">/healthz</a></p>\n</body></html>");
    r
}

} // verus!
