//! The dashboard's HTML: the page shell that defers its lists to htmx partials, the
//! partials themselves, and the project, terminal, settings and login pages. Every
//! piece of data is HTML-escaped.

use vstd::prelude::*;

use crate::dashboard::{CreateRepoOption, RepoRow, RepoRowView, html_escape, html_escape_spec, row_views};
use crate::git::{WorktreeStatus, WorktreeStatusView};
use crate::projects::{MemberStatus, MemberStatusView, ProjectStatus, ProjectStatusView, member_status_views};
use crate::sync_memory::{chip_class_spec, label_spec, LastSyncView};
use crate::sync_plan::status_views;
use crate::terminal::TerminalView;
use crate::text::{decimal, owned, push_str, u64_decimal, views};

verus! {

// ---------------------------------------------------------------- the page frame
/// A full page: the document head (stylesheet and htmx) and `body`.
pub open spec fn page_spec(title: Seq<char>, body: Seq<char>) -> Seq<char> {
    "<!DOCTYPE html>\n<html lang=\"en\">\n<head><meta charset=\"utf-8\"><meta name=\"viewport\" content=\"width=device-width, initial-scale=1\"><title>"@
        + title
        + " · Anchor</title><link rel=\"stylesheet\" href=\"/static/style.css\"><script src=\"https://unpkg.com/htmx.org@2.0.4\"></script></head>\n<body>\n"@
        + body + "\n</body></html>"@
}

fn page(title: &str, body: &str) -> (r: String)
    ensures
        r@ == page_spec(title@, body@),
{
    let mut r = owned(
        "<!DOCTYPE html>\n<html lang=\"en\">\n<head><meta charset=\"utf-8\"><meta name=\"viewport\" content=\"width=device-width, initial-scale=1\"><title>",
    );
    push_str(&mut r, title);
    push_str(
        &mut r,
        " · Anchor</title><link rel=\"stylesheet\" href=\"/static/style.css\"><script src=\"https://unpkg.com/htmx.org@2.0.4\"></script></head>\n<body>\n",
    );
    push_str(&mut r, body);
    push_str(&mut r, "\n</body></html>");
    r
}

/// A labelled chip; `class` colours it.
pub open spec fn chip_spec(class: Seq<char>, label: Seq<char>) -> Seq<char> {
    "<span class=\"chip "@ + class + "\">"@ + label + "</span>"@
}

fn push_chip(r: &mut String, class: &str, label: &str)
    ensures
        final(r)@ == old(r)@ + chip_spec(class@, label@),
{
    push_str(r, "<span class=\"chip ");
    push_str(r, class);
    push_str(r, "\">");
    push_str(r, label);
    push_str(r, "</span>");
}

// ---------------------------------------------------------------- dashboard shell
/// The dashboard shell: it paints at once and loads its lists afterwards.
#[derive(Debug)]
pub struct DashboardTemplate {
    pub healthy: bool,
    pub projects_dir: String,
    pub github_user: String,
    pub github_host: String,
    pub create_repos: Vec<CreateRepoOption>,
}

pub open spec fn create_option_spec(full_name: Seq<char>, private: bool) -> Seq<char> {
    "<option value=\""@ + html_escape_spec(full_name) + "\">"@ + html_escape_spec(full_name) + (if private {
        " (private)"@
    } else {
        Seq::empty()
    }) + "</option>"@
}

pub open spec fn create_options_spec(s: Seq<CreateRepoOption>) -> Seq<char>
    decreases s.len(),
{
    if s.len() == 0 {
        Seq::empty()
    } else {
        create_options_spec(s.drop_last()) + create_option_spec(s.last().full_name@, s.last().private)
    }
}

pub open spec fn dashboard_body_spec(t: DashboardTemplate) -> Seq<char> {
    "<header><h1>Anchor</h1> "@ + (if t.healthy {
        chip_spec("ok"@, "healthy"@)
    } else {
        chip_spec("dirty"@, "unhealthy"@)
    }) + " <span class=\"meta mono\">"@ + html_escape_spec(t.github_user@) + "@"@ + html_escape_spec(
        t.github_host@,
    ) + " · "@ + html_escape_spec(t.projects_dir@)
        + "</span> <a href=\"/settings\">Settings</a> <form method=\"post\" action=\"/logout\" class=\"inline\"><button type=\"submit\">Log out</button></form></header>\n<div id=\"flash\"></div>\n<section><h2>Create project</h2><form class=\"create-project\" hx-post=\"/partials/projects\" hx-target=\"#projects\"><input name=\"name\" placeholder=\"Project name\" required> <input name=\"slug\" placeholder=\"slug (optional)\"> <select name=\"repos\" multiple>"@
        + create_options_spec(t.create_repos@)
        + "</select> <button type=\"submit\">Create project</button></form></section>\n<section><h2>Projects</h2><div id=\"projects\" hx-get=\"/partials/projects\" hx-trigger=\"load\"><div class=\"skeleton-block\"></div></div></section>\n<section><h2>Repositories</h2><div id=\"repos\" hx-get=\"/partials/repos\" hx-trigger=\"load delay:50ms\"><div class=\"skeleton-block\"></div></div></section>"@
}

impl DashboardTemplate {
    /// The dashboard page. The project list loads on page load and the repository list
    /// just after, both through htmx, over skeleton placeholders.
    pub fn render(&self) -> (r: String)
        ensures
            r@ == page_spec("Dashboard"@, dashboard_body_spec(*self)),
    {
        let mut b = owned("<header><h1>Anchor</h1> ");
        if self.healthy {
            push_chip(&mut b, "ok", "healthy");
        } else {
            push_chip(&mut b, "dirty", "unhealthy");
        }
        push_str(&mut b, " <span class=\"meta mono\">");
        push_str(&mut b, html_escape(self.github_user.as_str()).as_str());
        push_str(&mut b, "@");
        push_str(&mut b, html_escape(self.github_host.as_str()).as_str());
        push_str(&mut b, " · ");
        push_str(&mut b, html_escape(self.projects_dir.as_str()).as_str());
        push_str(
            &mut b,
            "</span> <a href=\"/settings\">Settings</a> <form method=\"post\" action=\"/logout\" class=\"inline\"><button type=\"submit\">Log out</button></form></header>\n<div id=\"flash\"></div>\n<section><h2>Create project</h2><form class=\"create-project\" hx-post=\"/partials/projects\" hx-target=\"#projects\"><input name=\"name\" placeholder=\"Project name\" required> <input name=\"slug\" placeholder=\"slug (optional)\"> <select name=\"repos\" multiple>",
        );
        let ghost head = b@;
        let mut i: usize = 0;
        while i < self.create_repos.len()
            invariant
                i <= self.create_repos@.len(),
                b@ == head + create_options_spec(self.create_repos@.subrange(0, i as int)),
            decreases self.create_repos@.len() - i,
        {
            let o = &self.create_repos[i];
            proof {
                let sub = self.create_repos@.subrange(0, i + 1);
                assert(sub.drop_last() == self.create_repos@.subrange(0, i as int));
                assert(sub.last() == *o);
            }
            push_str(&mut b, "<option value=\"");
            let e = html_escape(o.full_name.as_str());
            push_str(&mut b, e.as_str());
            push_str(&mut b, "\">");
            push_str(&mut b, e.as_str());
            if o.private {
                push_str(&mut b, " (private)");
            } else {
                assert(b@ + Seq::<char>::empty() == b@);
            }
            push_str(&mut b, "</option>");
            i += 1;
        }
        assert(self.create_repos@.subrange(0, i as int) == self.create_repos@);
        push_str(
            &mut b,
            "</select> <button type=\"submit\">Create project</button></form></section>\n<section><h2>Projects</h2><div id=\"projects\" hx-get=\"/partials/projects\" hx-trigger=\"load\"><div class=\"skeleton-block\"></div></div></section>\n<section><h2>Repositories</h2><div id=\"repos\" hx-get=\"/partials/repos\" hx-trigger=\"load delay:50ms\"><div class=\"skeleton-block\"></div></div></section>",
        );
        page("Dashboard", b.as_str())
    }
}

// ---------------------------------------------------------------- repositories partial
/// A project a repository can be added to.
#[derive(Debug, Clone)]
pub struct ProjectOption {
    pub slug: String,
    pub name: String,
}

/// One page of the repository list.
#[derive(Debug)]
pub struct ReposPartial {
    pub repos: Vec<RepoRow>,
    pub projects: Vec<ProjectOption>,
    pub github_user: String,
    pub github_host: String,
    pub offset: usize,
    pub has_more: bool,
    pub next_offset: usize,
}

pub open spec fn project_options_spec(s: Seq<ProjectOption>) -> Seq<char>
    decreases s.len(),
{
    if s.len() == 0 {
        Seq::empty()
    } else {
        project_options_spec(s.drop_last()) + "<option value=\""@ + html_escape_spec(s.last().slug@)
            + "\">"@ + html_escape_spec(s.last().name@) + "</option>"@
    }
}

pub open spec fn slug_chips_spec(s: Seq<Seq<char>>) -> Seq<char>
    decreases s.len(),
{
    if s.len() == 0 {
        Seq::empty()
    } else {
        slug_chips_spec(s.drop_last()) + chip_spec("ok"@, html_escape_spec(s.last()))
    }
}

/// The form adding a repository to a project, or a hint when there is no project.
pub open spec fn add_form_spec(projects: Seq<ProjectOption>, full_name: Seq<char>) -> Seq<char> {
    if projects.len() == 0 {
        "<span class=\"meta\">create a project first</span>"@
    } else {
        "<form hx-post=\"/partials/projects/"@ + html_escape_spec(projects[0].slug@)
            + "/repos\" hx-target=\"#repos\"><input type=\"hidden\" name=\"full_name\" value=\""@
            + html_escape_spec(full_name) + "\"><select name=\"project_slug\">"@
            + project_options_spec(projects)
            + "</select> <button type=\"submit\">Add to project</button></form>"@
    }
}

/// The cells of a repository row up to its projects: link, visibility, branch.
pub open spec fn repo_cells_html(full_name: Seq<char>, private: bool, branch: Seq<char>, host: Seq<char>) -> Seq<char> {
    "<tr><td class=\"mono\"><a href=\"https://"@ + html_escape_spec(host) + "/"@ + html_escape_spec(
        full_name,
    ) + "\">"@ + html_escape_spec(full_name) + "</a></td><td>"@ + (if private {
        chip_spec("warn"@, "private"@)
    } else {
        chip_spec("ok"@, "public"@)
    }) + "</td><td class=\"mono\">"@ + html_escape_spec(branch) + "</td><td>"@
}

pub open spec fn repo_row_html(r: RepoRowView, projects: Seq<ProjectOption>, host: Seq<char>) -> Seq<char> {
    repo_cells_html(r.full_name, r.private, r.default_branch, host) + slug_chips_spec(r.in_projects)
        + ("</td><td>"@ + add_form_spec(projects, r.full_name) + "</td></tr>"@)
}

pub open spec fn repo_rows_html(rows: Seq<RepoRowView>, projects: Seq<ProjectOption>, host: Seq<char>) -> Seq<char>
    decreases rows.len(),
{
    if rows.len() == 0 {
        Seq::empty()
    } else {
        repo_rows_html(rows.drop_last(), projects, host) + repo_row_html(rows.last(), projects, host)
    }
}

pub open spec fn repos_partial_spec(t: ReposPartial) -> Seq<char> {
    (if t.repos@.len() == 0 {
        "<p class=\"empty\">No repositories.</p>"@
    } else {
        "<table class=\"repos\"><tbody>"@ + repo_rows_html(row_views(t.repos@), t.projects@, t.github_host@)
            + "</tbody></table>"@
    }) + (if t.has_more {
        "<div id=\"repos-more\"><button hx-get=\"/partials/repos?offset="@ + decimal(t.next_offset as nat)
            + "\" hx-target=\"#repos-more\" hx-swap=\"outerHTML\">Show more</button></div>"@
    } else {
        Seq::empty()
    })
}

fn project_options(projects: &Vec<ProjectOption>) -> (r: String)
    ensures
        r@ == project_options_spec(projects@),
{
    let mut r = String::new();
    let mut i: usize = 0;
    while i < projects.len()
        invariant
            i <= projects@.len(),
            r@ == project_options_spec(projects@.subrange(0, i as int)),
        decreases projects@.len() - i,
    {
        proof {
            let sub = projects@.subrange(0, i + 1);
            assert(sub.drop_last() == projects@.subrange(0, i as int));
            assert(sub.last() == projects@[i as int]);
        }
        push_str(&mut r, "<option value=\"");
        push_str(&mut r, html_escape(projects[i].slug.as_str()).as_str());
        push_str(&mut r, "\">");
        push_str(&mut r, html_escape(projects[i].name.as_str()).as_str());
        push_str(&mut r, "</option>");
        i += 1;
    }
    assert(projects@.subrange(0, i as int) == projects@);
    r
}

fn push_repo_cells(b: &mut String, full_name: &str, private: bool, branch: &str, host: &str)
    ensures
        final(b)@ == old(b)@ + repo_cells_html(full_name@, private, branch@, host@),
{
    let ghost start = b@;
    let mut t = owned("<tr><td class=\"mono\"><a href=\"https://");
    push_str(&mut t, html_escape(host).as_str());
    push_str(&mut t, "/");
    let full = html_escape(full_name);
    push_str(&mut t, full.as_str());
    push_str(&mut t, "\">");
    push_str(&mut t, full.as_str());
    push_str(&mut t, "</a></td><td>");
    if private {
        push_chip(&mut t, "warn", "private");
    } else {
        push_chip(&mut t, "ok", "public");
    }
    push_str(&mut t, "</td><td class=\"mono\">");
    push_str(&mut t, html_escape(branch).as_str());
    push_str(&mut t, "</td><td>");
    push_str(b, t.as_str());
}

fn push_slug_chips(b: &mut String, slugs: &Vec<String>)
    ensures
        final(b)@ == old(b)@ + slug_chips_spec(views(slugs@)),
{
    let ghost head = b@;
    let mut k: usize = 0;
    while k < slugs.len()
        invariant
            k <= slugs@.len(),
            b@ == head + slug_chips_spec(views(slugs@).subrange(0, k as int)),
        decreases slugs@.len() - k,
    {
        proof {
            let sub = views(slugs@).subrange(0, k + 1);
            assert(sub.drop_last() == views(slugs@).subrange(0, k as int));
            assert(sub.last() == slugs@[k as int]@);
        }
        let ghost before = b@;
        let e = html_escape(slugs[k].as_str());
        push_chip(b, "ok", e.as_str());
        assert(b@ == before + chip_spec("ok"@, html_escape_spec(slugs@[k as int]@)));
        k += 1;
    }
    assert(views(slugs@).subrange(0, k as int) == views(slugs@));
}

fn push_add_form(b: &mut String, projects: &Vec<ProjectOption>, options: &str, full_name: &str)
    requires
        options@ == project_options_spec(projects@),
    ensures
        final(b)@ == old(b)@ + ("</td><td>"@ + add_form_spec(projects@, full_name@) + "</td></tr>"@),
{
    let mut t = owned("</td><td>");
    if projects.len() == 0 {
        push_str(&mut t, "<span class=\"meta\">create a project first</span>");
    } else {
        push_str(&mut t, "<form hx-post=\"/partials/projects/");
        push_str(&mut t, html_escape(projects[0].slug.as_str()).as_str());
        push_str(&mut t, "/repos\" hx-target=\"#repos\"><input type=\"hidden\" name=\"full_name\" value=\"");
        push_str(&mut t, html_escape(full_name).as_str());
        push_str(&mut t, "\"><select name=\"project_slug\">");
        push_str(&mut t, options);
        push_str(&mut t, "</select> <button type=\"submit\">Add to project</button></form>");
    }
    push_str(&mut t, "</td></tr>");
    push_str(b, t.as_str());
}

fn push_repo_row(b: &mut String, row: &RepoRow, projects: &Vec<ProjectOption>, options: &str, host: &str)
    requires
        options@ == project_options_spec(projects@),
    ensures
        final(b)@ == old(b)@ + repo_row_html(row@, projects@, host@),
{
    let ghost start = b@;
    push_repo_cells(b, row.full_name.as_str(), row.private, row.default_branch.as_str(), host);
    let ghost a = repo_cells_html(row.full_name@, row.private, row.default_branch@, host@);
    push_slug_chips(b, &row.in_projects);
    let ghost c = slug_chips_spec(views(row.in_projects@));
    push_add_form(b, projects, options, row.full_name.as_str());
    let ghost d = "</td><td>"@ + add_form_spec(projects@, row.full_name@) + "</td></tr>"@;
    assert(b@ == start + a + c + d);
    assert(start + a + c + d =~= start + (a + c + d));
}

impl ReposPartial {
    /// The rows of this page, each with the projects holding it and a form adding it to
    /// a project, and a "Show more" button loading the next page when there is one.
    pub fn render(&self) -> (r: String)
        ensures
            r@ == repos_partial_spec(*self),
    {
        let mut b = String::new();
        if self.repos.len() == 0 {
            push_str(&mut b, "<p class=\"empty\">No repositories.</p>");
        } else {
            let options = project_options(&self.projects);
            push_str(&mut b, "<table class=\"repos\"><tbody>");
            let ghost head = b@;
            let ghost rows = row_views(self.repos@);
            let mut i: usize = 0;
            while i < self.repos.len()
                invariant
                    i <= self.repos@.len(),
                    rows == row_views(self.repos@),
                    options@ == project_options_spec(self.projects@),
                    b@ == head + repo_rows_html(rows.subrange(0, i as int), self.projects@, self.github_host@),
                decreases self.repos@.len() - i,
            {
                proof {
                    let sub = rows.subrange(0, i + 1);
                    assert(sub.drop_last() == rows.subrange(0, i as int));
                    assert(sub.last() == self.repos@[i as int]@);
                }
                push_repo_row(&mut b, &self.repos[i], &self.projects, options.as_str(), self.github_host.as_str());
                i += 1;
            }
            assert(rows.subrange(0, i as int) == rows);
            push_str(&mut b, "</tbody></table>");
        }
        if self.has_more {
            push_str(&mut b, "<div id=\"repos-more\"><button hx-get=\"/partials/repos?offset=");
            push_str(&mut b, u64_decimal(self.next_offset as u64).as_str());
            push_str(&mut b, "\" hx-target=\"#repos-more\" hx-swap=\"outerHTML\">Show more</button></div>");
        } else {
            assert(b@ + Seq::<char>::empty() == b@);
        }
        b
    }
}

// ---------------------------------------------------------------- projects partial
/// The project rows.
#[derive(Debug)]
pub struct ProjectsPartial {
    pub projects: Vec<ProjectStatus>,
}

/// The chip of a project's last sync, if it has one.
pub open spec fn last_sync_chip(l: Option<LastSyncView>) -> Seq<char> {
    match l {
        Some(s) => " <span class=\"chip "@ + chip_class_spec(s.outcome) + "\" title=\""@ + html_escape_spec(
            s.message,
        ) + "\">"@ + label_spec(s.outcome) + "</span>"@,
        None => Seq::empty(),
    }
}

/// The chips of a project's state: on disk, tmux window, last sync.
pub open spec fn state_chips(p: ProjectStatusView) -> Seq<char> {
    (if p.on_disk {
        chip_spec("ok"@, "on disk"@)
    } else {
        chip_spec("dirty"@, "not on disk"@)
    }) + " "@ + (if p.tmux_window_exists {
        chip_spec("ok"@, "tmux window"@)
    } else {
        chip_spec("warn"@, "no tmux window"@)
    }) + last_sync_chip(p.last_sync)
}

pub open spec fn project_row_html(p: ProjectStatusView) -> Seq<char> {
    "<tr><td><a href=\"/projects/"@ + html_escape_spec(p.slug) + "\">"@ + html_escape_spec(p.name)
        + "</a> <span class=\"mono meta\">"@ + html_escape_spec(p.slug) + "</span></td><td>"@
        + decimal(p.member_count as nat) + " members</td><td>"@ + state_chips(p)
        + "</td><td><button hx-post=\"/partials/projects/"@ + html_escape_spec(p.slug)
        + "/sync\" hx-target=\"#projects\">Sync</button></td></tr>"@
}

pub open spec fn project_rows_html(s: Seq<ProjectStatusView>) -> Seq<char>
    decreases s.len(),
{
    if s.len() == 0 {
        Seq::empty()
    } else {
        project_rows_html(s.drop_last()) + project_row_html(s.last())
    }
}

pub open spec fn status_list_views(s: Seq<ProjectStatus>) -> Seq<ProjectStatusView> {
    s.map_values(|p: ProjectStatus| p@)
}

pub open spec fn projects_partial_spec(projects: Seq<ProjectStatusView>) -> Seq<char> {
    if projects.len() == 0 {
        "<p class=\"empty\">No projects yet — create one above, or add a repository to a project.</p>"@
    } else {
        "<table class=\"projects\"><tbody>"@ + project_rows_html(projects) + "</tbody></table>"@
    }
}

fn push_disk_tmux_chips(b: &mut String, on_disk: bool, tmux: bool)
    ensures
        final(b)@ == old(b)@ + ((if on_disk {
            chip_spec("ok"@, "on disk"@)
        } else {
            chip_spec("dirty"@, "not on disk"@)
        }) + " "@ + (if tmux {
            chip_spec("ok"@, "tmux window"@)
        } else {
            chip_spec("warn"@, "no tmux window"@)
        })),
{
    let mut t = String::new();
    if on_disk {
        push_chip(&mut t, "ok", "on disk");
    } else {
        push_chip(&mut t, "dirty", "not on disk");
    }
    push_str(&mut t, " ");
    if tmux {
        push_chip(&mut t, "ok", "tmux window");
    } else {
        push_chip(&mut t, "warn", "no tmux window");
    }
    push_str(b, t.as_str());
}

fn push_last_sync_chip(b: &mut String, l: &Option<crate::sync_memory::LastSync>)
    ensures
        final(b)@ == old(b)@ + last_sync_chip(crate::projects::last_view(*l)),
{
    let mut t = String::new();
    match l {
        Some(s) => {
            push_str(&mut t, " <span class=\"chip ");
            push_str(&mut t, s.chip_class());
            push_str(&mut t, "\" title=\"");
            push_str(&mut t, html_escape(s.message.as_str()).as_str());
            push_str(&mut t, "\">");
            push_str(&mut t, s.label());
            push_str(&mut t, "</span>");
        },
        None => {},
    }
    push_str(b, t.as_str());
}

fn push_state_chips(b: &mut String, p: &ProjectStatus)
    ensures
        final(b)@ == old(b)@ + state_chips(p@),
{
    let ghost start = b@;
    push_disk_tmux_chips(b, p.on_disk, p.tmux_window_exists);
    let ghost mid = b@;
    push_last_sync_chip(b, &p.last_sync);
    assert(b@ =~= start + state_chips(p@));
}

fn push_project_row(b: &mut String, p: &ProjectStatus)
    ensures
        final(b)@ == old(b)@ + project_row_html(p@),
{
    let slug = html_escape(p.slug.as_str());
    push_str(b, "<tr><td><a href=\"/projects/");
    push_str(b, slug.as_str());
    push_str(b, "\">");
    push_str(b, html_escape(p.name.as_str()).as_str());
    push_str(b, "</a> <span class=\"mono meta\">");
    push_str(b, slug.as_str());
    push_str(b, "</span></td><td>");
    push_str(b, u64_decimal(p.member_count as u64).as_str());
    push_str(b, " members</td><td>");
    push_state_chips(b, p);
    push_str(b, "</td><td><button hx-post=\"/partials/projects/");
    push_str(b, slug.as_str());
    push_str(b, "/sync\" hx-target=\"#projects\">Sync</button></td></tr>");
}

impl ProjectsPartial {
    /// A row per project: its name and slug, member count, state chips and a Sync
    /// button; a sentence when there are none.
    pub fn render(&self) -> (r: String)
        ensures
            r@ == projects_partial_spec(status_list_views(self.projects@)),
    {
        if self.projects.len() == 0 {
            return owned("<p class=\"empty\">No projects yet — create one above, or add a repository to a project.</p>");
        }
        let ghost ps = status_list_views(self.projects@);
        let mut b = owned("<table class=\"projects\"><tbody>");
        let ghost head = b@;
        let mut i: usize = 0;
        while i < self.projects.len()
            invariant
                i <= self.projects@.len(),
                ps == status_list_views(self.projects@),
                b@ == head + project_rows_html(ps.subrange(0, i as int)),
            decreases self.projects@.len() - i,
        {
            proof {
                let sub = ps.subrange(0, i + 1);
                assert(sub.drop_last() == ps.subrange(0, i as int));
                assert(sub.last() == self.projects@[i as int]@);
            }
            push_project_row(&mut b, &self.projects[i]);
            i += 1;
        }
        assert(ps.subrange(0, i as int) == ps);
        push_str(&mut b, "</tbody></table>");
        b
    }
}

// ---------------------------------------------------------------- project detail
/// A project's page: its members with their worktrees, Sync, and its terminals.
#[derive(Debug)]
pub struct ProjectDetailTemplate {
    pub project: ProjectStatus,
    pub github_user: String,
    pub github_host: String,
}

pub open spec fn worktree_html(w: WorktreeStatusView) -> Seq<char> {
    "<div class=\"mono\">"@ + html_escape_spec(w.agent) + " "@ + html_escape_spec(w.branch) + " ↑"@
        + decimal(w.ahead as nat) + " ↓"@ + decimal(w.behind as nat) + (if w.dirty {
        " "@ + chip_spec("dirty"@, "dirty"@)
    } else {
        Seq::empty()
    }) + (if w.diverged {
        " "@ + chip_spec("dirty"@, "diverged"@)
    } else {
        Seq::empty()
    }) + "</div>"@
}

pub open spec fn worktrees_html(s: Seq<WorktreeStatusView>) -> Seq<char>
    decreases s.len(),
{
    if s.len() == 0 {
        Seq::empty()
    } else {
        worktrees_html(s.drop_last()) + worktree_html(s.last())
    }
}

pub open spec fn member_row_html(m: MemberStatusView, host: Seq<char>) -> Seq<char> {
    "<tr><td class=\"mono\"><a href=\"https://"@ + html_escape_spec(host) + "/"@ + html_escape_spec(
        m.full_name,
    ) + "\">"@ + html_escape_spec(m.full_name) + "</a></td><td>"@ + (if m.private {
        chip_spec("warn"@, "private"@)
    } else {
        chip_spec("ok"@, "public"@)
    }) + "</td><td class=\"mono\">"@ + html_escape_spec(m.default_branch) + "</td><td>"@
        + worktrees_html(m.worktrees) + "</td></tr>"@
}

pub open spec fn member_rows_html(s: Seq<MemberStatusView>, host: Seq<char>) -> Seq<char>
    decreases s.len(),
{
    if s.len() == 0 {
        Seq::empty()
    } else {
        member_rows_html(s.drop_last(), host) + member_row_html(s.last(), host)
    }
}

pub open spec fn detail_body_spec(p: ProjectStatusView, host: Seq<char>) -> Seq<char> {
    let slug = html_escape_spec(p.slug);
    "<header><h1><a href=\"/\">Anchor</a></h1></header>\n<div id=\"flash\"></div>\n<h2>"@
        + html_escape_spec(p.name) + " <span class=\"mono meta\">"@ + slug + "</span></h2>\n<p>"@
        + state_chips(p) + " <button hx-post=\"/partials/projects/"@ + slug
        + "/sync\" hx-target=\"#projects\">Sync</button> <a href=\"/projects/"@ + slug
        + "/terminal?agent=cursor\">Cursor terminal</a> <a href=\"/projects/"@ + slug
        + "/terminal?agent=opencode\">OpenCode terminal</a></p>\n<div id=\"projects\" hidden></div>\n"@
        + (if p.members.len() == 0 {
        "<p class=\"empty\">No member repositories yet.</p>"@
    } else {
        "<table class=\"members\"><tbody>"@ + member_rows_html(p.members, host) + "</tbody></table>"@
    })
}

fn push_worktree(b: &mut String, w: &WorktreeStatus)
    ensures
        final(b)@ == old(b)@ + worktree_html(w@),
{
    push_str(b, "<div class=\"mono\">");
    push_str(b, html_escape(w.agent.as_str()).as_str());
    push_str(b, " ");
    push_str(b, html_escape(w.branch.as_str()).as_str());
    push_str(b, " ↑");
    push_str(b, u64_decimal(w.ahead as u64).as_str());
    push_str(b, " ↓");
    push_str(b, u64_decimal(w.behind as u64).as_str());
    if w.dirty {
        push_str(b, " ");
        push_chip(b, "dirty", "dirty");
    } else {
        assert(b@ + Seq::<char>::empty() == b@);
    }
    if w.diverged {
        push_str(b, " ");
        push_chip(b, "dirty", "diverged");
    } else {
        assert(b@ + Seq::<char>::empty() == b@);
    }
    push_str(b, "</div>");
}

fn push_member_row(b: &mut String, m: &MemberStatus, host: &str)
    ensures
        final(b)@ == old(b)@ + member_row_html(m@, host@),
{
    push_str(b, "<tr><td class=\"mono\"><a href=\"https://");
    push_str(b, html_escape(host).as_str());
    push_str(b, "/");
    let full = html_escape(m.full_name.as_str());
    push_str(b, full.as_str());
    push_str(b, "\">");
    push_str(b, full.as_str());
    push_str(b, "</a></td><td>");
    if m.private {
        push_chip(b, "warn", "private");
    } else {
        push_chip(b, "ok", "public");
    }
    push_str(b, "</td><td class=\"mono\">");
    push_str(b, html_escape(m.default_branch.as_str()).as_str());
    push_str(b, "</td><td>");
    let ghost head = b@;
    let ghost ws = status_views(m.worktrees@);
    let mut i: usize = 0;
    while i < m.worktrees.len()
        invariant
            i <= m.worktrees@.len(),
            ws == status_views(m.worktrees@),
            b@ == head + worktrees_html(ws.subrange(0, i as int)),
        decreases m.worktrees@.len() - i,
    {
        proof {
            let sub = ws.subrange(0, i + 1);
            assert(sub.drop_last() == ws.subrange(0, i as int));
            assert(sub.last() == m.worktrees@[i as int]@);
        }
        push_worktree(b, &m.worktrees[i]);
        i += 1;
    }
    assert(ws.subrange(0, i as int) == ws);
    push_str(b, "</td></tr>");
}

impl ProjectDetailTemplate {
    /// The project's page.
    pub fn render(&self) -> (r: String)
        ensures
            r@ == page_spec(html_escape_spec(self.project.name@), detail_body_spec(self.project@, self.github_host@)),
    {
        let p = &self.project;
        let slug = html_escape(p.slug.as_str());
        let mut b = owned("<header><h1><a href=\"/\">Anchor</a></h1></header>\n<div id=\"flash\"></div>\n<h2>");
        push_str(&mut b, html_escape(p.name.as_str()).as_str());
        push_str(&mut b, " <span class=\"mono meta\">");
        push_str(&mut b, slug.as_str());
        push_str(&mut b, "</span></h2>\n<p>");
        push_state_chips(&mut b, p);
        push_str(&mut b, " <button hx-post=\"/partials/projects/");
        push_str(&mut b, slug.as_str());
        push_str(&mut b, "/sync\" hx-target=\"#projects\">Sync</button> <a href=\"/projects/");
        push_str(&mut b, slug.as_str());
        push_str(&mut b, "/terminal?agent=cursor\">Cursor terminal</a> <a href=\"/projects/");
        push_str(&mut b, slug.as_str());
        push_str(&mut b, "/terminal?agent=opencode\">OpenCode terminal</a></p>\n<div id=\"projects\" hidden></div>\n");
        if p.members.len() == 0 {
            push_str(&mut b, "<p class=\"empty\">No member repositories yet.</p>");
        } else {
            push_str(&mut b, "<table class=\"members\"><tbody>");
            let ghost head = b@;
            let ghost ms = member_status_views(p.members@);
            let mut i: usize = 0;
            while i < p.members.len()
                invariant
                    i <= p.members@.len(),
                    ms == member_status_views(p.members@),
                    b@ == head + member_rows_html(ms.subrange(0, i as int), self.github_host@),
                decreases p.members@.len() - i,
            {
                proof {
                    let sub = ms.subrange(0, i + 1);
                    assert(sub.drop_last() == ms.subrange(0, i as int));
                    assert(sub.last() == p.members@[i as int]@);
                }
                push_member_row(&mut b, &p.members[i], self.github_host.as_str());
                i += 1;
            }
            assert(ms.subrange(0, i as int) == ms);
            push_str(&mut b, "</tbody></table>");
        }
        let title = html_escape(p.name.as_str());
        page(title.as_str(), b.as_str())
    }
}

// ---------------------------------------------------------------- terminal page
pub open spec fn terminal_script() -> Seq<char> {
    "const term = new Terminal({ cursorBlink: true });\nterm.open(document.getElementById('terminal'));\nconst proto = location.protocol === 'https:' ? 'wss' : 'ws';\nconst ws = new WebSocket(proto + '://' + location.host + '/ws/terminal/' + encodeURIComponent(repo) + '/' + encodeURIComponent(agent));\nws.binaryType = 'arraybuffer';\nws.onmessage = (e) => term.write(typeof e.data === 'string' ? e.data : new Uint8Array(e.data));\nterm.onData((d) => { if (ws.readyState === 1) ws.send(d); });\nconst fit = () => { const cols = Math.max(20, Math.floor(window.innerWidth / 9)); const rows = Math.max(5, Math.floor((window.innerHeight - 80) / 18)); term.resize(cols, rows); if (ws.readyState === 1) ws.send(JSON.stringify({ type: 'resize', cols, rows })); };\nws.onopen = fit;\nwindow.addEventListener('resize', fit);\n"@
}

pub open spec fn terminal_head(t: TerminalView) -> Seq<char> {
    "<header><h1><a href=\"/\">Anchor</a></h1> <span class=\"mono\">"@ + html_escape_spec(t.repo@)
        + "</span> <a href=\"/projects/"@ + html_escape_spec(t.repo@)
        + "/terminal?agent=cursor\">cursor</a> <a href=\"/projects/"@ + html_escape_spec(t.repo@)
        + "/terminal?agent=opencode\">opencode</a> <span class=\"meta\">pane "@ + html_escape_spec(
        t.pane_label@,
    ) + " · session "@ + html_escape_spec(t.session@) + "</span></header>\n<div id=\"flash\"></div>\n"@
}

pub open spec fn terminal_main(t: TerminalView) -> Seq<char> {
    if t.on_disk && t.window_exists {
        "<link rel=\"stylesheet\" href=\"https://cdn.jsdelivr.net/npm/@xterm/xterm@5.5.0/css/xterm.css\"><div id=\"terminal\" class=\"terminal\"></div><script src=\"https://cdn.jsdelivr.net/npm/@xterm/xterm@5.5.0/lib/xterm.js\"></script><script>\nconst repo = "@
            + t.repo_js@ + ";\nconst agent = "@ + t.agent_js@ + ";\n"@ + terminal_script() + "</script>"@
    } else {
        "<p class=\"empty\">"@ + (if !t.on_disk {
            "Project "@ + html_escape_spec(t.repo@) + " is not on disk"@
        } else {
            "No tmux window for "@ + html_escape_spec(t.repo@)
        }) + " — sync the project first.</p><button hx-post=\"/partials/projects/"@ + html_escape_spec(
            t.repo@,
        ) + "/sync\" hx-target=\"#flash\">Sync</button>"@
    }
}

fn terminal_head_html(t: &TerminalView) -> (r: String)
    ensures
        r@ == terminal_head(*t),
{
    let repo = html_escape(t.repo.as_str());
    let mut r = owned("<header><h1><a href=\"/\">Anchor</a></h1> <span class=\"mono\">");
    push_str(&mut r, repo.as_str());
    push_str(&mut r, "</span> <a href=\"/projects/");
    push_str(&mut r, repo.as_str());
    push_str(&mut r, "/terminal?agent=cursor\">cursor</a> <a href=\"/projects/");
    push_str(&mut r, repo.as_str());
    push_str(&mut r, "/terminal?agent=opencode\">opencode</a> <span class=\"meta\">pane ");
    push_str(&mut r, html_escape(t.pane_label.as_str()).as_str());
    push_str(&mut r, " · session ");
    push_str(&mut r, html_escape(t.session.as_str()).as_str());
    push_str(&mut r, "</span></header>\n<div id=\"flash\"></div>\n");
    r
}

fn terminal_main_html(t: &TerminalView) -> (r: String)
    ensures
        r@ == terminal_main(*t),
{
    if t.on_disk && t.window_exists {
        let mut r = owned(
            "<link rel=\"stylesheet\" href=\"https://cdn.jsdelivr.net/npm/@xterm/xterm@5.5.0/css/xterm.css\"><div id=\"terminal\" class=\"terminal\"></div><script src=\"https://cdn.jsdelivr.net/npm/@xterm/xterm@5.5.0/lib/xterm.js\"></script><script>\nconst repo = ",
        );
        push_str(&mut r, t.repo_js.as_str());
        push_str(&mut r, ";\nconst agent = ");
        push_str(&mut r, t.agent_js.as_str());
        push_str(&mut r, ";\n");
        push_str(
            &mut r,
            "const term = new Terminal({ cursorBlink: true });\nterm.open(document.getElementById('terminal'));\nconst proto = location.protocol === 'https:' ? 'wss' : 'ws';\nconst ws = new WebSocket(proto + '://' + location.host + '/ws/terminal/' + encodeURIComponent(repo) + '/' + encodeURIComponent(agent));\nws.binaryType = 'arraybuffer';\nws.onmessage = (e) => term.write(typeof e.data === 'string' ? e.data : new Uint8Array(e.data));\nterm.onData((d) => { if (ws.readyState === 1) ws.send(d); });\nconst fit = () => { const cols = Math.max(20, Math.floor(window.innerWidth / 9)); const rows = Math.max(5, Math.floor((window.innerHeight - 80) / 18)); term.resize(cols, rows); if (ws.readyState === 1) ws.send(JSON.stringify({ type: 'resize', cols, rows })); };\nws.onopen = fit;\nwindow.addEventListener('resize', fit);\n",
        );
        push_str(&mut r, "</script>");
        r
    } else {
        let repo = html_escape(t.repo.as_str());
        let mut r = owned("<p class=\"empty\">");
        if !t.on_disk {
            push_str(&mut r, "Project ");
            push_str(&mut r, repo.as_str());
            push_str(&mut r, " is not on disk");
        } else {
            push_str(&mut r, "No tmux window for ");
            push_str(&mut r, repo.as_str());
        }
        push_str(&mut r, " — sync the project first.</p><button hx-post=\"/partials/projects/");
        push_str(&mut r, repo.as_str());
        push_str(&mut r, "/sync\" hx-target=\"#flash\">Sync</button>");
        r
    }
}

impl TerminalView {
    /// The terminal page: an xterm attached to the agent pane over the terminal socket,
    /// or a prompt to sync when the project or its tmux window is missing.
    pub fn render(&self) -> (r: String)
        ensures
            r@ == page_spec("Terminal"@, terminal_head(*self) + terminal_main(*self)),
    {
        let mut b = terminal_head_html(self);
        push_str(&mut b, terminal_main_html(self).as_str());
        page("Terminal", b.as_str())
    }
}

// ---------------------------------------------------------------- settings page
/// The settings page: the agents' commands, arguments and switches, and notes.
#[derive(Debug)]
pub struct SettingsTemplate {
    pub cursor_cmd: String,
    pub opencode_cmd: String,
    pub cursor_args: String,
    pub opencode_args: String,
    pub cursor_enabled: bool,
    pub opencode_enabled: bool,
    pub install_notes: String,
    pub env_cursor: String,
    pub env_opencode: String,
    pub db_path: String,
    pub saved: bool,
    pub error: Option<String>,
}

/// The fields of one agent: command (placeholder: the environment's default), arguments,
/// and whether its pane runs it.
pub open spec fn agent_fields(agent: Seq<char>, cmd: Seq<char>, env: Seq<char>, args: Seq<char>, enabled: bool) -> Seq<char> {
    "<fieldset><legend>"@ + agent + "</legend><label>Command <input name=\""@ + agent
        + "_cmd\" value=\""@ + html_escape_spec(cmd) + "\" placeholder=\""@ + html_escape_spec(env)
        + "\"></label> <label>Arguments <input name=\""@ + agent + "_args\" value=\""@
        + html_escape_spec(args) + "\"></label> <label><input type=\"checkbox\" name=\""@ + agent
        + "_enabled\""@ + (if enabled {
        " checked"@
    } else {
        Seq::empty()
    }) + "> run in pane</label></fieldset>"@
}

fn agent_fields_html(agent: &str, cmd: &str, env: &str, args: &str, enabled: bool) -> (r: String)
    ensures
        r@ == agent_fields(agent@, cmd@, env@, args@, enabled),
{
    let mut r = owned("<fieldset><legend>");
    push_str(&mut r, agent);
    push_str(&mut r, "</legend><label>Command <input name=\"");
    push_str(&mut r, agent);
    push_str(&mut r, "_cmd\" value=\"");
    push_str(&mut r, html_escape(cmd).as_str());
    push_str(&mut r, "\" placeholder=\"");
    push_str(&mut r, html_escape(env).as_str());
    push_str(&mut r, "\"></label> <label>Arguments <input name=\"");
    push_str(&mut r, agent);
    push_str(&mut r, "_args\" value=\"");
    push_str(&mut r, html_escape(args).as_str());
    push_str(&mut r, "\"></label> <label><input type=\"checkbox\" name=\"");
    push_str(&mut r, agent);
    push_str(&mut r, "_enabled\"");
    if enabled {
        push_str(&mut r, " checked");
    } else {
        assert(r@ + Seq::<char>::empty() == r@);
    }
    push_str(&mut r, "> run in pane</label></fieldset>");
    r
}

pub open spec fn settings_notice(saved: bool, error: Option<Seq<char>>) -> Seq<char> {
    (if saved {
        "<p class=\"flash\">Saved.</p>"@
    } else {
        Seq::empty()
    }) + match error {
        Some(e) => "<p class=\"flash error\">"@ + html_escape_spec(e) + "</p>"@,
        None => Seq::empty(),
    }
}

pub open spec fn settings_body(t: SettingsTemplate) -> Seq<char> {
    "<header><h1><a href=\"/\">Anchor</a></h1> <span class=\"meta\">Settings</span></header>\n"@
        + settings_notice(t.saved, crate::config::opt_str_view(t.error))
        + "<form method=\"post\" action=\"/settings\">"@ + agent_fields(
        "cursor"@,
        t.cursor_cmd@,
        t.env_cursor@,
        t.cursor_args@,
        t.cursor_enabled,
    ) + agent_fields("opencode"@, t.opencode_cmd@, t.env_opencode@, t.opencode_args@, t.opencode_enabled)
        + "<label>Install notes <textarea name=\"install_notes\">"@ + html_escape_spec(t.install_notes@)
        + "</textarea></label> <button type=\"submit\">Save</button></form>\n<p class=\"meta mono\">database "@
        + html_escape_spec(t.db_path@) + "</p>"@
}

fn settings_notice_html(saved: bool, error: &Option<String>) -> (r: String)
    ensures
        r@ == settings_notice(saved, crate::config::opt_str_view(*error)),
{
    let mut b = String::new();
    if saved {
        push_str(&mut b, "<p class=\"flash\">Saved.</p>");
    }
    match error {
        Some(e) => {
            push_str(&mut b, "<p class=\"flash error\">");
            push_str(&mut b, html_escape(e.as_str()).as_str());
            push_str(&mut b, "</p>");
        },
        None => {},
    }
    assert(b@ =~= settings_notice(saved, crate::config::opt_str_view(*error)));
    b
}

fn settings_tail_html(notes: &str, db_path: &str) -> (r: String)
    ensures
        r@ == "<label>Install notes <textarea name=\"install_notes\">"@ + html_escape_spec(notes@)
            + "</textarea></label> <button type=\"submit\">Save</button></form>\n<p class=\"meta mono\">database "@
            + html_escape_spec(db_path@) + "</p>"@,
{
    let mut b = owned("<label>Install notes <textarea name=\"install_notes\">");
    push_str(&mut b, html_escape(notes).as_str());
    push_str(&mut b, "</textarea></label> <button type=\"submit\">Save</button></form>\n<p class=\"meta mono\">database ");
    push_str(&mut b, html_escape(db_path).as_str());
    push_str(&mut b, "</p>");
    b
}

impl SettingsTemplate {
    /// The settings page with its form, and a notice after saving or on error.
    pub fn render(&self) -> (r: String)
        ensures
            r@ == page_spec("Settings"@, settings_body(*self)),
    {
        let head = owned("<header><h1><a href=\"/\">Anchor</a></h1> <span class=\"meta\">Settings</span></header>\n");
        let notice = settings_notice_html(self.saved, &self.error);
        let form = owned("<form method=\"post\" action=\"/settings\">");
        let cursor = agent_fields_html(
            "cursor",
            self.cursor_cmd.as_str(),
            self.env_cursor.as_str(),
            self.cursor_args.as_str(),
            self.cursor_enabled,
        );
        let opencode = agent_fields_html(
            "opencode",
            self.opencode_cmd.as_str(),
            self.env_opencode.as_str(),
            self.opencode_args.as_str(),
            self.opencode_enabled,
        );
        let tail = settings_tail_html(self.install_notes.as_str(), self.db_path.as_str());
        let mut b = head;
        push_str(&mut b, notice.as_str());
        push_str(&mut b, form.as_str());
        push_str(&mut b, cursor.as_str());
        push_str(&mut b, opencode.as_str());
        push_str(&mut b, tail.as_str());
        assert(b@ =~= settings_body(*self));
        page("Settings", b.as_str())
    }
}

// ---------------------------------------------------------------- login page
/// The login page, with the error of a refused attempt.
#[derive(Debug)]
pub struct LoginTemplate {
    pub error: Option<String>,
    pub username: String,
}

pub open spec fn login_body(t: LoginTemplate) -> Seq<char> {
    "<header><h1>Anchor</h1></header>\n"@ + match t.error {
        Some(e) => "<p class=\"flash error\">"@ + html_escape_spec(e@) + "</p>"@,
        None => Seq::empty(),
    } + "<form method=\"post\" action=\"/login\" class=\"login\"><label>User <input name=\"username\" value=\""@
        + html_escape_spec(t.username@)
        + "\" autocomplete=\"username\"></label> <label>Password <input type=\"password\" name=\"password\" autocomplete=\"current-password\"></label> <button type=\"submit\">Log in</button></form>"@
}

impl LoginTemplate {
    /// The login page.
    pub fn render(&self) -> (r: String)
        ensures
            r@ == page_spec("Log in"@, login_body(*self)),
    {
        let mut b = owned("<header><h1>Anchor</h1></header>\n");
        match &self.error {
            Some(e) => {
                push_str(&mut b, "<p class=\"flash error\">");
                push_str(&mut b, html_escape(e.as_str()).as_str());
                push_str(&mut b, "</p>");
            },
            None => {
                assert(b@ + Seq::<char>::empty() == b@);
            },
        }
        push_str(&mut b, "<form method=\"post\" action=\"/login\" class=\"login\"><label>User <input name=\"username\" value=\"");
        push_str(&mut b, html_escape(self.username.as_str()).as_str());
        push_str(
            &mut b,
            "\" autocomplete=\"username\"></label> <label>Password <input type=\"password\" name=\"password\" autocomplete=\"current-password\"></label> <button type=\"submit\">Log in</button></form>",
        );
        page("Log in", b.as_str())
    }
}

} // verus!
