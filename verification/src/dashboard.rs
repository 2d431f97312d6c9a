//! The operator dashboard's logic: reading its forms, creating projects and adding
//! members, the repository rows with the projects each belongs to, and the HTML-escaped
//! flash messages.

use vstd::prelude::*;

use crate::error::{AppError, redact_secrets, redact_spec};
use crate::github::{Repo, RepoList, RepoView as GhRepoView};
use crate::project_store::{
    ProjectRecord, ProjectRecordView, ProjectRepoRecord, RepoView, record_views, slugify,
    slugify_spec, validate_slug, validate_slug_spec,
};
use crate::projects::{member_from_github_spec, repo_record_from_github};
use crate::string_map::entry_views;
use crate::text::{chars_of, owned, push_char, push_str, str_eq, trim, trim_str, views};

verus! {

/// Repository rows on the first paint of the list; the rest load with "Show more".
pub const REPOS_PAGE_SIZE: usize = 40;

// ---------------------------------------------------------------- escaping
/// The HTML text of one character: `&`, `<`, `>` and `"` as entities.
pub open spec fn escape_char(c: char) -> Seq<char> {
    if c == '&' {
        "&amp;"@
    } else if c == '<' {
        "&lt;"@
    } else if c == '>' {
        "&gt;"@
    } else if c == '"' {
        "&quot;"@
    } else {
        seq![c]
    }
}

/// `s` as HTML text.
pub open spec fn html_escape_spec(s: Seq<char>) -> Seq<char>
    decreases s.len(),
{
    if s.len() == 0 {
        Seq::empty()
    } else {
        html_escape_spec(s.drop_last()) + escape_char(s.last())
    }
}

/// Escapes `&`, `<`, `>` and `"` for HTML.
pub fn html_escape(s: &str) -> (r: String)
    ensures
        r@ == html_escape_spec(s@),
{
    let v = chars_of(s);
    let mut r = String::new();
    let mut i: usize = 0;
    while i < v.len()
        invariant
            i <= v@.len(),
            v@ == s@,
            r@ == html_escape_spec(v@.subrange(0, i as int)),
        decreases v@.len() - i,
    {
        assert(v@.subrange(0, i + 1).drop_last() == v@.subrange(0, i as int));
        let c = v[i];
        if c == '&' {
            push_str(&mut r, "&amp;");
        } else if c == '<' {
            push_str(&mut r, "&lt;");
        } else if c == '>' {
            push_str(&mut r, "&gt;");
        } else if c == '"' {
            push_str(&mut r, "&quot;");
        } else {
            push_char(&mut r, c);
        }
        i += 1;
    }
    assert(v@.subrange(0, i as int) == v@);
    r
}

/// Escaped text holds no `<`, `>` or `"`: it cannot open or close a tag or an attribute.
pub proof fn lemma_escaped_has_no_markup(s: Seq<char>)
    ensures
        !html_escape_spec(s).contains('<'),
        !html_escape_spec(s).contains('>'),
        !html_escape_spec(s).contains('"'),
    decreases s.len(),
{
    reveal_strlit("&amp;");
    reveal_strlit("&lt;");
    reveal_strlit("&gt;");
    reveal_strlit("&quot;");
    if s.len() > 0 {
        lemma_escaped_has_no_markup(s.drop_last());
        let a = html_escape_spec(s.drop_last());
        let b = escape_char(s.last());
        assert forall|c: char| c == '<' || c == '>' || c == '"' implies !(a + b).contains(c) by {
            if (a + b).contains(c) {
                let k = choose|k: int| 0 <= k < (a + b).len() && (a + b)[k] == c;
                if k < a.len() {
                    assert(a[k] == c);
                } else {
                    assert(b[k - a.len()] == c);
                }
            }
        }
    }
}

/// The flash message box, swapped in out of band: its class marks errors.
pub open spec fn flash_spec(is_error: bool, msg: Seq<char>) -> Seq<char> {
    "<div class=\""@ + (if is_error {
        "flash error"@
    } else {
        "flash"@
    }) + "\" id=\"flash\" hx-swap-oob=\"true\">"@ + html_escape_spec(msg) + "</div>"@
}

/// The flash message box for `msg`.
pub fn flash_html(is_error: bool, msg: &str) -> (r: String)
    ensures
        r@ == flash_spec(is_error, msg@),
{
    let mut r = owned("<div class=\"");
    if is_error {
        push_str(&mut r, "flash error");
    } else {
        push_str(&mut r, "flash");
    }
    push_str(&mut r, "\" id=\"flash\" hx-swap-oob=\"true\">");
    push_str(&mut r, html_escape(msg).as_str());
    push_str(&mut r, "</div>");
    r
}

/// The flash after adding `full_name` to project `target`.
pub open spec fn added_flash_spec(full_name: Seq<char>, target: Seq<char>) -> Seq<char> {
    "<div class=\"flash\" id=\"flash\" hx-swap-oob=\"true\">Added <span class=\"mono\">"@
        + html_escape_spec(full_name) + "</span> to <span class=\"mono\">"@ + html_escape_spec(
        target,
    ) + "</span>.</div>"@
}

pub fn added_flash(full_name: &str, target: &str) -> (r: String)
    ensures
        r@ == added_flash_spec(full_name@, target@),
{
    let mut r = owned("<div class=\"flash\" id=\"flash\" hx-swap-oob=\"true\">Added <span class=\"mono\">");
    push_str(&mut r, html_escape(full_name).as_str());
    push_str(&mut r, "</span> to <span class=\"mono\">");
    push_str(&mut r, html_escape(target).as_str());
    push_str(&mut r, "</span>.</div>");
    r
}

/// The flash after a sync: what it did, or why it failed (secrets redacted).
pub open spec fn sync_flash_spec(slug: Seq<char>, outcome: Result<Seq<char>, Seq<char>>) -> Seq<char> {
    match outcome {
        Ok(summary) => "<div class=\"flash\" id=\"flash\" hx-swap-oob=\"true\">Synced <span class=\"mono\">"@
            + html_escape_spec(slug) + "</span> — "@ + html_escape_spec(summary) + ".</div>"@,
        Err(e) => "<div class=\"flash error\" id=\"flash\" hx-swap-oob=\"true\">Sync failed: "@
            + html_escape_spec(redact_spec(e)) + "</div>"@,
    }
}

/// The flash after syncing `slug`: `outcome` is the sync's summary, or its error text.
pub fn sync_flash(slug: &str, outcome: Result<String, String>) -> (r: String)
    ensures
        r@ == sync_flash_spec(
            slug@,
            match outcome {
                Ok(s) => Ok(s@),
                Err(e) => Err(e@),
            },
        ),
{
    match outcome {
        Ok(summary) => {
            let mut r = owned("<div class=\"flash\" id=\"flash\" hx-swap-oob=\"true\">Synced <span class=\"mono\">");
            push_str(&mut r, html_escape(slug).as_str());
            push_str(&mut r, "</span> — ");
            push_str(&mut r, html_escape(summary.as_str()).as_str());
            push_str(&mut r, ".</div>");
            r
        },
        Err(e) => {
            let mut r = owned("<div class=\"flash error\" id=\"flash\" hx-swap-oob=\"true\">Sync failed: ");
            let safe = redact_secrets(e.as_str());
            push_str(&mut r, html_escape(safe.as_str()).as_str());
            push_str(&mut r, "</div>");
            r
        },
    }
}

// ---------------------------------------------------------------- forms
/// The pairs of an `application/x-www-form-urlencoded` body, decoded, in order
/// (`form_urlencoded::parse`).
pub uninterp spec fn form_pairs_spec(body: Seq<u8>) -> Seq<(Seq<char>, Seq<char>)>;

/// The decoded pairs of a form body (`form_urlencoded::parse`), each key and value made
/// an owned string.
#[verifier::external_body]
fn form_pairs(body: &[u8]) -> (r: Vec<(String, String)>)
    ensures
        entry_views(r@) == form_pairs_spec(body@),
{
    form_urlencoded::parse(body).map(|(k, v)| (k.into_owned(), v.into_owned())).collect()
}

/// The create-project form: display name, slug, and the `owner/name` of each member.
#[derive(Debug)]
pub struct CreateProjectForm {
    pub name: String,
    pub slug: String,
    pub repos: Vec<String>,
}

/// The create-project form read from its pairs: the last `name` and `slug` given, and
/// every non-empty `repos` value in order.
pub open spec fn create_form_spec(pairs: Seq<(Seq<char>, Seq<char>)>) -> (Seq<char>, Seq<char>, Seq<Seq<char>>)
    decreases pairs.len(),
{
    if pairs.len() == 0 {
        (Seq::empty(), Seq::empty(), Seq::empty())
    } else {
        let (name, slug, repos) = create_form_spec(pairs.drop_last());
        let (k, v) = pairs.last();
        if k == "name"@ {
            (v, slug, repos)
        } else if k == "slug"@ {
            (name, v, repos)
        } else if k == "repos"@ && v.len() > 0 {
            (name, slug, repos.push(v))
        } else {
            (name, slug, repos)
        }
    }
}

/// Reads the create-project form from its body.
pub fn parse_create_form(bytes: &[u8]) -> (r: CreateProjectForm)
    ensures
        (r.name@, r.slug@, views(r.repos@)) == create_form_spec(form_pairs_spec(bytes@)),
{
    let pairs = form_pairs(bytes);
    let ghost ps = form_pairs_spec(bytes@);
    let mut name = String::new();
    let mut slug = String::new();
    let mut repos: Vec<String> = Vec::new();
    let mut i: usize = 0;
    while i < pairs.len()
        invariant
            i <= pairs@.len(),
            entry_views(pairs@) == ps,
            (name@, slug@, views(repos@)) == create_form_spec(ps.subrange(0, i as int)),
        decreases pairs@.len() - i,
    {
        assert(ps.subrange(0, i + 1).drop_last() == ps.subrange(0, i as int));
        assert(ps.subrange(0, i + 1).last() == (pairs@[i as int].0@, pairs@[i as int].1@));
        let k = pairs[i].0.as_str();
        let v = &pairs[i].1;
        if str_eq(k, "name") {
            name = v.clone();
        } else if str_eq(k, "slug") {
            slug = v.clone();
        } else if str_eq(k, "repos") && !v.as_str().is_empty() {
            let ghost before = views(repos@);
            repos.push(v.clone());
            assert(views(repos@) == before.push(v@));
        }
        i += 1;
    }
    assert(ps.subrange(0, i as int) == ps);
    CreateProjectForm { name, slug, repos }
}

/// The add-member form: the repository's `owner/name` and, optionally, another target
/// project.
#[derive(Debug)]
pub struct AddRepoForm {
    pub full_name: String,
    pub project_slug: String,
}

/// The add-member form read from its pairs: the last `full_name` and `project_slug`.
pub open spec fn add_form_spec(pairs: Seq<(Seq<char>, Seq<char>)>) -> (Seq<char>, Seq<char>)
    decreases pairs.len(),
{
    if pairs.len() == 0 {
        (Seq::empty(), Seq::empty())
    } else {
        let (full, slug) = add_form_spec(pairs.drop_last());
        let (k, v) = pairs.last();
        if k == "full_name"@ {
            (v, slug)
        } else if k == "project_slug"@ {
            (full, v)
        } else {
            (full, slug)
        }
    }
}

/// Reads the add-member form from its body.
pub fn parse_add_repo_form(bytes: &[u8]) -> (r: AddRepoForm)
    ensures
        (r.full_name@, r.project_slug@) == add_form_spec(form_pairs_spec(bytes@)),
{
    let pairs = form_pairs(bytes);
    let ghost ps = form_pairs_spec(bytes@);
    let mut full_name = String::new();
    let mut project_slug = String::new();
    let mut i: usize = 0;
    while i < pairs.len()
        invariant
            i <= pairs@.len(),
            entry_views(pairs@) == ps,
            (full_name@, project_slug@) == add_form_spec(ps.subrange(0, i as int)),
        decreases pairs@.len() - i,
    {
        assert(ps.subrange(0, i + 1).drop_last() == ps.subrange(0, i as int));
        assert(ps.subrange(0, i + 1).last() == (pairs@[i as int].0@, pairs@[i as int].1@));
        let k = pairs[i].0.as_str();
        if str_eq(k, "full_name") {
            full_name = pairs[i].1.clone();
        } else if str_eq(k, "project_slug") {
            project_slug = pairs[i].1.clone();
        }
        i += 1;
    }
    assert(ps.subrange(0, i as int) == ps);
    AddRepoForm { full_name, project_slug }
}

// ---------------------------------------------------------------- creating projects
/// The project a create form asks for, as (display name, slug), or the flash text that
/// refuses it: the name is trimmed and required; the slug is the trimmed slug given, or
/// else the name's slug; it must be valid.
pub open spec fn create_plan_spec(name: Seq<char>, slug: Seq<char>) -> Result<(Seq<char>, Seq<char>), Seq<char>> {
    let n = trim(name);
    if n.len() == 0 {
        Err("Project name is required."@)
    } else {
        let s = if trim(slug).len() == 0 {
            slugify_spec(n)
        } else {
            trim(slug)
        };
        match validate_slug_spec(s) {
            Err(e) => Err(e),
            Ok(()) => Ok((n, s)),
        }
    }
}

/// The display name and slug of the project a create form asks for, or the flash text
/// that refuses it.
pub fn plan_create(form: &CreateProjectForm) -> (r: Result<(String, String), String>)
    ensures
        match r {
            Ok((n, s)) => create_plan_spec(form.name@, form.slug@) == Ok::<(Seq<char>, Seq<char>), Seq<char>>((n@, s@)),
            Err(e) => create_plan_spec(form.name@, form.slug@) == Err::<(Seq<char>, Seq<char>), Seq<char>>(e@),
        },
{
    let name = trim_str(form.name.as_str());
    if name.as_str().is_empty() {
        return Err(owned("Project name is required."));
    }
    let given = trim_str(form.slug.as_str());
    let slug = if given.as_str().is_empty() {
        slugify(name.as_str())
    } else {
        given
    };
    match validate_slug(slug.as_str()) {
        Err(e) => Err(e),
        Ok(()) => Ok((name, slug)),
    }
}

/// The flash text for a slug already in use.
pub fn slug_taken_message(slug: &str) -> (r: String)
    ensures
        r@ == "Slug already exists: "@ + slug@,
{
    let mut r = owned("Slug already exists: ");
    push_str(&mut r, slug);
    r
}

/// The flash text after creating a project.
pub fn created_message(slug: &str) -> (r: String)
    ensures
        r@ == "Created project "@ + slug@,
{
    let mut r = owned("Created project ");
    push_str(&mut r, slug);
    r
}

/// A member asked for by `spec`, from the GitHub lookup's result: its record, or the
/// flash text that stops the creation (an unknown repository, or the lookup's error).
pub fn member_or_flash(spec: &str, found: Result<Option<Repo>, String>) -> (r: Result<ProjectRepoRecord, String>)
    ensures
        match found {
            Ok(Some(g)) => r matches Ok(m) && m@ == member_from_github_spec(g@),
            Ok(None) => r matches Err(e) && e@ == "Unknown GitHub repo: "@ + spec@,
            Err(e) => r matches Err(f) && f@ == e@,
        },
{
    match found {
        Ok(Some(g)) => Ok(repo_record_from_github(&g)),
        Ok(None) => {
            let mut m = owned("Unknown GitHub repo: ");
            push_str(&mut m, spec);
            Err(m)
        },
        Err(e) => Err(e),
    }
}

/// The project made from a single GitHub repository asked for by `slug` when no stored
/// project has that slug: the slug itself when valid, else the repository name's slug;
/// its default branch, and the repository as its one member.
pub open spec fn legacy_record_spec(
    slug: Seq<char>,
    g: GhRepoView,
    id: Seq<char>,
    created_at: Seq<char>,
) -> ProjectRecordView {
    ProjectRecordView {
        id,
        slug: if validate_slug_spec(slug) is Ok {
            slug
        } else {
            slugify_spec(g.name)
        },
        name: g.name,
        default_branch: Some(g.default_branch),
        created_at,
        repos: seq![member_from_github_spec(g)],
    }
}

/// The project wrapped around a single GitHub repository, for a sync of an unknown slug.
pub fn legacy_record(slug: &str, g: &Repo, id: String, created_at: String) -> (r: ProjectRecord)
    ensures
        r@ == legacy_record_spec(slug@, g@, id@, created_at@),
{
    let project_slug = if validate_slug(slug).is_ok() {
        owned(slug)
    } else {
        slugify(g.name.as_str())
    };
    let mut repos: Vec<ProjectRepoRecord> = Vec::new();
    repos.push(repo_record_from_github(g));
    let r = ProjectRecord {
        id,
        slug: project_slug,
        name: g.name.clone(),
        default_branch: Some(g.default_branch.clone()),
        created_at,
        repos,
    };
    assert(r@.repos =~= seq![member_from_github_spec(g@)]);
    r
}

/// The project a member is added to: the form's trimmed target when given, else the one
/// in the path.
pub fn add_repo_target(path_slug: String, form: &AddRepoForm) -> (r: String)
    ensures
        r@ == if trim(form.project_slug@).len() == 0 {
            path_slug@
        } else {
            trim(form.project_slug@)
        },
{
    let t = trim_str(form.project_slug.as_str());
    if t.as_str().is_empty() {
        path_slug
    } else {
        t
    }
}

/// The error for a repository GitHub does not list.
pub fn unknown_repo(full_name: &str) -> (r: AppError)
    ensures
        r matches AppError::NotFound(m) && m@ == "unknown GitHub repo: "@ + full_name@,
{
    let mut m = owned("unknown GitHub repo: ");
    push_str(&mut m, full_name);
    AppError::NotFound(m)
}

// ---------------------------------------------------------------- repository rows
/// One row of the repository list: the repository and the projects it belongs to.
#[derive(Debug, Clone)]
pub struct RepoRow {
    pub full_name: String,
    pub private: bool,
    pub default_branch: String,
    pub in_projects: Vec<String>,
}

pub struct RepoRowView {
    pub full_name: Seq<char>,
    pub private: bool,
    pub default_branch: Seq<char>,
    pub in_projects: Seq<Seq<char>>,
}

impl View for RepoRow {
    type V = RepoRowView;

    open spec fn view(&self) -> RepoRowView {
        RepoRowView {
            full_name: self.full_name@,
            private: self.private,
            default_branch: self.default_branch@,
            in_projects: views(self.in_projects@),
        }
    }
}

pub open spec fn row_views(s: Seq<RepoRow>) -> Seq<RepoRowView> {
    s.map_values(|r: RepoRow| r@)
}

/// The text before the first `/` of a full name (all of it when there is none).
pub open spec fn owner_part(full: Seq<char>) -> Seq<char> {
    match full.index_of_first('/') {
        Some(i) => full.subrange(0, i),
        None => full,
    }
}

/// Whether member `m` is GitHub repository `r`: the same full name, or the same name
/// under the same owner.
pub open spec fn member_is(m: RepoView, r: GhRepoView) -> bool {
    m.full_name == r.full_name || (m.name == r.name && m.owner == owner_part(r.full_name))
}

/// Whether project `p` has `r` among its members.
pub open spec fn project_has(p: ProjectRecordView, r: GhRepoView) -> bool {
    exists|j: int| 0 <= j < p.repos.len() && member_is(#[trigger] p.repos[j], r)
}

/// The slugs of the projects, in order, that have `r` among their members.
pub open spec fn in_projects_spec(projects: Seq<ProjectRecordView>, r: GhRepoView) -> Seq<Seq<char>>
    decreases projects.len(),
{
    if projects.len() == 0 {
        Seq::empty()
    } else {
        let rest = in_projects_spec(projects.drop_last(), r);
        if project_has(projects.last(), r) {
            rest.push(projects.last().slug)
        } else {
            rest
        }
    }
}

pub open spec fn row_spec(r: GhRepoView, projects: Seq<ProjectRecordView>) -> RepoRowView {
    RepoRowView {
        full_name: r.full_name,
        private: r.private,
        default_branch: r.default_branch,
        in_projects: in_projects_spec(projects, r),
    }
}

/// Whether member `m` names GitHub repository `r`: it has `r`'s full name, or `r`'s name
/// and an owner that is the part of `r`'s full name before its first `/` (all of it when
/// there is no `/`).
pub open spec fn names_repository(m: RepoView, r: GhRepoView) -> bool {
    ||| m.full_name == r.full_name
    ||| m.name == r.name && !m.owner.contains('/') && (r.full_name == m.owner || (m.owner
        + seq!['/']).is_prefix_of(r.full_name))
}

proof fn lemma_member_is_names(m: RepoView, r: GhRepoView)
    ensures
        member_is(m, r) <==> names_repository(m, r),
{
    let full = r.full_name;
    full.index_of_first_ensures('/');
    match full.index_of_first('/') {
        Some(i) => {
            let o = full.subrange(0, i);
            assert(!o.contains('/')) by {
                assert forall|k: int| 0 <= k < o.len() implies o[k] != '/' by {
                    assert(o[k] == full[k]);
                }
            }
            assert((o + seq!['/']).is_prefix_of(full)) by {
                assert forall|k: int| 0 <= k < o.len() + 1 implies (o + seq!['/'])[k] == full[k] by {
                    if k < o.len() {
                    } else {
                    }
                }
            }
            if names_repository(m, r) && m.full_name != full {
                if full == m.owner {
                    assert(m.owner[i] == '/');
                    assert(m.owner.contains('/'));
                } else {
                    let p = m.owner + seq!['/'];
                    assert(p[m.owner.len() as int] == '/');
                    assert(full[m.owner.len() as int] == '/');
                    if m.owner.len() > i {
                        assert(p[i] == m.owner[i]);
                        assert(p[i] == full[i]);
                        assert(m.owner[i] == '/');
                        assert(m.owner.contains('/'));
                    }
                    if m.owner.len() < i {
                        assert(full[m.owner.len() as int] != '/');
                    }
                    assert(m.owner.len() == i);
                    assert(m.owner =~= o) by {
                        assert forall|k: int| 0 <= k < i implies m.owner[k] == o[k] by {
                            assert(p[k] == full[k]);
                        }
                    }
                }
            }
        },
        None => {
            if names_repository(m, r) && m.full_name != full && full != m.owner {
                let p = m.owner + seq!['/'];
                assert(full[m.owner.len() as int] == p[m.owner.len() as int]);
                assert(full.contains('/'));
            }
        },
    }
}

proof fn lemma_in_projects_exact(ps: Seq<ProjectRecordView>, r: GhRepoView)
    ensures
        forall|s: Seq<char>| #[trigger] in_projects_spec(ps, r).contains(s) <==> exists|i: int|
            0 <= i < ps.len() && #[trigger] ps[i].slug == s && project_has(ps[i], r),
    decreases ps.len(),
{
    if ps.len() > 0 {
        let q = ps.drop_last();
        lemma_in_projects_exact(q, r);
        assert forall|s: Seq<char>| #[trigger] in_projects_spec(ps, r).contains(s) <==> exists|i: int|
            0 <= i < ps.len() && #[trigger] ps[i].slug == s && project_has(ps[i], r) by {
            let rest = in_projects_spec(q, r);
            if in_projects_spec(ps, r).contains(s) {
                if rest.contains(s) {
                    let i = choose|i: int| 0 <= i < q.len() && #[trigger] q[i].slug == s && project_has(q[i], r);
                    assert(ps[i] == q[i]);
                } else {
                    let k = choose|k: int| 0 <= k < in_projects_spec(ps, r).len() && in_projects_spec(ps, r)[k] == s;
                    assert(k == rest.len());
                    assert(ps[ps.len() - 1].slug == s);
                }
            }
            if exists|i: int| 0 <= i < ps.len() && #[trigger] ps[i].slug == s && project_has(ps[i], r) {
                let i = choose|i: int| 0 <= i < ps.len() && #[trigger] ps[i].slug == s && project_has(ps[i], r);
                if i < ps.len() - 1 {
                    assert(q[i] == ps[i]);
                    assert(rest.contains(s));
                    let k = choose|k: int| 0 <= k < rest.len() && rest[k] == s;
                    if project_has(ps.last(), r) {
                        assert(rest.push(ps.last().slug)[k] == s);
                    }
                } else {
                    assert(rest.push(ps.last().slug)[rest.len() as int] == s);
                }
            }
        }
    }
}

/// A repository's row lists exactly the slugs of the projects that have a member naming
/// it: a member with the repository's full name, or with its name under the owner its
/// full name gives. A member of the same name under another owner never marks the row.
pub proof fn lemma_row_lists_member_projects(r: GhRepoView, ps: Seq<ProjectRecordView>)
    ensures
        forall|s: Seq<char>| #[trigger] row_spec(r, ps).in_projects.contains(s) <==> exists|
            i: int,
            j: int,
        |
            0 <= i < ps.len() && 0 <= j < ps[i].repos.len() && ps[i].slug == s
                && #[trigger] names_repository(ps[i].repos[j], r),
{
    lemma_in_projects_exact(ps, r);
    assert forall|s: Seq<char>| #[trigger] row_spec(r, ps).in_projects.contains(s) <==> exists|
        i: int,
        j: int,
    |
        0 <= i < ps.len() && 0 <= j < ps[i].repos.len() && ps[i].slug == s
            && #[trigger] names_repository(ps[i].repos[j], r) by {
        if row_spec(r, ps).in_projects.contains(s) {
            let i = choose|i: int| 0 <= i < ps.len() && #[trigger] ps[i].slug == s && project_has(ps[i], r);
            let j = choose|j: int| 0 <= j < ps[i].repos.len() && member_is(#[trigger] ps[i].repos[j], r);
            lemma_member_is_names(ps[i].repos[j], r);
        }
        if exists|i: int, j: int|
            0 <= i < ps.len() && 0 <= j < ps[i].repos.len() && ps[i].slug == s
                && #[trigger] names_repository(ps[i].repos[j], r) {
            let (i, j) = choose|i: int, j: int|
                0 <= i < ps.len() && 0 <= j < ps[i].repos.len() && ps[i].slug == s
                    && #[trigger] names_repository(ps[i].repos[j], r);
            lemma_member_is_names(ps[i].repos[j], r);
            assert(project_has(ps[i], r));
        }
    }
}

/// The first and one-past-last index of the page at `offset` of at most `limit` rows
/// out of `total`.
pub open spec fn page_bounds(offset: int, limit: int, total: int) -> (int, int) {
    (if offset < total {
        offset
    } else {
        total
    }, if offset + limit < total {
        offset + limit
    } else {
        total
    })
}

fn owner_of(full: &str) -> (r: String)
    ensures
        r@ == owner_part(full@),
{
    let v = chars_of(full);
    match crate::text::find_char(&v, '/') {
        Some(i) => crate::text::string_of_range(&v, 0, i),
        None => owned(full),
    }
}

fn has_member(p: &ProjectRecord, r: &Repo, owner: &str) -> (b: bool)
    requires
        owner@ == owner_part(r.full_name@),
    ensures
        b == project_has(p@, r@),
{
    let mut j: usize = 0;
    while j < p.repos.len()
        invariant
            j <= p.repos@.len(),
            owner@ == owner_part(r.full_name@),
            forall|k: int| 0 <= k < j ==> !member_is(#[trigger] p@.repos[k], r@),
        decreases p.repos@.len() - j,
    {
        let m = &p.repos[j];
        assert(p@.repos[j as int] == m@);
        if str_eq(m.full_name.as_str(), r.full_name.as_str()) || (str_eq(m.name.as_str(), r.name.as_str())
            && str_eq(m.owner.as_str(), owner)) {
            return true;
        }
        j += 1;
    }
    false
}

fn row_of(r: &Repo, projects: &Vec<ProjectRecord>) -> (row: RepoRow)
    ensures
        row@ == row_spec(r@, record_views(projects@)),
{
    let owner = owner_of(r.full_name.as_str());
    let ghost ps = record_views(projects@);
    let mut in_projects: Vec<String> = Vec::new();
    let mut k: usize = 0;
    while k < projects.len()
        invariant
            k <= projects@.len(),
            ps == record_views(projects@),
            owner@ == owner_part(r.full_name@),
            views(in_projects@) == in_projects_spec(ps.subrange(0, k as int), r@),
        decreases projects@.len() - k,
    {
        assert(ps.subrange(0, k + 1).drop_last() == ps.subrange(0, k as int));
        assert(ps.subrange(0, k + 1).last() == projects@[k as int]@);
        if has_member(&projects[k], r, owner.as_str()) {
            let ghost before = views(in_projects@);
            in_projects.push(projects[k].slug.clone());
            assert(views(in_projects@) == before.push(projects@[k as int].slug@));
        }
        k += 1;
    }
    assert(ps.subrange(0, k as int) == ps);
    RepoRow {
        full_name: r.full_name.clone(),
        private: r.private,
        default_branch: r.default_branch.clone(),
        in_projects,
    }
}

/// The rows of the page at `offset` of at most `limit` repositories, each with the
/// projects it belongs to, and whether more follow.
pub fn repo_rows_page(repos: &Vec<Repo>, projects: &Vec<ProjectRecord>, offset: usize, limit: usize) -> (r: (
    Vec<RepoRow>,
    bool,
))
    ensures
        ({
            let (start, end) = page_bounds(offset as int, limit as int, repos@.len() as int);
            &&& row_views(r.0@) == Seq::new(
                (end - start) as nat,
                |i: int| row_spec(repos@[start + i]@, record_views(projects@)),
            )
            &&& r.1 == (end < repos@.len())
        }),
{
    let total = repos.len();
    let end = if offset.saturating_add(limit) < total {
        offset.saturating_add(limit)
    } else {
        total
    };
    let start = if offset < total {
        offset
    } else {
        total
    };
    let ghost want = Seq::new(
        (end - start) as nat,
        |i: int| row_spec(repos@[start + i]@, record_views(projects@)),
    );
    let mut rows: Vec<RepoRow> = Vec::new();
    let mut i: usize = start;
    while i < end
        invariant
            start <= i <= end <= repos@.len(),
            want == Seq::new(
                (end - start) as nat,
                |i: int| row_spec(repos@[start + i]@, record_views(projects@)),
            ),
            row_views(rows@) == want.subrange(0, i - start),
        decreases end - i,
    {
        let row = row_of(&repos[i], projects);
        let ghost before = row_views(rows@);
        let ghost rv = row@;
        assert(rv == want[i - start]);
        rows.push(row);
        assert(row_views(rows@) == before.push(rv));
        assert(row_views(rows@) =~= want.subrange(0, i + 1 - start));
        i += 1;
    }
    assert(want.subrange(0, end - start) == want);
    (rows, end < total)
}

/// The offset of the page after one of `shown` rows at `offset`.
pub fn next_offset(offset: usize, shown: usize) -> (r: usize)
    ensures
        r == if offset + shown <= usize::MAX {
            (offset + shown) as usize
        } else {
            usize::MAX
        },
{
    offset.saturating_add(shown)
}

/// A repository offered by the create-project form.
#[derive(Debug, Clone)]
pub struct CreateRepoOption {
    pub full_name: String,
    pub private: bool,
}

/// The create-project form's choices: the repositories of the cached listing, if any
/// (the first paint never waits for GitHub).
pub fn create_repo_options(cached: Option<&RepoList>) -> (r: Vec<CreateRepoOption>)
    ensures
        match cached {
            Some(l) => r@.len() == l.repos@.len() && forall|i: int|
                0 <= i < r@.len() ==> #[trigger] r@[i].full_name@ == l.repos@[i].full_name@
                    && r@[i].private == l.repos@[i].private,
            None => r@.len() == 0,
        },
{
    let mut r: Vec<CreateRepoOption> = Vec::new();
    match cached {
        Some(l) => {
            let mut i: usize = 0;
            while i < l.repos.len()
                invariant
                    i <= l.repos@.len(),
                    r@.len() == i,
                    forall|k: int|
                        0 <= k < i ==> #[trigger] r@[k].full_name@ == l.repos@[k].full_name@
                            && r@[k].private == l.repos@[k].private,
                decreases l.repos@.len() - i,
            {
                let o = CreateRepoOption {
                    full_name: l.repos[i].full_name.clone(),
                    private: l.repos[i].private,
                };
                assert(o.full_name@ == l.repos@[i as int].full_name@);
                let ghost before = r@;
                r.push(o);
                assert forall|k: int| 0 <= k < i + 1 implies #[trigger] r@[k].full_name@
                    == l.repos@[k].full_name@ && r@[k].private == l.repos@[k].private by {
                    if k < i {
                        assert(r@[k] == before[k]);
                    }
                }
                i += 1;
            }
        },
        None => {},
    }
    r
}

} // verus!
