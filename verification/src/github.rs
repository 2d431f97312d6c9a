//! The GitHub REST client's logic: the authenticated repository listing's URLs and
//! headers, paging through it, its short cache, and the text of its errors. The token
//! is never shown.

use vstd::prelude::*;

use crate::text::{contains_char, contains_seq, decimal, owned, push_str, str_eq, trim_end_char, trim_end_matches_char, u64_decimal};
use crate::ttl_cache::TtlCache;

verus! {

/// Repositories asked for per page.
pub const PER_PAGE: u32 = 100;

/// The most pages one listing reads.
pub const MAX_PAGES: u32 = 50;

/// How long a listing is reused, in milliseconds.
pub const CACHE_TTL_MS: u64 = 180000;

/// A repository the token can reach.
#[derive(Debug, Clone)]
pub struct Repo {
    pub name: String,
    pub full_name: String,
    pub private: bool,
    pub default_branch: String,
    pub clone_url: String,
}

pub struct RepoView {
    pub name: Seq<char>,
    pub full_name: Seq<char>,
    pub private: bool,
    pub default_branch: Seq<char>,
    pub clone_url: Seq<char>,
}

impl View for Repo {
    type V = RepoView;

    open spec fn view(&self) -> RepoView {
        RepoView {
            name: self.name@,
            full_name: self.full_name@,
            private: self.private,
            default_branch: self.default_branch@,
            clone_url: self.clone_url@,
        }
    }
}

pub open spec fn repo_views(s: Seq<Repo>) -> Seq<RepoView> {
    s.map_values(|r: Repo| r@)
}

/// A full listing and when it was read (milliseconds since the Unix epoch, UTC).
#[derive(Debug, Clone)]
pub struct RepoList {
    pub repos: Vec<Repo>,
    pub cached_at: i64,
}

/// Whether `r` is the repository `spec` asks for by itself: by full name when `spec` holds
/// a `/`, else by short name.
pub open spec fn repo_matches(r: RepoView, spec: Seq<char>) -> bool {
    if spec.contains('/') {
        r.full_name == spec
    } else {
        r.name == spec
    }
}

/// The repository `spec` resolves to in `repos`: an `owner/name` spec resolves to the
/// first repository with that full name; a short name resolves only when exactly one
/// repository has it.
pub open spec fn resolves_to(repos: Seq<RepoView>, spec: Seq<char>, i: int) -> bool {
    &&& 0 <= i < repos.len()
    &&& repo_matches(repos[i], spec)
    &&& spec.contains('/') ==> forall|j: int| 0 <= j < i ==> !repo_matches(#[trigger] repos[j], spec)
    &&& !spec.contains('/') ==> forall|j: int|
        0 <= j < repos.len() && j != i ==> !repo_matches(#[trigger] repos[j], spec)
}

impl RepoList {
    /// The repository `spec` names: `owner/name` (the preferred form) matches the full
    /// name; a short name matches only when it is unique in the listing.
    pub fn find(&self, spec: &str) -> (r: Option<&Repo>)
        ensures
            match r {
                Some(x) => exists|i: int|
                    #[trigger] resolves_to(repo_views(self.repos@), spec@, i) && self.repos@[i] == *x,
                None => forall|i: int| !#[trigger] resolves_to(repo_views(self.repos@), spec@, i),
            },
    {
        let ghost rv = repo_views(self.repos@);
        if contains_char(spec, '/') {
            let mut i: usize = 0;
            while i < self.repos.len()
                invariant
                    i <= self.repos@.len(),
                    rv == repo_views(self.repos@),
                    spec@.contains('/'),
                    forall|j: int| 0 <= j < i ==> !repo_matches(#[trigger] rv[j], spec@),
                decreases self.repos@.len() - i,
            {
                if str_eq(self.repos[i].full_name.as_str(), spec) {
                    assert(resolves_to(rv, spec@, i as int));
                    return Some(&self.repos[i]);
                }
                i += 1;
            }
            assert forall|k: int| !#[trigger] resolves_to(rv, spec@, k) by {
                if 0 <= k < rv.len() {
                    assert(!repo_matches(rv[k], spec@));
                }
            }
            None
        } else {
            let mut found: Option<usize> = None;
            let mut dup = false;
            let mut i: usize = 0;
            while i < self.repos.len()
                invariant
                    i <= self.repos@.len(),
                    rv == repo_views(self.repos@),
                    !spec@.contains('/'),
                    found is None ==> !dup && forall|j: int| 0 <= j < i ==> !repo_matches(#[trigger] rv[j], spec@),
                    found matches Some(k) ==> k < i && repo_matches(rv[k as int], spec@) && (!dup
                        ==> forall|j: int|
                        0 <= j < i && j != k ==> !repo_matches(#[trigger] rv[j], spec@)) && (dup
                        ==> exists|j: int| 0 <= j < i && j != k && #[trigger] repo_matches(rv[j], spec@)),
                decreases self.repos@.len() - i,
            {
                if str_eq(self.repos[i].name.as_str(), spec) {
                    assert(repo_matches(rv[i as int], spec@));
                    match found {
                        None => {
                            found = Some(i);
                        },
                        Some(_) => {
                            dup = true;
                        },
                    }
                }
                i += 1;
            }
            match found {
                Some(k) => if !dup {
                    assert(resolves_to(rv, spec@, k as int));
                    Some(&self.repos[k])
                } else {
                    assert forall|m: int| !#[trigger] resolves_to(rv, spec@, m) by {
                        let j = choose|j: int| 0 <= j < i && j != k && #[trigger] repo_matches(rv[j], spec@);
                        if resolves_to(rv, spec@, m) {
                            assert(m == k || m == j);
                        }
                    }
                    None
                },
                None => {
                    assert forall|m: int| !#[trigger] resolves_to(rv, spec@, m) by {
                        if 0 <= m < rv.len() {
                            assert(!repo_matches(rv[m], spec@));
                        }
                    }
                    None
                },
            }
        }
    }
}

/// The client's settings and its cached listing. The token only goes into the
/// `Authorization` header.
pub struct GitHubClient {
    token: String,
    user: String,
    api_base: String,
    cache: TtlCache<RepoList>,
}

pub struct GitHubClientView {
    pub token: Seq<char>,
    pub user: Seq<char>,
    pub api_base: Seq<char>,
}

impl View for GitHubClient {
    type V = GitHubClientView;

    closed spec fn view(&self) -> GitHubClientView {
        GitHubClientView { token: self.token@, user: self.user@, api_base: self.api_base@ }
    }
}

/// The URL of page `page` of the authenticated user's repositories (owned,
/// collaborator and organization-member ones, private included).
pub open spec fn page_url_spec(api_base: Seq<char>, page: u32) -> Seq<char> {
    api_base + "/user/repos?per_page=100&page="@ + decimal(page as nat)
        + "&affiliation=owner,collaborator,organization_member&sort=full_name"@
}

/// The headers of every API request.
pub open spec fn headers_spec(token: Seq<char>) -> Seq<(Seq<char>, Seq<char>)> {
    seq![
        ("Authorization"@, "Bearer "@ + token),
        ("Accept"@, "application/vnd.github+json"@),
        ("X-GitHub-Api-Version"@, "2022-11-28"@),
    ]
}

/// A hint for a failed status: what a 401, 403 or 404 usually means.
pub open spec fn status_hint(code: u16) -> Seq<char> {
    if code == 401 {
        " — invalid or expired GITHUB_TOKEN"@
    } else if code == 403 {
        " — token lacks access or rate limited"@
    } else if code == 404 {
        " — check GITHUB_API_URL for enterprise"@
    } else {
        Seq::empty()
    }
}

/// The error for a failed listing request: the status as shown (`404 Not Found`) and a
/// hint.
pub open spec fn api_error_spec(code: u16, status_text: Seq<char>) -> Seq<char> {
    "GitHub API error: "@ + status_text + status_hint(code)
}

/// `s` as `{:?}` shows it (`<str as Debug>::fmt`).
pub uninterp spec fn str_debug_spec(s: Seq<char>) -> Seq<char>;

/// `s` as `{:?}` shows it: quoted, with escapes (`<str as Debug>::fmt`, through
/// `format!`).
#[verifier::external_body]
pub(crate) fn debug_str(s: &str) -> (r: String)
    ensures
        r@ == str_debug_spec(s@),
{
    format!("{:?}", s)
}

/// The client as `{:?}` shows it: the token as `[redacted]`, the user and API base.
pub open spec fn client_debug_spec(user: Seq<char>, api_base: Seq<char>) -> Seq<char> {
    "GitHubClient { token: \"[redacted]\", user: "@ + str_debug_spec(user) + ", api_base: "@
        + str_debug_spec(api_base) + ", .. }"@
}

impl GitHubClient {
    /// A client for `user` with `token` against `api_base` (trailing `/` removed), with an
    /// empty cache.
    pub fn new(token: String, user: String, api_base: String) -> (r: GitHubClient)
        ensures
            r@ == (GitHubClientView {
                token: token@,
                user: user@,
                api_base: trim_end_char(api_base@, '/'),
            }),
            r.cached() is None,
            r.cache_ttl_ms() == CACHE_TTL_MS,
    {
        let base = trim_end_matches_char(api_base.as_str(), '/');
        GitHubClient { token, user, api_base: base, cache: TtlCache::with_ttl(CACHE_TTL_MS) }
    }

    /// The listing held in the cache, fresh or not.
    pub closed spec fn cached(&self) -> Option<RepoList> {
        self.cache.held()
    }

    /// How long a stored listing stays fresh, in milliseconds.
    pub closed spec fn cache_ttl_ms(&self) -> u64 {
        self.cache.ttl()
    }

    /// What the cache gives for a listing stored `age_ms` milliseconds ago: the listing
    /// held, if any, while that is less than the cache's lifetime.
    pub open spec fn fresh_listing(&self, age_ms: u128) -> Option<RepoList> {
        if self.cached() is Some && age_ms < self.cache_ttl_ms() as u128 {
            self.cached()
        } else {
            None
        }
    }

    /// The URL of page `page` of the authenticated user's repositories.
    pub fn user_repos_page_url(&self, page: u32) -> (r: String)
        ensures
            r@ == page_url_spec(self@.api_base, page),
    {
        let mut r = self.api_base.clone();
        push_str(&mut r, "/user/repos?per_page=100&page=");
        let p = u64_decimal(page as u64);
        push_str(&mut r, p.as_str());
        push_str(&mut r, "&affiliation=owner,collaborator,organization_member&sort=full_name");
        r
    }

    /// The headers of every request: the bearer token, the JSON media type and the API
    /// version.
    pub fn request_headers(&self) -> (r: Vec<(String, String)>)
        ensures
            crate::string_map::entry_views(r@) == headers_spec(self@.token),
    {
        let mut bearer = owned("Bearer ");
        push_str(&mut bearer, self.token.as_str());
        let mut r: Vec<(String, String)> = Vec::new();
        r.push((owned("Authorization"), bearer));
        r.push((owned("Accept"), owned("application/vnd.github+json")));
        r.push((owned("X-GitHub-Api-Version"), owned("2022-11-28")));
        assert(crate::string_map::entry_views(r@) =~= headers_spec(self@.token));
        r
    }

    /// The API base, without a trailing `/`.
    pub fn api_base(&self) -> (r: &str)
        ensures
            r@ == self@.api_base,
    {
        self.api_base.as_str()
    }

    /// The configured user.
    pub fn user(&self) -> (r: &str)
        ensures
            r@ == self@.user,
    {
        self.user.as_str()
    }

    /// The cached listing, when it is less than the cache's lifetime (three minutes, for
    /// a client made by [`GitHubClient::new`]) old by the monotonic clock: what the cache
    /// gives at the age the clock reports.
    pub fn cached_repos(&self) -> (r: Option<&RepoList>)
        ensures
            self.cached() is None ==> r is None,
            r matches Some(l) ==> self.cached() == Some(*l),
            exists|age: u128| match r {
                Some(l) => #[trigger] self.fresh_listing(age) == Some(*l),
                None => self.fresh_listing(age) is None,
            },
    {
        let r = self.cache.get();
        proof {
            let age = choose|age: u128| match r {
                Some(v) => #[trigger] self.cache.fresh_value(age) == Some(*v),
                None => self.cache.fresh_value(age) is None,
            };
            assert(self.fresh_listing(age) == self.cache.fresh_value(age));
        }
        r
    }

    /// Keeps `list` as the cached listing, stored now; the cache's lifetime is unchanged.
    pub fn store_listing(&mut self, list: RepoList)
        ensures
            final(self)@ == old(self)@,
            final(self).cached() == Some(list),
            final(self).cache_ttl_ms() == old(self).cache_ttl_ms(),
    {
        self.cache.set(list);
    }

    /// The client as `{:?}` shows it, with the token redacted.
    pub fn debug_text(&self) -> (r: String)
        ensures
            r@ == client_debug_spec(self@.user, self@.api_base),
    {
        let mut r = owned("GitHubClient { token: \"[redacted]\", user: ");
        push_str(&mut r, debug_str(self.user.as_str()).as_str());
        push_str(&mut r, ", api_base: ");
        push_str(&mut r, debug_str(self.api_base.as_str()).as_str());
        push_str(&mut r, ", .. }");
        r
    }
}

/// What the client shows of itself depends on its user and API base alone, never on its
/// token, and marks the token as redacted.
pub proof fn lemma_debug_hides_token(a: GitHubClientView, b: GitHubClientView)
    requires
        a.user == b.user,
        a.api_base == b.api_base,
    ensures
        client_debug_spec(a.user, a.api_base) == client_debug_spec(b.user, b.api_base),
        contains_seq(client_debug_spec(a.user, a.api_base), "[redacted]"@),
{
    let d = client_debug_spec(a.user, a.api_base);
    reveal_strlit("GitHubClient { token: \"[redacted]\", user: ");
    reveal_strlit("[redacted]");
    assert(d.subrange(23, 33) =~= "[redacted]"@);
    assert(d.subrange(23, 23 + "[redacted]"@.len() as int) == "[redacted]"@);
}

/// The error for a failed listing request.
pub fn api_error_message(code: u16, status_text: &str) -> (r: String)
    ensures
        r@ == api_error_spec(code, status_text@),
{
    let mut r = owned("GitHub API error: ");
    push_str(&mut r, status_text);
    if code == 401 {
        push_str(&mut r, " — invalid or expired GITHUB_TOKEN");
    } else if code == 403 {
        push_str(&mut r, " — token lacks access or rate limited");
    } else if code == 404 {
        push_str(&mut r, " — check GITHUB_API_URL for enterprise");
    } else {
        assert(r@ + Seq::<char>::empty() == r@);
    }
    r
}

// ---------------------------------------------------------------- paging
/// A listing being read page by page.
pub struct RepoPaging {
    page: u32,
    repos: Vec<Repo>,
}

pub struct RepoPagingView {
    pub page: u32,
    pub repos: Seq<RepoView>,
}

impl View for RepoPaging {
    type V = RepoPagingView;

    closed spec fn view(&self) -> RepoPagingView {
        RepoPagingView { page: self.page, repos: repo_views(self.repos@) }
    }
}

/// Whether the page after a page of `count` repositories is read: when the page was full
/// and fewer than `MAX_PAGES` pages were read.
pub open spec fn more_pages(page: u32, count: nat) -> bool {
    count >= PER_PAGE && page < MAX_PAGES
}

/// The listing after the page `batch` is taken in at state `v`, and whether another page
/// is then read (as [`RepoPaging::accept`] does it).
pub open spec fn accept_spec(v: RepoPagingView, batch: Seq<RepoView>) -> (RepoPagingView, bool) {
    let more = more_pages(v.page, batch.len());
    (
        RepoPagingView {
            page: if more {
                (v.page + 1) as u32
            } else {
                v.page
            },
            repos: v.repos + batch,
        },
        more,
    )
}

/// The listing after reading, from state `v`, the pages the server gives in turn
/// (`pages`), taking each in while another page is asked for.
pub open spec fn paging_run(v: RepoPagingView, pages: Seq<Seq<RepoView>>) -> RepoPagingView
    decreases pages.len(),
{
    if pages.len() == 0 {
        v
    } else {
        let (n, more) = accept_spec(v, pages[0]);
        if more {
            paging_run(n, pages.drop_first())
        } else {
            n
        }
    }
}

/// How many of `pages` are read from page number `page` on: up to and including the
/// first that is short, or the one numbered `MAX_PAGES`.
pub open spec fn pages_read(pages: Seq<Seq<RepoView>>, page: u32) -> nat
    decreases pages.len(),
{
    if pages.len() == 0 {
        0
    } else if more_pages(page, pages[0].len()) {
        1 + pages_read(pages.drop_first(), (page + 1) as u32)
    } else {
        1
    }
}

proof fn lemma_paging_run(v: RepoPagingView, pages: Seq<Seq<RepoView>>)
    requires
        1 <= v.page <= MAX_PAGES,
    ensures
        ({
            let k = pages_read(pages, v.page);
            &&& k <= pages.len()
            &&& k <= MAX_PAGES - v.page + 1
            &&& paging_run(v, pages).repos == v.repos + pages.take(k as int).flatten()
            &&& forall|i: int| 0 <= i < k - 1 ==> #[trigger] pages[i].len() >= PER_PAGE
            &&& 0 < k < pages.len() ==> pages[k - 1].len() < PER_PAGE || v.page + k - 1 == MAX_PAGES
        }),
    decreases pages.len(),
{
    if pages.len() > 0 {
        let (n, more) = accept_spec(v, pages[0]);
        let rest = pages.drop_first();
        if more {
            lemma_paging_run(n, rest);
            let k = pages_read(pages, v.page);
            assert(pages.take(k as int).drop_first() =~= rest.take(k - 1));
            assert(pages.take(k as int).first() == pages[0]);
            assert(v.repos + pages[0] + rest.take(k - 1).flatten() =~= v.repos + (pages[0]
                + rest.take(k - 1).flatten()));
            assert forall|i: int| 0 <= i < k - 1 implies #[trigger] pages[i].len() >= PER_PAGE by {
                if i > 0 {
                    assert(pages[i] == rest[i - 1]);
                }
            }
            if 0 < k < pages.len() {
                assert(pages[k - 1] == rest[k - 2]) by {
                    if k >= 2 {
                    }
                }
            }
        } else {
            let t = pages.take(1);
            assert(t.drop_first() =~= Seq::<Seq<RepoView>>::empty());
            assert(t.first() == pages[0]);
            assert(t.flatten() == pages[0] + t.drop_first().flatten());
            assert(pages[0] + Seq::<RepoView>::empty() =~= pages[0]);
        }
    } else {
        assert(pages.take(0).flatten() =~= Seq::<RepoView>::empty());
        assert(v.repos + Seq::<RepoView>::empty() =~= v.repos);
    }
}

/// Reading a listing from page 1 takes in the pages in order, each full page but the last
/// one read, and stops after the first page that is short or after page `MAX_PAGES`: the
/// repositories listed are those pages' repositories, one page after the other.
pub proof fn lemma_paging_reads_pages_in_order(pages: Seq<Seq<RepoView>>)
    ensures
        ({
            let start = RepoPagingView { page: 1, repos: Seq::empty() };
            let k = pages_read(pages, 1);
            &&& k <= MAX_PAGES
            &&& paging_run(start, pages).repos == pages.take(k as int).flatten()
            &&& forall|i: int| 0 <= i < k - 1 ==> #[trigger] pages[i].len() >= PER_PAGE
            &&& 0 < k < pages.len() ==> pages[k - 1].len() < PER_PAGE || k == MAX_PAGES
        }),
{
    let start = RepoPagingView { page: 1, repos: Seq::empty() };
    lemma_paging_run(start, pages);
    let k = pages_read(pages, 1);
    assert(Seq::<RepoView>::empty() + pages.take(k as int).flatten() =~= pages.take(k as int).flatten());
}

impl RepoPaging {
    #[verifier::type_invariant]
    spec fn inv(self) -> bool {
        1 <= self.page <= MAX_PAGES
    }

    /// A listing that starts at page 1 with nothing read.
    pub fn new() -> (r: RepoPaging)
        ensures
            r@.page == 1,
            r@.repos == Seq::<RepoView>::empty(),
    {
        let r = RepoPaging { page: 1, repos: Vec::new() };
        assert(repo_views(r.repos@) =~= Seq::<RepoView>::empty());
        r
    }

    /// The page to read next; never more than `MAX_PAGES`.
    pub fn page(&self) -> (r: u32)
        ensures
            r == self@.page,
            1 <= r <= MAX_PAGES,
    {
        proof {
            use_type_invariant(self);
        }
        self.page
    }

    /// Takes in the page just read; says whether another page is to be read, and moves
    /// to it if so.
    pub fn accept(&mut self, batch: Vec<Repo>) -> (more: bool)
        ensures
            final(self)@.repos == old(self)@.repos + repo_views(batch@),
            more == more_pages(old(self)@.page, batch@.len()),
            final(self)@.page == if more {
                (old(self)@.page + 1) as u32
            } else {
                old(self)@.page
            },
            accept_spec(old(self)@, repo_views(batch@)) == (final(self)@, more),
    {
        proof {
            use_type_invariant(&*self);
        }
        let count = batch.len();
        let mut batch = batch;
        let ghost before = repo_views(self.repos@);
        let ghost added = repo_views(batch@);
        let mut repos = Vec::new();
        std::mem::swap(&mut repos, &mut self.repos);
        repos.append(&mut batch);
        assert(repo_views(repos@) =~= before + added);
        self.repos = repos;
        let more = count >= PER_PAGE as usize && self.page < MAX_PAGES;
        if more {
            self.page = self.page + 1;
        }
        more
    }

    /// The listing read, stamped `cached_at`.
    pub fn finish(self, cached_at: i64) -> (r: RepoList)
        ensures
            repo_views(r.repos@) == self@.repos,
            r.cached_at == cached_at,
    {
        RepoList { repos: self.repos, cached_at }
    }
}

} // verus!
