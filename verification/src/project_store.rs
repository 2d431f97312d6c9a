//! Project metadata: records, their `.anchor/project.json` mirror, slugs, and the merge
//! of the records kept in the database with those found on disk.

use vstd::prelude::*;

use crate::auth::{hex_lower, hex_spec};
use crate::git::{join_path, path_join};
use crate::order::{sort_by_slug, sorted_by_slug, stable_sort_spec, Slugged};
use crate::text::{char_ascii_lower, ascii_lower, chars_of, owned, str_eq, string_of, trim_end_char};

verus! {

// ---------------------------------------------------------------- records
/// One member repository of a project.
#[derive(Debug, Clone)]
pub struct ProjectRepoRecord {
    pub owner: String,
    pub name: String,
    pub full_name: String,
    pub clone_url: String,
    pub private: bool,
    pub default_branch: String,
}

/// A member repository as plain values.
pub struct RepoView {
    pub owner: Seq<char>,
    pub name: Seq<char>,
    pub full_name: Seq<char>,
    pub clone_url: Seq<char>,
    pub private: bool,
    pub default_branch: Seq<char>,
}

impl View for ProjectRepoRecord {
    type V = RepoView;

    open spec fn view(&self) -> RepoView {
        RepoView {
            owner: self.owner@,
            name: self.name@,
            full_name: self.full_name@,
            clone_url: self.clone_url@,
            private: self.private,
            default_branch: self.default_branch@,
        }
    }
}

/// A project: a named group of member repositories.
#[derive(Debug, Clone)]
pub struct ProjectRecord {
    pub id: String,
    pub slug: String,
    pub name: String,
    pub default_branch: Option<String>,
    /// When it was created (RFC 3339).
    pub created_at: String,
    pub repos: Vec<ProjectRepoRecord>,
}

#[verifier::ext_equal]
pub struct ProjectRecordView {
    pub id: Seq<char>,
    pub slug: Seq<char>,
    pub name: Seq<char>,
    pub default_branch: Option<Seq<char>>,
    pub created_at: Seq<char>,
    pub repos: Seq<RepoView>,
}

pub open spec fn opt_view(o: Option<String>) -> Option<Seq<char>> {
    match o {
        Some(s) => Some(s@),
        None => None,
    }
}

pub open spec fn repo_views(s: Seq<ProjectRepoRecord>) -> Seq<RepoView> {
    s.map_values(|r: ProjectRepoRecord| r@)
}

impl View for ProjectRecord {
    type V = ProjectRecordView;

    open spec fn view(&self) -> ProjectRecordView {
        ProjectRecordView {
            id: self.id@,
            slug: self.slug@,
            name: self.name@,
            default_branch: opt_view(self.default_branch),
            created_at: self.created_at@,
            repos: repo_views(self.repos@),
        }
    }
}

impl Slugged for ProjectRecord {
    open spec fn slug_view(&self) -> Seq<char> {
        self.slug@
    }

    fn slug_str(&self) -> (r: &str) {
        self.slug.as_str()
    }
}

/// A member repository as written in `project.json`.
#[derive(Debug, Clone)]
pub struct ProjectMemberJson {
    pub owner: String,
    pub name: String,
    pub full_name: String,
    pub clone_url: String,
    pub private: bool,
    pub default_branch: String,
}

impl View for ProjectMemberJson {
    type V = RepoView;

    open spec fn view(&self) -> RepoView {
        RepoView {
            owner: self.owner@,
            name: self.name@,
            full_name: self.full_name@,
            clone_url: self.clone_url@,
            private: self.private,
            default_branch: self.default_branch@,
        }
    }
}

/// The contents of `.anchor/project.json`.
#[derive(Debug, Clone)]
pub struct ProjectJson {
    pub id: String,
    pub slug: String,
    pub name: String,
    pub default_branch: Option<String>,
    pub members: Vec<ProjectMemberJson>,
}

#[verifier::ext_equal]
pub struct ProjectJsonView {
    pub id: Seq<char>,
    pub slug: Seq<char>,
    pub name: Seq<char>,
    pub default_branch: Option<Seq<char>>,
    pub members: Seq<RepoView>,
}

pub open spec fn member_views(s: Seq<ProjectMemberJson>) -> Seq<RepoView> {
    s.map_values(|m: ProjectMemberJson| m@)
}

impl View for ProjectJson {
    type V = ProjectJsonView;

    open spec fn view(&self) -> ProjectJsonView {
        ProjectJsonView {
            id: self.id@,
            slug: self.slug@,
            name: self.name@,
            default_branch: opt_view(self.default_branch),
            members: member_views(self.members@),
        }
    }
}

/// The file mirror of a record: everything but its creation time.
pub open spec fn json_of(p: ProjectRecordView) -> ProjectJsonView {
    ProjectJsonView {
        id: p.id,
        slug: p.slug,
        name: p.name,
        default_branch: p.default_branch,
        members: p.repos,
    }
}

/// The record of a file mirror, created at `created_at`.
pub open spec fn record_of(j: ProjectJsonView, created_at: Seq<char>) -> ProjectRecordView {
    ProjectRecordView {
        id: j.id,
        slug: j.slug,
        name: j.name,
        default_branch: j.default_branch,
        created_at,
        repos: j.members,
    }
}

fn clone_opt(o: &Option<String>) -> (r: Option<String>)
    ensures
        opt_view(r) == opt_view(*o),
{
    match o {
        Some(s) => Some(s.clone()),
        None => None,
    }
}

fn member_of(r: &ProjectRepoRecord) -> (m: ProjectMemberJson)
    ensures
        m@ == r@,
{
    ProjectMemberJson {
        owner: r.owner.clone(),
        name: r.name.clone(),
        full_name: r.full_name.clone(),
        clone_url: r.clone_url.clone(),
        private: r.private,
        default_branch: r.default_branch.clone(),
    }
}

fn repo_of(m: &ProjectMemberJson) -> (r: ProjectRepoRecord)
    ensures
        r@ == m@,
{
    ProjectRepoRecord {
        owner: m.owner.clone(),
        name: m.name.clone(),
        full_name: m.full_name.clone(),
        clone_url: m.clone_url.clone(),
        private: m.private,
        default_branch: m.default_branch.clone(),
    }
}

/// The current UTC time as RFC 3339 text (`chrono::Utc::now`, then `to_rfc3339`).
/// Nothing is promised of the value.
#[verifier::external_body]
fn utc_now_rfc3339() -> String {
    chrono::Utc::now().to_rfc3339()
}

impl ProjectJson {
    /// The file mirror of a record.
    pub fn from_record(p: &ProjectRecord) -> (r: ProjectJson)
        ensures
            r@ == json_of(p@),
    {
        let mut members: Vec<ProjectMemberJson> = Vec::new();
        let mut i: usize = 0;
        while i < p.repos.len()
            invariant
                i <= p.repos@.len(),
                member_views(members@) == repo_views(p.repos@).subrange(0, i as int),
            decreases p.repos@.len() - i,
        {
            let m = member_of(&p.repos[i]);
            let ghost before = member_views(members@);
            members.push(m);
            assert(member_views(members@) == before.push(m@));
            i += 1;
        }
        assert(repo_views(p.repos@).subrange(0, i as int) == repo_views(p.repos@));
        ProjectJson {
            id: p.id.clone(),
            slug: p.slug.clone(),
            name: p.name.clone(),
            default_branch: clone_opt(&p.default_branch),
            members,
        }
    }

    /// The record of this mirror, created at `created_at`.
    pub fn to_record_at(&self, created_at: String) -> (r: ProjectRecord)
        ensures
            r@ == record_of(self@, created_at@),
    {
        let mut repos: Vec<ProjectRepoRecord> = Vec::new();
        let mut i: usize = 0;
        while i < self.members.len()
            invariant
                i <= self.members@.len(),
                repo_views(repos@) == member_views(self.members@).subrange(0, i as int),
            decreases self.members@.len() - i,
        {
            let r = repo_of(&self.members[i]);
            let ghost before = repo_views(repos@);
            repos.push(r);
            assert(repo_views(repos@) == before.push(r@));
            i += 1;
        }
        assert(member_views(self.members@).subrange(0, i as int) == member_views(self.members@));
        ProjectRecord {
            id: self.id.clone(),
            slug: self.slug.clone(),
            name: self.name.clone(),
            default_branch: clone_opt(&self.default_branch),
            created_at,
            repos,
        }
    }

    /// The record of this mirror, created now.
    pub fn to_record(&self) -> (r: ProjectRecord)
        ensures
            exists|created_at: Seq<char>| r@ == record_of(self@, created_at),
    {
        let created_at = utc_now_rfc3339();
        self.to_record_at(created_at)
    }
}

/// Mirroring a record to its file and reading it back, with the same creation time,
/// gives the record again; a mirror made into a record and back is the same mirror.
pub proof fn lemma_mirror_round_trip(p: ProjectRecordView, j: ProjectJsonView)
    ensures
        record_of(json_of(p), p.created_at) == p,
        json_of(record_of(j, p.created_at)) == j,
{
    assert(record_of(json_of(p), p.created_at) =~= p);
    assert(json_of(record_of(j, p.created_at)) =~= j);
}

// ---------------------------------------------------------------- ids
/// `len` bytes from the thread-local random generator (`rand::rng` and
/// `RngCore::fill_bytes`). Only the length is promised.
#[verifier::external_body]
fn random_bytes(len: usize) -> (r: Vec<u8>)
    ensures
        r@.len() == len,
{
    let mut bytes = vec![0u8; len];
    rand::RngCore::fill_bytes(&mut rand::rng(), bytes.as_mut_slice());
    bytes
}

/// A new random project id: sixteen random bytes in lowercase hex.
pub fn new_project_id() -> (r: String)
    ensures
        exists|b: Seq<u8>| b.len() == 16 && r@ == hex_spec(b),
{
    let bytes = random_bytes(16);
    hex_lower(bytes.as_slice())
}

// ---------------------------------------------------------------- slugs
/// Whether `c` may stand in a slug made by `slugify`.
pub open spec fn is_lower_alnum(c: char) -> bool {
    ('a' <= c && c <= 'z') || ('0' <= c && c <= '9')
}

/// The slug built from `s` before trailing dashes are removed, and whether it ends in a
/// dash put there for a run of other characters.
pub open spec fn slug_fold(s: Seq<char>) -> (Seq<char>, bool)
    decreases s.len(),
{
    if s.len() == 0 {
        (Seq::empty(), false)
    } else {
        let (o, prev_dash) = slug_fold(s.drop_last());
        let l = ascii_lower(s.last());
        if is_lower_alnum(l) {
            (o.push(l), false)
        } else if !prev_dash && o.len() > 0 {
            (o.push('-'), true)
        } else {
            (o, prev_dash)
        }
    }
}

/// The slug of a display name: its ASCII letters and digits, lowercased, each run of
/// other characters between them made one `-`; `project` when nothing is left.
pub open spec fn slugify_spec(s: Seq<char>) -> Seq<char> {
    let t = trim_end_char(slug_fold(s).0, '-');
    if t.len() == 0 {
        "project"@
    } else {
        t
    }
}

/// Derives a URL-safe slug from a display name.
pub fn slugify(name: &str) -> (r: String)
    ensures
        r@ == slugify_spec(name@),
{
    let v = chars_of(name);
    let mut out: Vec<char> = Vec::new();
    let mut prev_dash = false;
    let mut i: usize = 0;
    while i < v.len()
        invariant
            i <= v@.len(),
            v@ == name@,
            (out@, prev_dash) == slug_fold(v@.subrange(0, i as int)),
        decreases v@.len() - i,
    {
        assert(v@.subrange(0, i + 1).drop_last() == v@.subrange(0, i as int));
        let lower = char_ascii_lower(v[i]);
        if ('a' <= lower && lower <= 'z') || ('0' <= lower && lower <= '9') {
            out.push(lower);
            prev_dash = false;
        } else if !prev_dash && out.len() > 0 {
            out.push('-');
            prev_dash = true;
        }
        i += 1;
    }
    assert(v@.subrange(0, i as int) == v@);
    let ghost folded = out@;
    while out.len() > 0 && out[out.len() - 1] == '-'
        invariant
            trim_end_char(out@, '-') == trim_end_char(folded, '-'),
        decreases out@.len(),
    {
        assert(out@.last() == out@[out@.len() - 1]);
        out.pop();
    }
    assert(out.len() > 0 ==> out@.last() == out@[out@.len() - 1]);
    assert(trim_end_char(out@, '-') == out@);
    if out.len() == 0 {
        owned("project")
    } else {
        string_of(&out)
    }
}

/// Whether `c` may stand in a slug.
pub open spec fn slug_char(c: char) -> bool {
    ('a' <= c && c <= 'z') || ('0' <= c && c <= '9') || c == '-' || c == '_'
}

/// Why `slug` is not a valid slug, or `Ok` when it is: 1 to 64 bytes, lowercase
/// letters, digits, `-` and `_`, not starting or ending with `-`.
pub open spec fn validate_slug_spec(slug: Seq<char>) -> Result<(), Seq<char>> {
    if slug.len() == 0 || vstd::utf8::encode_utf8(slug).len() > 64 {
        Err("slug must be 1–64 characters"@)
    } else if !(forall|i: int| 0 <= i < slug.len() ==> slug_char(#[trigger] slug[i])) {
        Err("slug must be lowercase alphanumeric, hyphen, or underscore"@)
    } else if slug[0] == '-' || slug.last() == '-' {
        Err("slug must not start or end with a hyphen"@)
    } else {
        Ok(())
    }
}

/// Checks that `slug` is a valid project slug.
pub fn validate_slug(slug: &str) -> (r: Result<(), String>)
    ensures
        match r {
            Ok(()) => validate_slug_spec(slug@) == Ok::<(), Seq<char>>(()),
            Err(e) => validate_slug_spec(slug@) == Err::<(), Seq<char>>(e@),
        },
{
    let v = chars_of(slug);
    if v.len() == 0 || slug.as_bytes().len() > 64 {
        return Err(owned("slug must be 1–64 characters"));
    }
    let mut i: usize = 0;
    while i < v.len()
        invariant
            i <= v@.len(),
            v@ == slug@,
            v@.len() > 0,
            vstd::utf8::encode_utf8(slug@).len() <= 64,
            forall|j: int| 0 <= j < i ==> slug_char(#[trigger] v@[j]),
        decreases v@.len() - i,
    {
        let c = v[i];
        if !(('a' <= c && c <= 'z') || ('0' <= c && c <= '9') || c == '-' || c == '_') {
            assert(!slug_char(slug@[i as int]));
            return Err(owned("slug must be lowercase alphanumeric, hyphen, or underscore"));
        }
        i += 1;
    }
    if v[0] == '-' || v[v.len() - 1] == '-' {
        assert(slug@.last() == v@[v@.len() - 1]);
        return Err(owned("slug must not start or end with a hyphen"));
    }
    assert(slug@.last() == v@[v@.len() - 1]);
    Ok(())
}

proof fn lemma_slug_fold_shape(s: Seq<char>)
    ensures
        forall|i: int| 0 <= i < slug_fold(s).0.len() ==> slug_char(#[trigger] slug_fold(s).0[i]),
        slug_fold(s).0.len() > 0 ==> slug_fold(s).0[0] != '-',
    decreases s.len(),
{
    if s.len() > 0 {
        lemma_slug_fold_shape(s.drop_last());
    }
}

proof fn lemma_trim_end_prefix(s: Seq<char>, c: char)
    ensures
        trim_end_char(s, c).len() <= s.len(),
        trim_end_char(s, c) == s.subrange(0, trim_end_char(s, c).len() as int),
        trim_end_char(s, c).len() > 0 ==> trim_end_char(s, c).last() != c,
    decreases s.len(),
{
    if s.len() > 0 && s.last() == c {
        lemma_trim_end_prefix(s.drop_last(), c);
        let t = trim_end_char(s.drop_last(), c);
        assert(s.drop_last().subrange(0, t.len() as int) == s.subrange(0, t.len() as int));
    } else {
        assert(s.subrange(0, s.len() as int) == s);
    }
}

/// A slug made by `slugify` is accepted by `validate_slug`, unless it is longer than 64
/// characters.
pub proof fn lemma_slugify_is_valid(name: Seq<char>)
    requires
        slugify_spec(name).len() <= 64,
    ensures
        validate_slug_spec(slugify_spec(name)) == Ok::<(), Seq<char>>(()),
{
    reveal_strlit("project");
    let o = slug_fold(name).0;
    let t = trim_end_char(o, '-');
    lemma_slug_fold_shape(name);
    lemma_trim_end_prefix(o, '-');
    let r = slugify_spec(name);
    if t.len() > 0 {
        assert forall|i: int| 0 <= i < t.len() implies slug_char(#[trigger] t[i]) by {
            assert(t[i] == o[i]);
        }
        assert(t[0] == o[0]);
    }
    assert(forall|i: int| 0 <= i < r.len() ==> slug_char(#[trigger] r[i]));
    assert(vstd::utf8::is_ascii_chars(r)) by {
        assert forall|i: int| 0 <= i < r.len() implies '\0' <= #[trigger] r[i] <= '\u{7f}' by {
            assert(slug_char(r[i]));
        }
    }
    vstd::utf8::is_ascii_chars_encode_utf8(r);
}

/// The ASCII letters and digits of `s`, lowercased, in order.
pub open spec fn lower_alnums(s: Seq<char>) -> Seq<char>
    decreases s.len(),
{
    if s.len() == 0 {
        Seq::empty()
    } else if is_lower_alnum(ascii_lower(s.last())) {
        lower_alnums(s.drop_last()).push(ascii_lower(s.last()))
    } else {
        lower_alnums(s.drop_last())
    }
}

/// `s` without its dashes.
pub open spec fn without_dashes(s: Seq<char>) -> Seq<char>
    decreases s.len(),
{
    if s.len() == 0 {
        Seq::empty()
    } else if s.last() == '-' {
        without_dashes(s.drop_last())
    } else {
        without_dashes(s.drop_last()).push(s.last())
    }
}

/// Whether no two dashes stand side by side in `s`.
pub open spec fn no_double_dash(s: Seq<char>) -> bool {
    forall|i: int| 0 <= i < s.len() - 1 ==> !(#[trigger] s[i] == '-' && s[i + 1] == '-')
}

proof fn lemma_slug_fold_law(s: Seq<char>)
    ensures
        ({
            let (o, pd) = slug_fold(s);
            &&& without_dashes(o) == lower_alnums(s)
            &&& no_double_dash(o)
            &&& pd <==> (o.len() > 0 && o.last() == '-')
            &&& o.len() > 0 ==> o[0] != '-'
            &&& (o.len() == 0 <==> lower_alnums(s).len() == 0)
            &&& forall|i: int| 0 <= i < o.len() ==> is_lower_alnum(#[trigger] o[i]) || o[i] == '-'
        }),
    decreases s.len(),
{
    if s.len() > 0 {
        lemma_slug_fold_law(s.drop_last());
        let (o0, pd0) = slug_fold(s.drop_last());
        let (o, pd) = slug_fold(s);
        let l = ascii_lower(s.last());
        if is_lower_alnum(l) {
            assert(o == o0.push(l));
            assert(o.drop_last() == o0);
            assert(l != '-');
            assert forall|i: int| 0 <= i < o.len() - 1 implies !(#[trigger] o[i] == '-' && o[i + 1]
                == '-') by {
                if i + 1 < o0.len() {
                    assert(o[i] == o0[i] && o[i + 1] == o0[i + 1]);
                }
            }
            if o0.len() > 0 {
                assert(o[0] == o0[0]);
            }
            assert forall|i: int| 0 <= i < o.len() implies is_lower_alnum(#[trigger] o[i]) || o[i] == '-' by {
                if i < o0.len() {
                    assert(o[i] == o0[i]);
                }
            }
        } else if !pd0 && o0.len() > 0 {
            assert(o == o0.push('-'));
            assert(o.drop_last() == o0);
            assert forall|i: int| 0 <= i < o.len() - 1 implies !(#[trigger] o[i] == '-' && o[i + 1]
                == '-') by {
                if i + 1 < o0.len() {
                    assert(o[i] == o0[i] && o[i + 1] == o0[i + 1]);
                } else {
                    assert(o[i] == o0.last());
                }
            }
            assert(o[0] == o0[0]);
            assert forall|i: int| 0 <= i < o.len() implies is_lower_alnum(#[trigger] o[i]) || o[i] == '-' by {
                if i < o0.len() {
                    assert(o[i] == o0[i]);
                }
            }
        }
    }
}

proof fn lemma_trim_dashes(o: Seq<char>)
    ensures
        without_dashes(trim_end_char(o, '-')) == without_dashes(o),
        o.len() > 0 && o[0] != '-' ==> trim_end_char(o, '-').len() > 0,
    decreases o.len(),
{
    if o.len() > 0 && o.last() == '-' {
        lemma_trim_dashes(o.drop_last());
        if o.len() > 1 {
            assert(o.drop_last()[0] == o[0]);
        }
    }
}

/// A slug made by `slugify` is never empty, holds only lowercase ASCII letters, digits
/// and dashes, neither starts nor ends with a dash, and has no two dashes side by side.
/// It is `project` when the name has no ASCII letter or digit; otherwise, without its
/// dashes, it is the name's ASCII letters and digits, lowercased, in order.
pub proof fn lemma_slugify_shape(name: Seq<char>)
    ensures
        ({
            let r = slugify_spec(name);
            &&& r.len() > 0
            &&& forall|i: int| 0 <= i < r.len() ==> is_lower_alnum(#[trigger] r[i]) || r[i] == '-'
            &&& r[0] != '-'
            &&& r.last() != '-'
            &&& no_double_dash(r)
            &&& lower_alnums(name).len() == 0 ==> r == "project"@
            &&& lower_alnums(name).len() > 0 ==> without_dashes(r) == lower_alnums(name)
        }),
{
    reveal_strlit("project");
    let (o, pd) = slug_fold(name);
    lemma_slug_fold_law(name);
    lemma_trim_end_prefix(o, '-');
    lemma_trim_dashes(o);
    let t = trim_end_char(o, '-');
    let r = slugify_spec(name);
    if lower_alnums(name).len() > 0 {
        assert(r == t);
        assert(t[0] == o[0]);
        assert forall|i: int| 0 <= i < t.len() implies is_lower_alnum(#[trigger] t[i]) || t[i] == '-' by {
            assert(t[i] == o[i]);
        }
        assert forall|i: int| 0 <= i < t.len() - 1 implies !(#[trigger] t[i] == '-' && t[i + 1] == '-') by {
            assert(t[i] == o[i] && t[i + 1] == o[i + 1]);
        }
    } else {
        assert(o.len() == 0);
        assert(t.len() == 0);
        let p = "project"@;
        assert(r == p);
        assert forall|i: int| 0 <= i < p.len() implies is_lower_alnum(#[trigger] p[i]) || p[i] == '-' by {}
        assert forall|i: int| 0 <= i < p.len() - 1 implies !(#[trigger] p[i] == '-' && p[i + 1] == '-') by {}
    }
}

// ---------------------------------------------------------------- file layout
/// `<project_dir>/.anchor/project.json`.
pub open spec fn project_json_path_spec(project_dir: Seq<char>) -> Seq<char> {
    path_join(path_join(project_dir, ".anchor"@), "project.json"@)
}

/// Where a project's metadata mirror lives.
pub fn project_json_path(project_dir: &str) -> (r: String)
    ensures
        r@ == project_json_path_spec(project_dir@),
{
    let d = join_path(project_dir, ".anchor");
    join_path(d.as_str(), "project.json")
}

// ---------------------------------------------------------------- listing
pub open spec fn record_views(s: Seq<ProjectRecord>) -> Seq<ProjectRecordView> {
    s.map_values(|p: ProjectRecord| p@)
}

/// The slugs of a list of records.
pub open spec fn slugs_of(s: Seq<ProjectRecord>) -> Set<Seq<char>> {
    Set::new(|k: Seq<char>| exists|i: int| 0 <= i < s.len() && #[trigger] s[i].slug@ == k)
}

/// Walking the project directories in order: each directory whose name is not a known
/// slug adds the record read from its mirror, which is stored too when no stored record
/// has its slug yet. The result is the listed records, the known slugs, the records to
/// store, and the stored slugs.
pub open spec fn merge_fold(
    db: Seq<ProjectRecord>,
    disk: Seq<(String, ProjectRecord)>,
) -> (Seq<ProjectRecord>, Set<Seq<char>>, Seq<ProjectRecord>, Set<Seq<char>>)
    decreases disk.len(),
{
    if disk.len() == 0 {
        (db, slugs_of(db), Seq::empty(), slugs_of(db))
    } else {
        let (listed, known, stored, in_db) = merge_fold(db, disk.drop_last());
        let (dir, rec) = disk.last();
        if known.contains(dir@) {
            (listed, known, stored, in_db)
        } else if in_db.contains(rec.slug@) {
            (listed.push(rec), known.insert(rec.slug@), stored, in_db)
        } else {
            (listed.push(rec), known.insert(rec.slug@), stored.push(rec), in_db.insert(rec.slug@))
        }
    }
}

fn name_in(v: &Vec<String>, s: &str) -> (r: bool)
    ensures
        r == (exists|i: int| 0 <= i < v@.len() && #[trigger] v@[i]@ == s@),
{
    let mut i: usize = 0;
    while i < v.len()
        invariant
            i <= v@.len(),
            forall|j: int| 0 <= j < i ==> #[trigger] v@[j]@ != s@,
        decreases v@.len() - i,
    {
        if str_eq(v[i].as_str(), s) {
            return true;
        }
        i += 1;
    }
    false
}

/// Merging the projects found on disk into the stored ones, one project directory at a
/// time: [`DiskMerge::wants`] says whether a directory's mirror is to be read at all (it
/// is not when its name is already a known slug), [`DiskMerge::add`] takes the record
/// read from it, and [`DiskMerge::finish`] gives the records to list and to store.
pub struct DiskMerge {
    listed: Vec<ProjectRecord>,
    known: Vec<String>,
    stored: Vec<ProjectRecord>,
    in_db: Vec<String>,
    db: Ghost<Seq<ProjectRecord>>,
    entries: Ghost<Seq<(String, ProjectRecord)>>,
}

impl DiskMerge {
    /// The stored records the merge started from.
    pub closed spec fn db_records(&self) -> Seq<ProjectRecord> {
        self.db@
    }

    /// The directories added so far, in order, each with the record read from it.
    pub closed spec fn entries(&self) -> Seq<(String, ProjectRecord)> {
        self.entries@
    }

    pub closed spec fn wf(&self) -> bool {
        let f = merge_fold(self.db@, self.entries@);
        &&& self.listed@ == f.0
        &&& record_views(self.stored@) == record_views(f.2)
        &&& forall|k: Seq<char>| #[trigger] f.1.contains(k) <==> (exists|j: int|
            0 <= j < self.known@.len() && #[trigger] self.known@[j]@ == k)
        &&& forall|k: Seq<char>| #[trigger] f.3.contains(k) <==> (exists|j: int|
            0 <= j < self.in_db@.len() && #[trigger] self.in_db@[j]@ == k)
    }

    /// A merge into the stored records `db`, with no directory added yet.
    pub fn new(db: Vec<ProjectRecord>) -> (r: DiskMerge)
        ensures
            r.wf(),
            r.db_records() == db@,
            r.entries() == Seq::<(String, ProjectRecord)>::empty(),
    {
        let mut known: Vec<String> = Vec::new();
        let mut i: usize = 0;
        while i < db.len()
            invariant
                i <= db@.len(),
                known@.len() == i,
                forall|j: int| 0 <= j < i ==> #[trigger] known@[j]@ == db@[j].slug@,
            decreases db@.len() - i,
        {
            known.push(db[i].slug.clone());
            i += 1;
        }
        let in_db: Vec<String> = known.clone();
        assert forall|j: int| 0 <= j < in_db@.len() implies #[trigger] in_db@[j] == known@[j] by {
            assert(cloned::<String>(known[j], in_db[j]));
        }
        assert(in_db@ == known@);
        let ghost db_slugs = slugs_of(db@);
        assert forall|k: Seq<char>| db_slugs.contains(k) <==> (exists|j: int|
            0 <= j < known@.len() && #[trigger] known@[j]@ == k) by {
            if db_slugs.contains(k) {
                let j = choose|j: int| 0 <= j < db@.len() && #[trigger] db@[j].slug@ == k;
                assert(known@[j]@ == k);
            }
            if exists|j: int| 0 <= j < known@.len() && #[trigger] known@[j]@ == k {
                let j = choose|j: int| 0 <= j < known@.len() && #[trigger] known@[j]@ == k;
                assert(db@[j].slug@ == k);
            }
        }
        let ghost dbv = db@;
        let r = DiskMerge {
            listed: db,
            known,
            stored: Vec::new(),
            in_db,
            db: Ghost(dbv),
            entries: Ghost(Seq::empty()),
        };
        proof {
            let e = Seq::<(String, ProjectRecord)>::empty();
            let f = merge_fold(dbv, e);
            assert(f.0 == dbv);
            assert(f.1 == db_slugs);
            assert(f.3 == db_slugs);
            assert(record_views(r.stored@) =~= record_views(f.2));
            assert(r.entries@ == e);
            assert forall|k: Seq<char>| #[trigger] f.1.contains(k) <==> (exists|j: int|
                0 <= j < r.known@.len() && #[trigger] r.known@[j]@ == k) by {
                assert(f.1.contains(k) == db_slugs.contains(k));
                if db_slugs.contains(k) {
                    let j = choose|j: int| 0 <= j < dbv.len() && #[trigger] dbv[j].slug@ == k;
                    assert(r.known@[j]@ == k);
                }
            }
            assert forall|k: Seq<char>| #[trigger] f.3.contains(k) <==> (exists|j: int|
                0 <= j < r.in_db@.len() && #[trigger] r.in_db@[j]@ == k) by {
                assert(f.3.contains(k) == db_slugs.contains(k));
                if exists|j: int| 0 <= j < r.in_db@.len() && #[trigger] r.in_db@[j]@ == k {
                    let j = choose|j: int| 0 <= j < r.in_db@.len() && #[trigger] r.in_db@[j]@ == k;
                    assert(r.known@[j]@ == k);
                }
                if exists|j: int| 0 <= j < r.known@.len() && #[trigger] r.known@[j]@ == k {
                    let j = choose|j: int| 0 <= j < r.known@.len() && #[trigger] r.known@[j]@ == k;
                    assert(r.in_db@[j]@ == k);
                }
            }
        }
        r
    }

    /// Whether the mirror in directory `dir` is to be read: only when `dir` is not the
    /// slug of a record already known.
    pub fn wants(&self, dir: &str) -> (r: bool)
        requires
            self.wf(),
        ensures
            r == !merge_fold(self.db_records(), self.entries()).1.contains(dir@),
    {
        !name_in(&self.known, dir)
    }

    /// Takes the record `rec` read from directory `dir`.
    pub fn add(&mut self, dir: String, rec: ProjectRecord)
        requires
            old(self).wf(),
        ensures
            final(self).wf(),
            final(self).db_records() == old(self).db_records(),
            final(self).entries() == old(self).entries().push((dir, rec)),
    {
        let ghost db = self.db@;
        let ghost prev = self.entries@;
        let ghost next = prev.push((dir, rec));
        assert(next.drop_last() == prev);
        let ghost fp = merge_fold(db, prev);
        let ghost in_db0 = self.in_db@;
        let ghost known0 = self.known@;
        assert forall|k: Seq<char>| #[trigger] fp.3.contains(k) <==> (exists|j: int|
            0 <= j < in_db0.len() && #[trigger] in_db0[j]@ == k) by {}
        assert forall|k: Seq<char>| #[trigger] fp.1.contains(k) <==> (exists|j: int|
            0 <= j < known0.len() && #[trigger] known0[j]@ == k) by {}
        assert(merge_fold(db, next) == (if fp.1.contains(dir@) {
            fp
        } else if fp.3.contains(rec.slug@) {
            (fp.0.push(rec), fp.1.insert(rec.slug@), fp.2, fp.3)
        } else {
            (fp.0.push(rec), fp.1.insert(rec.slug@), fp.2.push(rec), fp.3.insert(rec.slug@))
        }));
        if name_in(&self.known, dir.as_str()) {
            self.entries = Ghost(next);
            proof {
                assert(merge_fold(db, next) == fp);
                assert forall|k: Seq<char>| #[trigger] merge_fold(db, next).1.contains(k) <==> (exists|j: int|
                    0 <= j < self.known@.len() && #[trigger] self.known@[j]@ == k) by {
                    assert(merge_fold(db, next).1.contains(k) == fp.1.contains(k));
                }
                assert forall|k: Seq<char>| #[trigger] merge_fold(db, next).3.contains(k) <==> (exists|j: int|
                    0 <= j < self.in_db@.len() && #[trigger] self.in_db@[j]@ == k) by {
                    assert(merge_fold(db, next).3.contains(k) == fp.3.contains(k));
                    assert(self.in_db@ == in_db0);
                    if fp.3.contains(k) {
                        let j = choose|j: int| 0 <= j < in_db0.len() && #[trigger] in_db0[j]@ == k;
                        assert(self.in_db@[j]@ == k);
                    }
                }
            }
        } else {
            let fresh = !name_in(&self.in_db, rec.slug.as_str());
            let ghost before_known = self.known@;
            let ghost before_in_db = self.in_db@;
            assert(before_known == known0 && before_in_db == in_db0);
            if fresh {
                self.in_db.push(rec.slug.clone());
                proof {
                    assert forall|k: Seq<char>| #[trigger]
                        merge_fold(db, next).3.contains(k) <==> (exists|j: int|
                            0 <= j < self.in_db@.len() && #[trigger] self.in_db@[j]@ == k) by {
                        if k == rec.slug@ {
                            assert(self.in_db@[self.in_db@.len() - 1]@ == k);
                        } else {
                            if exists|j: int| 0 <= j < self.in_db@.len() && #[trigger] self.in_db@[j]@ == k {
                                let j = choose|j: int| 0 <= j < self.in_db@.len() && #[trigger] self.in_db@[j]@ == k;
                                assert(before_in_db[j]@ == k);
                            }
                            if exists|j: int| 0 <= j < before_in_db.len() && #[trigger] before_in_db[j]@ == k {
                                let j = choose|j: int| 0 <= j < before_in_db.len() && #[trigger] before_in_db[j]@ == k;
                                assert(self.in_db@[j]@ == k);
                            }
                        }
                    }
                }
                let c = rec.clone_record();
                let ghost before_stored = self.stored@;
                self.stored.push(c);
                assert(record_views(self.stored@) == record_views(before_stored).push(rec@));
            }
            let slug_copy = rec.slug.clone();
            let ghost slug_v = rec.slug@;
            self.listed.push(rec);
            self.entries = Ghost(next);
            assert(self.listed@ == merge_fold(db, next).0);
            assert(record_views(self.stored@) == record_views(merge_fold(db, next).2));
            self.known.push(slug_copy);
            proof {
                assert forall|k: Seq<char>| #[trigger]
                    merge_fold(db, next).1.contains(k) <==> (exists|j: int|
                        0 <= j < self.known@.len() && #[trigger] self.known@[j]@ == k) by {
                    if k == slug_v {
                        assert(self.known@[self.known@.len() - 1]@ == k);
                    } else {
                        if exists|j: int| 0 <= j < self.known@.len() && #[trigger] self.known@[j]@ == k {
                            let j = choose|j: int| 0 <= j < self.known@.len() && #[trigger] self.known@[j]@ == k;
                            assert(before_known[j]@ == k);
                        }
                        if exists|j: int| 0 <= j < before_known.len() && #[trigger] before_known[j]@ == k {
                            let j = choose|j: int| 0 <= j < before_known.len() && #[trigger] before_known[j]@ == k;
                            assert(self.known@[j]@ == k);
                        }
                    }
                }
            }
            if !fresh {
                assert(merge_fold(db, next).3 == fp.3);
                assert forall|k: Seq<char>| #[trigger] merge_fold(db, next).3.contains(k) <==> (exists|j: int|
                    0 <= j < self.in_db@.len() && #[trigger] self.in_db@[j]@ == k) by {
                    assert(merge_fold(db, next).3.contains(k) == fp.3.contains(k));
                    assert(self.in_db@ == in_db0);
                    if fp.3.contains(k) {
                        let j = choose|j: int| 0 <= j < in_db0.len() && #[trigger] in_db0[j]@ == k;
                        assert(self.in_db@[j]@ == k);
                    }
                }
            }
        }
    }

    /// The records to list (the stored ones and those found on disk, ordered by slug;
    /// records with equal slugs keep their order, stored ones first) and the records
    /// found on disk to store.
    pub fn finish(self) -> (r: (Vec<ProjectRecord>, Vec<ProjectRecord>))
        requires
            self.wf(),
        ensures
            r.0@ == stable_sort_spec(merge_fold(self.db_records(), self.entries()).0),
            r.0@.to_multiset() == merge_fold(self.db_records(), self.entries()).0.to_multiset(),
            sorted_by_slug(r.0@),
            record_views(r.1@) == record_views(merge_fold(self.db_records(), self.entries()).2),
    {
        let sorted = sort_by_slug(self.listed);
        (sorted, self.stored)
    }
}

/// The records to list (the stored ones and those found on disk, ordered by slug; records
/// with equal slugs keep their order, stored ones first) and the records found on disk to
/// store. `disk` holds, in directory order, each project directory's name with the record
/// read from its mirror.
pub fn merge_disk_projects(db: Vec<ProjectRecord>, disk: Vec<(String, ProjectRecord)>) -> (r: (
    Vec<ProjectRecord>,
    Vec<ProjectRecord>,
))
    ensures
        r.0@ == stable_sort_spec(merge_fold(db@, disk@).0),
        r.0@.to_multiset() == merge_fold(db@, disk@).0.to_multiset(),
        sorted_by_slug(r.0@),
        record_views(r.1@) == record_views(merge_fold(db@, disk@).2),
{
    let ghost dbv = db@;
    let mut m = DiskMerge::new(db);
    let mut disk = disk;
    let ghost all = disk@;
    let ghost d: int = 0;
    assert(all.subrange(0, 0) =~= Seq::<(String, ProjectRecord)>::empty());
    assert(all.subrange(0, all.len() as int) == all);
    while disk.len() > 0
        invariant
            0 <= d <= all.len(),
            disk@ == all.subrange(d, all.len() as int),
            m.wf(),
            m.db_records() == dbv,
            m.entries() == all.subrange(0, d),
        decreases disk@.len(),
    {
        let (dir, rec) = disk.remove(0);
        proof {
            assert(all.subrange(0, d + 1) == all.subrange(0, d).push(all[d]));
            assert(all[d] == (dir, rec));
            d = d + 1;
            assert(disk@ == all.subrange(d, all.len() as int));
        }
        m.add(dir, rec);
    }
    assert(d == all.len());
    m.finish()
}

/// Stored records are never dropped by a merge: they come first, in their order, and
/// each record added after them came from a directory whose name was not yet a known slug.
pub proof fn lemma_merge_keeps_stored(db: Seq<ProjectRecord>, disk: Seq<(String, ProjectRecord)>)
    ensures
        merge_fold(db, disk).0.len() >= db.len(),
        merge_fold(db, disk).0.subrange(0, db.len() as int) == db,
        merge_fold(db, disk).0.len() - db.len() <= disk.len(),
    decreases disk.len(),
{
    if disk.len() > 0 {
        lemma_merge_keeps_stored(db, disk.drop_last());
        let l = merge_fold(db, disk.drop_last()).0;
        let n = merge_fold(db, disk).0;
        if n != l {
            assert(n.subrange(0, db.len() as int) == l.subrange(0, db.len() as int));
        }
    } else {
        assert(db.subrange(0, db.len() as int) == db);
    }
}

impl ProjectRecord {
    /// A copy of the record.
    pub fn clone_record(&self) -> (r: ProjectRecord)
        ensures
            r@ == self@,
    {
        let mut repos: Vec<ProjectRepoRecord> = Vec::new();
        let mut i: usize = 0;
        while i < self.repos.len()
            invariant
                i <= self.repos@.len(),
                repo_views(repos@) == repo_views(self.repos@).subrange(0, i as int),
            decreases self.repos@.len() - i,
        {
            let m = member_of(&self.repos[i]);
            let r = repo_of(&m);
            let ghost before = repo_views(repos@);
            repos.push(r);
            assert(repo_views(repos@) == before.push(r@));
            i += 1;
        }
        assert(repo_views(self.repos@).subrange(0, i as int) == repo_views(self.repos@));
        ProjectRecord {
            id: self.id.clone(),
            slug: self.slug.clone(),
            name: self.name.clone(),
            default_branch: clone_opt(&self.default_branch),
            created_at: self.created_at.clone(),
            repos,
        }
    }
}

} // verus!
