//! Errors answered by the HTTP API, and the redaction of secrets from error text.

use vstd::prelude::*;

use crate::text::{char_is_ws, chars_of, is_ws, owned, push_char, push_str};

verus! {

/// The JSON body of an API error.
#[derive(Debug)]
pub struct ErrorBody {
    pub error: String,
    pub code: String,
}

/// An error answered by the API; each variant carries its text.
#[derive(Debug)]
pub enum AppError {
    NotImplemented(String),
    NotFound(String),
    BadGateway(String),
    Conflict(String),
    /// Any other failure (an internal error).
    Other(String),
}

/// The machine-readable code of each kind of error.
pub open spec fn code_spec(e: AppError) -> Seq<char> {
    match e {
        AppError::NotImplemented(_) => "NOT_IMPLEMENTED"@,
        AppError::NotFound(_) => "NOT_FOUND"@,
        AppError::BadGateway(_) => "BAD_GATEWAY"@,
        AppError::Conflict(_) => "CONFLICT"@,
        AppError::Other(_) => "INTERNAL"@,
    }
}

/// The HTTP status of each kind of error.
pub open spec fn status_spec(e: AppError) -> u16 {
    match e {
        AppError::NotImplemented(_) => 501,
        AppError::NotFound(_) => 404,
        AppError::BadGateway(_) => 502,
        AppError::Conflict(_) => 409,
        AppError::Other(_) => 500,
    }
}

/// The text an error carries.
pub open spec fn text_spec(e: AppError) -> Seq<char> {
    match e {
        AppError::NotImplemented(m) => m@,
        AppError::NotFound(m) => m@,
        AppError::BadGateway(m) => m@,
        AppError::Conflict(m) => m@,
        AppError::Other(m) => m@,
    }
}

impl AppError {
    /// The error of an endpoint that does not exist yet.
    pub fn not_implemented() -> (r: AppError)
        ensures
            r matches AppError::NotImplemented(m) && m@ == "not implemented"@,
    {
        AppError::NotImplemented(owned("not implemented"))
    }

    /// The machine-readable code.
    pub fn code(&self) -> (r: &'static str)
        ensures
            r@ == code_spec(*self),
    {
        match self {
            AppError::NotImplemented(_) => "NOT_IMPLEMENTED",
            AppError::NotFound(_) => "NOT_FOUND",
            AppError::BadGateway(_) => "BAD_GATEWAY",
            AppError::Conflict(_) => "CONFLICT",
            AppError::Other(_) => "INTERNAL",
        }
    }

    /// The HTTP status code.
    pub fn status(&self) -> (r: u16)
        ensures
            r == status_spec(*self),
    {
        match self {
            AppError::NotImplemented(_) => 501,
            AppError::NotFound(_) => 404,
            AppError::BadGateway(_) => 502,
            AppError::Conflict(_) => 409,
            AppError::Other(_) => 500,
        }
    }

    /// The error's text (what `Display` prints).
    pub fn message(&self) -> (r: String)
        ensures
            r@ == text_spec(*self),
    {
        match self {
            AppError::NotImplemented(m) => m.clone(),
            AppError::NotFound(m) => m.clone(),
            AppError::BadGateway(m) => m.clone(),
            AppError::Conflict(m) => m.clone(),
            AppError::Other(m) => m.clone(),
        }
    }

    /// The JSON body answered for this error: its text and its code.
    pub fn body(&self) -> (r: ErrorBody)
        ensures
            r.error@ == text_spec(*self),
            r.code@ == code_spec(*self),
    {
        ErrorBody { error: self.message(), code: owned(self.code()) }
    }
}

// ---------------------------------------------------------------- redaction
/// Whether `s` begins with the prefix of a GitHub token (personal, OAuth, user, server,
/// refresh, or fine-grained personal access token).
pub open spec fn starts_token(s: Seq<char>) -> bool {
    ||| "ghp_"@.is_prefix_of(s)
    ||| "gho_"@.is_prefix_of(s)
    ||| "ghu_"@.is_prefix_of(s)
    ||| "ghs_"@.is_prefix_of(s)
    ||| "ghr_"@.is_prefix_of(s)
    ||| "github_pat_"@.is_prefix_of(s)
}

/// Whether a token prefix starts anywhere in `s`.
pub open spec fn contains_token(s: Seq<char>) -> bool {
    exists|i: int| 0 <= i < s.len() && #[trigger] starts_token(s.skip(i))
}

/// `s` with each token replaced by `[redacted]`: from its prefix up to the next
/// whitespace. `skipping` is whether a token is being dropped.
pub open spec fn redact_from(s: Seq<char>, skipping: bool) -> Seq<char>
    decreases s.len(),
{
    if s.len() == 0 {
        Seq::empty()
    } else if skipping && !is_ws(s[0]) {
        redact_from(s.drop_first(), true)
    } else if starts_token(s) {
        "[redacted]"@ + redact_from(s.drop_first(), true)
    } else {
        seq![s[0]] + redact_from(s.drop_first(), false)
    }
}

/// `s` with every GitHub token replaced by `[redacted]`.
pub open spec fn redact_spec(s: Seq<char>) -> Seq<char> {
    redact_from(s, false)
}

/// Whether `p` occurs in `v` at `i`.
fn prefix_at(v: &Vec<char>, i: usize, p: &str) -> (r: bool)
    requires
        i <= v@.len(),
    ensures
        r == p@.is_prefix_of(v@.skip(i as int)),
{
    let w = chars_of(p);
    if w.len() > v.len() - i {
        return false;
    }
    let end = i + w.len();
    let mut j: usize = i;
    while j < end
        invariant
            end == i + w@.len(),
            end <= v@.len(),
            w@ == p@,
            i <= j <= end,
            forall|m: int| 0 <= m < j - i ==> v@[i + m] == w@[m],
        decreases end - j,
    {
        if v[j] != w[j - i] {
            assert(v@.skip(i as int)[j - i] != w@[j - i]);
            return false;
        }
        j += 1;
    }
    assert(w@ =~= v@.skip(i as int).subrange(0, w@.len() as int));
    true
}

fn token_at(v: &Vec<char>, i: usize) -> (r: bool)
    requires
        i <= v@.len(),
    ensures
        r == starts_token(v@.skip(i as int)),
{
    prefix_at(v, i, "ghp_") || prefix_at(v, i, "gho_") || prefix_at(v, i, "ghu_") || prefix_at(
        v,
        i,
        "ghs_",
    ) || prefix_at(v, i, "ghr_") || prefix_at(v, i, "github_pat_")
}

/// Replaces every GitHub token in `s` (from its prefix up to the next whitespace) by
/// `[redacted]`.
pub fn redact_secrets(s: &str) -> (r: String)
    ensures
        r@ == redact_spec(s@),
{
    let v = chars_of(s);
    let mut out = String::new();
    let mut skipping = false;
    let mut i: usize = 0;
    assert(v@.skip(0) == v@);
    while i < v.len()
        invariant
            i <= v@.len(),
            v@ == s@,
            out@ + redact_from(v@.skip(i as int), skipping) == redact_from(s@, false),
        decreases v@.len() - i,
    {
        let ghost rest = v@.skip(i as int);
        assert(rest.drop_first() == v@.skip(i + 1));
        assert(rest[0] == v@[i as int]);
        let c = v[i];
        if skipping && !char_is_ws(c) {
        } else if token_at(&v, i) {
            let ghost before = out@;
            push_str(&mut out, "[redacted]");
            assert(before + ("[redacted]"@ + redact_from(rest.drop_first(), true)) == out@
                + redact_from(rest.drop_first(), true));
            skipping = true;
        } else {
            let ghost before = out@;
            push_char(&mut out, c);
            assert(before + (seq![c] + redact_from(rest.drop_first(), false)) == out@
                + redact_from(rest.drop_first(), false));
            skipping = false;
        }
        i += 1;
    }
    assert(v@.skip(i as int) =~= Seq::<char>::empty());
    assert(out@ + Seq::<char>::empty() == out@);
    out
}

// ---------------------------------------------------------------- redaction laws
proof fn lemma_token_head(s: Seq<char>)
    ensures
        starts_token(s) ==> s.len() >= 4 && s[0] == 'g',
{
    reveal_strlit("ghp_");
    reveal_strlit("gho_");
    reveal_strlit("ghu_");
    reveal_strlit("ghs_");
    reveal_strlit("ghr_");
    reveal_strlit("github_pat_");
    if "ghp_"@.is_prefix_of(s) {
        assert(s[0] == "ghp_"@[0]);
    }
    if "gho_"@.is_prefix_of(s) {
        assert(s[0] == "gho_"@[0]);
    }
    if "ghu_"@.is_prefix_of(s) {
        assert(s[0] == "ghu_"@[0]);
    }
    if "ghs_"@.is_prefix_of(s) {
        assert(s[0] == "ghs_"@[0]);
    }
    if "ghr_"@.is_prefix_of(s) {
        assert(s[0] == "ghr_"@[0]);
    }
    if "github_pat_"@.is_prefix_of(s) {
        assert(s[0] == "github_pat_"@[0]);
    }
}

/// While a token is being dropped, what follows begins with whitespace, if anything.
proof fn lemma_skipping_head(s: Seq<char>)
    ensures
        redact_from(s, true).len() == 0 || is_ws(redact_from(s, true)[0]),
    decreases s.len(),
{
    if s.len() > 0 {
        if !is_ws(s[0]) {
            lemma_skipping_head(s.drop_first());
        } else {
            lemma_token_head(s);
        }
    }
}

/// Text free of whitespace and of `[` that begins the redacted form of `s` begins `s`.
proof fn lemma_plain_prefix(s: Seq<char>, f: bool, t: Seq<char>)
    requires
        t.is_prefix_of(redact_from(s, f)),
        forall|j: int| 0 <= j < t.len() ==> !is_ws(#[trigger] t[j]) && t[j] != '[',
    ensures
        t.is_prefix_of(s),
    decreases s.len(),
{
    reveal_strlit("[redacted]");
    let out = redact_from(s, f);
    if t.len() > 0 {
        assert(t[0] == out[0]);
        if f && !is_ws(s[0]) {
            lemma_skipping_head(s.drop_first());
        } else if starts_token(s) {
            assert(out[0] == '[');
        } else {
            let t2 = t.drop_first();
            let out2 = redact_from(s.drop_first(), false);
            assert(out == seq![s[0]] + out2);
            assert forall|j: int| 0 <= j < t2.len() implies #[trigger] t2[j] == out2[j] by {
                assert(t2[j] == t[j + 1]);
                assert(out[j + 1] == out2[j]);
            }
            assert forall|j: int| 0 <= j < t2.len() implies !is_ws(#[trigger] t2[j]) && t2[j]
                != '[' by {
                assert(t2[j] == t[j + 1]);
            }
            lemma_plain_prefix(s.drop_first(), false, t2);
            assert forall|j: int| 0 <= j < t.len() implies #[trigger] t[j] == s[j] by {
                if j > 0 {
                    assert(t[j] == t2[j - 1]);
                    assert(s.drop_first()[j - 1] == s[j]);
                }
            }
        }
    }
}

/// A token prefix that begins `c` followed by the redaction of `rest` begins `c`
/// followed by `rest`.
proof fn lemma_prefix_through(p: Seq<char>, c: char, rest: Seq<char>)
    requires
        p.len() >= 1,
        forall|j: int| 1 <= j < p.len() ==> !is_ws(#[trigger] p[j]) && p[j] != '[',
        p.is_prefix_of(seq![c] + redact_from(rest, false)),
    ensures
        p.is_prefix_of(seq![c] + rest),
{
    let t = p.drop_first();
    let out = seq![c] + redact_from(rest, false);
    assert forall|j: int| 0 <= j < t.len() implies #[trigger] t[j] == redact_from(rest, false)[j] by {
        assert(t[j] == p[j + 1]);
        assert(out[j + 1] == redact_from(rest, false)[j]);
    }
    assert forall|j: int| 0 <= j < t.len() implies !is_ws(#[trigger] t[j]) && t[j] != '[' by {
        assert(t[j] == p[j + 1]);
    }
    lemma_plain_prefix(rest, false, t);
    assert forall|j: int| 0 <= j < p.len() implies #[trigger] p[j] == (seq![c] + rest)[j] by {
        if j > 0 {
            assert(p[j] == t[j - 1]);
        }
    }
}

proof fn lemma_no_token_from(s: Seq<char>, f: bool)
    ensures
        !contains_token(redact_from(s, f)),
    decreases s.len(),
{
    reveal_strlit("[redacted]");
    reveal_strlit("ghp_");
    reveal_strlit("gho_");
    reveal_strlit("ghu_");
    reveal_strlit("ghs_");
    reveal_strlit("ghr_");
    reveal_strlit("github_pat_");
    let out = redact_from(s, f);
    if s.len() > 0 {
        let rest = s.drop_first();
        if f && !is_ws(s[0]) {
            lemma_no_token_from(rest, true);
        } else if starts_token(s) {
            let tail = redact_from(rest, true);
            lemma_no_token_from(rest, true);
            assert forall|i: int| 0 <= i < out.len() implies !#[trigger] starts_token(out.skip(i)) by {
                if i < 10 {
                    lemma_token_head(out.skip(i));
                    assert(out.skip(i)[0] == "[redacted]"@[i]);
                } else {
                    assert(out.skip(i) == tail.skip(i - 10));
                }
            }
        } else {
            let tail = redact_from(rest, false);
            lemma_no_token_from(rest, false);
            assert(out == seq![s[0]] + tail);
            assert forall|i: int| 0 <= i < out.len() implies !#[trigger] starts_token(out.skip(i)) by {
                if i > 0 {
                    assert(out.skip(i) == tail.skip(i - 1));
                } else {
                    assert(out.skip(0) == out);
                    assert(s == seq![s[0]] + rest);
                    if "ghp_"@.is_prefix_of(out) {
                        lemma_prefix_through("ghp_"@, s[0], rest);
                    }
                    if "gho_"@.is_prefix_of(out) {
                        lemma_prefix_through("gho_"@, s[0], rest);
                    }
                    if "ghu_"@.is_prefix_of(out) {
                        lemma_prefix_through("ghu_"@, s[0], rest);
                    }
                    if "ghs_"@.is_prefix_of(out) {
                        lemma_prefix_through("ghs_"@, s[0], rest);
                    }
                    if "ghr_"@.is_prefix_of(out) {
                        lemma_prefix_through("ghr_"@, s[0], rest);
                    }
                    if "github_pat_"@.is_prefix_of(out) {
                        lemma_prefix_through("github_pat_"@, s[0], rest);
                    }
                }
            }
        }
    }
}

/// No GitHub token prefix is left anywhere in redacted text.
pub proof fn lemma_redacted_has_no_token(s: Seq<char>)
    ensures
        !contains_token(redact_spec(s)),
{
    lemma_no_token_from(s, false);
}

/// Text without a GitHub token comes out of redaction unchanged.
pub proof fn lemma_redact_keeps_clean_text(s: Seq<char>)
    requires
        !contains_token(s),
    ensures
        redact_spec(s) == s,
    decreases s.len(),
{
    if s.len() > 0 {
        let rest = s.drop_first();
        assert(s.skip(0) == s);
        assert forall|i: int| 0 <= i < rest.len() implies !#[trigger] starts_token(rest.skip(i)) by {
            assert(rest.skip(i) == s.skip(i + 1));
        }
        lemma_redact_keeps_clean_text(rest);
        assert(s == seq![s[0]] + rest);
    }
}

} // verus!
