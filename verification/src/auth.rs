//! Session-cookie auth for the dashboard and API.
//!
//! A session token is `<user>|<expiry>|<hmac>`: the user name, the expiry in Unix
//! seconds, and the lowercase hex HMAC-SHA256 of `<user>|<expiry>` under the session
//! secret. A token is accepted until its expiry, for the configured user only.

use vstd::prelude::*;

use crate::config::Config;
use crate::text::{
    decimal, digit_char, digit_val, digits_value, all_digits, is_digit, owned, parse_unsigned,
    parse_unsigned_str, push_char, push_str, rsplit_once, rsplit_once_str, split_once,
    split_once_str, starts_with, str_eq, trim, trim_str, u64_decimal, unsigned_body,
    views, contains_seq, contains_str, signed_decimal, split_char, split_char_of,
    trim_start, trim_end, is_ws,
};

use hmac::{Hmac, Mac};
use sha2::Sha256;
use subtle::ConstantTimeEq;

verus! {

/// Name of the session cookie.
pub const COOKIE_NAME: &'static str = "anchor_session";

/// Lifetime of a session: fourteen days, in seconds.
pub const SESSION_TTL_SECS: u64 = 1209600;

/// Login settings.
#[derive(Clone)]
pub struct AuthConfig {
    pub username: String,
    pub password: String,
    pub session_secret: Vec<u8>,
    pub cookie_secure: bool,
}

impl AuthConfig {
    /// The login settings of a configuration.
    pub fn from_config(cfg: &Config) -> (r: AuthConfig)
        ensures
            r.username@ == cfg.anchor_user@,
            r.password@ == cfg.anchor_password@,
            r.session_secret@ == cfg.session_secret@,
            r.cookie_secure == cfg.cookie_secure,
    {
        AuthConfig {
            username: cfg.anchor_user.clone(),
            password: cfg.anchor_password.clone(),
            session_secret: copy_bytes(&cfg.session_secret),
            cookie_secure: cfg.cookie_secure,
        }
    }
}

fn copy_bytes(v: &Vec<u8>) -> (r: Vec<u8>)
    ensures
        r@ == v@,
{
    let mut r: Vec<u8> = Vec::new();
    let mut i: usize = 0;
    while i < v.len()
        invariant
            i <= v@.len(),
            r@ == v@.subrange(0, i as int),
        decreases v@.len() - i,
    {
        r.push(v[i]);
        assert(v@.subrange(0, i + 1) == v@.subrange(0, i as int).push(v@[i as int]));
        i += 1;
    }
    assert(v@.subrange(0, v@.len() as int) == v@);
    r
}

// ---------------------------------------------------------------- primitives
/// The HMAC-SHA256 of `data` under `key`.
pub uninterp spec fn hmac_sha256_spec(key: Seq<u8>, data: Seq<u8>) -> Seq<u8>;

/// HMAC-SHA256 of `data` under `key`, by the `hmac` and `sha2` crates
/// (`Hmac::<Sha256>::new_from_slice`, `update`, `finalize`). The contract names the
/// result and says it is 32 bytes long (SHA-256's output size); `new_from_slice`
/// accepts keys of any length.
#[verifier::external_body]
fn hmac_sha256(key: &[u8], data: &[u8]) -> (r: Vec<u8>)
    ensures
        r@ == hmac_sha256_spec(key@, data@),
        r@.len() == 32,
{
    let mut mac = <Hmac<Sha256> as hmac::digest::KeyInit>::new_from_slice(key).expect("HMAC takes keys of any length");
    mac.update(data);
    mac.finalize().into_bytes().to_vec()
}

/// Constant-time equality of two byte strings, by the `subtle` crate
/// (`<[u8] as ConstantTimeEq>::ct_eq`): true exactly when both have the same length and
/// the same bytes.
#[verifier::external_body]
fn ct_eq_bytes(a: &[u8], b: &[u8]) -> (r: bool)
    ensures
        r == (a@ == b@),
{
    bool::from(a.ct_eq(b))
}

/// Seconds since the Unix epoch by the system clock (0 if the clock is before it).
/// Nothing is promised of the value.
#[verifier::external_body]
pub fn now_secs() -> u64 {
    std::time::SystemTime::now().duration_since(std::time::UNIX_EPOCH).map(|d| d.as_secs()).unwrap_or(
        0,
    )
}

/// Lowercase hex digit of `n` (`n < 16`).
pub open spec fn hex_digit(n: nat) -> char {
    if n < 10 {
        (48 + n) as char
    } else {
        (87 + n) as char
    }
}

/// Lowercase hex encoding of `b`, two digits per byte.
pub open spec fn hex_spec(b: Seq<u8>) -> Seq<char>
    decreases b.len(),
{
    if b.len() == 0 {
        seq![]
    } else {
        hex_spec(b.drop_last()) + seq![hex_digit((b.last() / 16) as nat), hex_digit((b.last() % 16) as nat)]
    }
}

/// Hex text has two digits per byte and never holds `|`.
pub proof fn lemma_hex_shape(b: Seq<u8>)
    ensures
        hex_spec(b).len() == 2 * b.len(),
        forall|i: int| 0 <= i < hex_spec(b).len() ==> #[trigger] hex_spec(b)[i] != '|',
    decreases b.len(),
{
    if b.len() > 0 {
        lemma_hex_shape(b.drop_last());
        let h = hex_spec(b);
        let p = hex_spec(b.drop_last());
        assert forall|i: int| 0 <= i < h.len() implies #[trigger] h[i] != '|' by {
            if i < p.len() {
                assert(h[i] == p[i]);
            }
        }
    }
}

fn hex_char(n: u8) -> (c: char)
    requires
        n < 16,
    ensures
        c == hex_digit(n as nat),
{
    let digits: [char; 16] = [
        '0', '1', '2', '3', '4', '5', '6', '7', '8', '9', 'a', 'b', 'c', 'd', 'e', 'f',
    ];
    let c = digits[n as usize];
    proof {
        assert(digits@[n as int] == c);
    }
    assert(c == hex_digit(n as nat)) by {
        if n == 0 { assert(digits@[0] == '0'); }
        else if n == 1 { assert(digits@[1] == '1'); }
        else if n == 2 { assert(digits@[2] == '2'); }
        else if n == 3 { assert(digits@[3] == '3'); }
        else if n == 4 { assert(digits@[4] == '4'); }
        else if n == 5 { assert(digits@[5] == '5'); }
        else if n == 6 { assert(digits@[6] == '6'); }
        else if n == 7 { assert(digits@[7] == '7'); }
        else if n == 8 { assert(digits@[8] == '8'); }
        else if n == 9 { assert(digits@[9] == '9'); }
        else if n == 10 { assert(digits@[10] == 'a'); }
        else if n == 11 { assert(digits@[11] == 'b'); }
        else if n == 12 { assert(digits@[12] == 'c'); }
        else if n == 13 { assert(digits@[13] == 'd'); }
        else if n == 14 { assert(digits@[14] == 'e'); }
        else { assert(digits@[15] == 'f'); }
    }
    c
}

/// Lowercase hex encoding (what `hex::encode` gives).
pub fn hex_lower(b: &[u8]) -> (r: String)
    ensures
        r@ == hex_spec(b@),
{
    let mut r = String::new();
    let mut i: usize = 0;
    while i < b.len()
        invariant
            i <= b@.len(),
            r@ == hex_spec(b@.subrange(0, i as int)),
        decreases b@.len() - i,
    {
        assert(b@.subrange(0, i + 1).drop_last() == b@.subrange(0, i as int));
        push_char(&mut r, hex_char(b[i] / 16));
        push_char(&mut r, hex_char(b[i] % 16));
        i += 1;
    }
    assert(b@.subrange(0, b@.len() as int) == b@);
    r
}

// ---------------------------------------------------------------- tokens
/// The signature of `payload` under `secret`: hex of its HMAC-SHA256.
pub open spec fn sign_spec(secret: Seq<u8>, payload: Seq<char>) -> Seq<char> {
    hex_spec(hmac_sha256_spec(secret, vstd::utf8::encode_utf8(payload)))
}

/// The payload of a token for `user` expiring at `exp`: `<user>|<exp>`.
pub open spec fn payload_spec(user: Seq<char>, exp: nat) -> Seq<char> {
    user + seq!['|'] + decimal(exp)
}

/// The token for `user` expiring at `exp`.
pub open spec fn token_spec(secret: Seq<u8>, user: Seq<char>, exp: nat) -> Seq<char> {
    payload_spec(user, exp) + seq!['|'] + sign_spec(secret, payload_spec(user, exp))
}

/// Largest `u64`.
pub open spec fn u64_max() -> nat {
    0xffff_ffff_ffff_ffff
}

/// Why a token was refused.
#[derive(Debug, Clone, Copy, PartialEq, Eq, Structural)]
pub enum VerifyError {
    /// The token has no `|`.
    BadToken,
    /// The signature does not match the payload.
    BadSignature,
    /// The payload has no `|`.
    BadPayload,
    /// The expiry is not a `u64`.
    BadExpiry,
    /// The token expired.
    Expired,
    /// The token is for another user.
    UserMismatch,
}

/// What checking token `t` at time `now` gives, for the user `username` and `secret`.
pub open spec fn verify_spec(secret: Seq<u8>, username: Seq<char>, t: Seq<char>, now: nat) -> Result<
    Seq<char>,
    VerifyError,
> {
    match rsplit_once(t, '|') {
        None => Err(VerifyError::BadToken),
        Some((payload, sig)) => if sign_spec(secret, payload) != sig {
            Err(VerifyError::BadSignature)
        } else {
            match split_once(payload, '|') {
                None => Err(VerifyError::BadPayload),
                Some((user, exp_s)) => match parse_unsigned(exp_s, u64_max()) {
                    None => Err(VerifyError::BadExpiry),
                    Some(exp) => if now > exp {
                        Err(VerifyError::Expired)
                    } else if user != username {
                        Err(VerifyError::UserMismatch)
                    } else {
                        Ok(user)
                    },
                },
            }
        },
    }
}

/// The text of each reason a token is refused.
pub open spec fn verify_error_text(e: VerifyError) -> Seq<char> {
    match e {
        VerifyError::BadToken => "bad token"@,
        VerifyError::BadSignature => "bad signature"@,
        VerifyError::BadPayload => "bad payload"@,
        VerifyError::BadExpiry => "bad expiry"@,
        VerifyError::Expired => "expired"@,
        VerifyError::UserMismatch => "user mismatch"@,
    }
}

impl VerifyError {
    /// The error's text.
    pub fn message(&self) -> (r: &'static str)
        ensures
            r@ == verify_error_text(*self),
    {
        match self {
            VerifyError::BadToken => "bad token",
            VerifyError::BadSignature => "bad signature",
            VerifyError::BadPayload => "bad payload",
            VerifyError::BadExpiry => "bad expiry",
            VerifyError::Expired => "expired",
            VerifyError::UserMismatch => "user mismatch",
        }
    }
}

/// Bytes of a string, as a vector.
fn utf8_bytes(s: &str) -> (r: Vec<u8>)
    ensures
        r@ == vstd::utf8::encode_utf8(s@),
{
    let b = s.as_bytes();
    let mut r: Vec<u8> = Vec::new();
    let mut i: usize = 0;
    while i < b.len()
        invariant
            i <= b@.len(),
            b@ == vstd::utf8::encode_utf8(s@),
            r@ == b@.subrange(0, i as int),
        decreases b@.len() - i,
    {
        r.push(b[i]);
        assert(b@.subrange(0, i + 1) == b@.subrange(0, i as int).push(b@[i as int]));
        i += 1;
    }
    assert(b@.subrange(0, b@.len() as int) == b@);
    r
}

/// Signature of `payload` under the session secret.
pub fn sign(auth: &AuthConfig, payload: &str) -> (r: String)
    ensures
        r@ == sign_spec(auth.session_secret@, payload@),
        r@.len() == 64,
{
    let data = utf8_bytes(payload);
    let mac = hmac_sha256(auth.session_secret.as_slice(), data.as_slice());
    proof {
        lemma_hex_shape(mac@);
    }
    hex_lower(mac.as_slice())
}

/// Equality of two strings, compared in constant time over equal-length padded bytes.
pub fn ct_eq_str(a: &str, b: &str) -> (r: bool)
    ensures
        r == (a@ == b@),
{
    let ab = a.as_bytes();
    let bb = b.as_bytes();
    let max = if ab.len() >= bb.len() {
        ab.len()
    } else {
        bb.len()
    };
    let mut aa: Vec<u8> = Vec::new();
    let mut cc: Vec<u8> = Vec::new();
    let mut i: usize = 0;
    while i < max
        invariant
            i <= max,
            max == if ab@.len() >= bb@.len() {
                ab@.len()
            } else {
                bb@.len()
            },
            aa@.len() == i,
            cc@.len() == i,
            forall|k: int| 0 <= k < i ==> aa@[k] == if k < ab@.len() {
                ab@[k]
            } else {
                0u8
            },
            forall|k: int| 0 <= k < i ==> cc@[k] == if k < bb@.len() {
                bb@[k]
            } else {
                0u8
            },
        decreases max - i,
    {
        aa.push(
            if i < ab.len() {
                ab[i]
            } else {
                0
            },
        );
        cc.push(
            if i < bb.len() {
                bb[i]
            } else {
                0
            },
        );
        i += 1;
    }
    let same = ct_eq_bytes(aa.as_slice(), cc.as_slice());
    let r = same && ab.len() == bb.len();
    proof {
        if ab@.len() == bb@.len() {
            if same {
                assert(ab@ =~= bb@) by {
                    assert forall|k: int| 0 <= k < ab@.len() implies ab@[k] == bb@[k] by {
                        assert(aa@[k] == cc@[k]);
                    }
                }
            } else {
                if ab@ == bb@ {
                    assert(aa@ =~= cc@);
                }
            }
        }
        vstd::utf8::encode_utf8_decode_utf8(a@);
        vstd::utf8::encode_utf8_decode_utf8(b@);
    }
    r
}

/// The token for `username` at time `now`, whose expiry fits in a `u64`.
fn build_token(auth: &AuthConfig, username: &str, now: u64) -> (r: String)
    requires
        now + SESSION_TTL_SECS <= u64_max(),
    ensures
        r@ == token_spec(auth.session_secret@, username@, (now + SESSION_TTL_SECS) as nat),
{
    let exp = now + SESSION_TTL_SECS;
    let mut payload = owned(username);
    push_char(&mut payload, '|');
    let e = u64_decimal(exp);
    push_str(&mut payload, e.as_str());
    assert(payload@ =~= payload_spec(username@, exp as nat));
    let sig = sign(auth, payload.as_str());
    let mut t = payload;
    push_char(&mut t, '|');
    push_str(&mut t, sig.as_str());
    assert(t@ =~= token_spec(auth.session_secret@, username@, exp as nat));
    t
}

/// What minting a session at time `now` gives: the token for `username` expiring
/// [`SESSION_TTL_SECS`] after `now`, or `clock out of range` when that expiry would not
/// fit in a `u64`.
pub open spec fn mint_spec(secret: Seq<u8>, username: Seq<char>, now: nat) -> Result<
    Seq<char>,
    Seq<char>,
> {
    if now + SESSION_TTL_SECS > u64_max() {
        Err("clock out of range"@)
    } else {
        Ok(token_spec(secret, username, (now + SESSION_TTL_SECS) as nat))
    }
}

/// A minting outcome as text.
pub open spec fn mint_result_view(r: Result<String, String>) -> Result<Seq<char>, Seq<char>> {
    match r {
        Ok(t) => Ok(t@),
        Err(e) => Err(e@),
    }
}

/// A token for `username` at time `now`, valid for [`SESSION_TTL_SECS`]; `Err` when the
/// expiry would not fit in a `u64`.
pub fn mint_session_at(auth: &AuthConfig, username: &str, now: u64) -> (r: Result<String, String>)
    ensures
        mint_result_view(r) == mint_spec(auth.session_secret@, username@, now as nat),
{
    if now > 0xffff_ffff_ffff_ffff - SESSION_TTL_SECS {
        return Err(owned("clock out of range"));
    }
    Ok(build_token(auth, username, now))
}

/// A fresh token for `username`, valid for [`SESSION_TTL_SECS`] from the system clock:
/// what [`mint_session_at`] gives at the clock's reading, some time that fits in a `u64`.
pub fn mint_session(auth: &AuthConfig, username: &str) -> (r: Result<String, String>)
    ensures
        r matches Ok(t) ==> exists|exp: nat| SESSION_TTL_SECS <= exp <= u64_max() && t@
            == #[trigger] token_spec(auth.session_secret@, username@, exp),
        r matches Err(e) ==> e@ == "clock out of range"@,
        exists|now: nat| now <= u64_max() && #[trigger] mint_spec(
            auth.session_secret@,
            username@,
            now,
        ) == mint_result_view(r),
{
    let now = now_secs();
    let r = mint_session_at(auth, username, now);
    proof {
        if r is Ok {
            let exp = (now + SESSION_TTL_SECS) as nat;
            assert(r->Ok_0@ == token_spec(auth.session_secret@, username@, exp));
        }
        assert(mint_spec(auth.session_secret@, username@, now as nat) == mint_result_view(r));
    }
    r
}

/// Checks token `token` at time `now`: the user it is for, or why it is refused.
pub fn verify_session_at(auth: &AuthConfig, token: &str, now: u64) -> (r: Result<String, VerifyError>)
    ensures
        match r {
            Ok(u) => verify_spec(auth.session_secret@, auth.username@, token@, now as nat)
                == Ok::<Seq<char>, VerifyError>(u@),
            Err(e) => verify_spec(auth.session_secret@, auth.username@, token@, now as nat)
                == Err::<Seq<char>, VerifyError>(e),
        },
{
    let (payload, sig) = match rsplit_once_str(token, '|') {
        Some(p) => p,
        None => {
            return Err(VerifyError::BadToken);
        },
    };
    let expected = sign(auth, payload.as_str());
    let ok_sig = ct_eq_bytes(expected.as_str().as_bytes(), sig.as_str().as_bytes());
    proof {
        vstd::utf8::encode_utf8_decode_utf8(expected@);
        vstd::utf8::encode_utf8_decode_utf8(sig@);
    }
    if !ok_sig {
        return Err(VerifyError::BadSignature);
    }
    let (user, exp_s) = match split_once_str(payload.as_str(), '|') {
        Some(p) => p,
        None => {
            return Err(VerifyError::BadPayload);
        },
    };
    let exp = match parse_unsigned_str(exp_s.as_str(), 0xffff_ffff_ffff_ffff) {
        Some(n) => n,
        None => {
            return Err(VerifyError::BadExpiry);
        },
    };
    if now > exp {
        return Err(VerifyError::Expired);
    }
    if !ct_eq_str(user.as_str(), auth.username.as_str()) {
        return Err(VerifyError::UserMismatch);
    }
    Ok(user)
}

/// A check's outcome, with the user as text.
pub open spec fn verify_result_view(r: Result<String, VerifyError>) -> Result<Seq<char>, VerifyError> {
    match r {
        Ok(u) => Ok(u@),
        Err(e) => Err(e),
    }
}

/// Checks `token` against the system clock: the outcome is that of
/// [`verify_session_at`] at the clock's reading, some time that fits in a `u64`.
pub fn verify_session(auth: &AuthConfig, token: &str) -> (r: Result<String, VerifyError>)
    ensures
        r matches Ok(u) ==> u@ == auth.username@,
        exists|now: nat| now <= u64_max() && #[trigger] verify_spec(
            auth.session_secret@,
            auth.username@,
            token@,
            now,
        ) == verify_result_view(r),
{
    let now = now_secs();
    let r = verify_session_at(auth, token, now);
    assert(verify_spec(auth.session_secret@, auth.username@, token@, now as nat) == verify_result_view(r));
    r
}

// ---------------------------------------------------------------- laws
proof fn lemma_decimal(n: nat)
    ensures
        decimal(n).len() >= 1,
        all_digits(decimal(n)),
        digits_value(decimal(n)) == n,
        !decimal(n).contains('|'),
        decimal(n)[0] != '+',
    decreases n,
{
    if n >= 10 {
        lemma_decimal(n / 10);
        let d = decimal(n);
        let p = decimal(n / 10);
        assert(d.drop_last() == p);
        assert forall|i: int| 0 <= i < d.len() implies is_digit(#[trigger] d[i]) by {
            if i < p.len() {
                assert(d[i] == p[i]);
            }
        }
        assert forall|i: int| 0 <= i < d.len() implies d[i] != '|' by {
            if i < p.len() {
                assert(d[i] == p[i]);
            }
        }
        assert(d[0] == p[0]);
        assert(d.last() == digit_char((n % 10) as nat));
        assert(digit_val(digit_char((n % 10) as nat)) == n % 10);
        assert(digits_value(d) == digits_value(p) * 10 + digit_val(d.last()));
        assert((n / 10) * 10 + n % 10 == n) by (nonlinear_arith);
    } else {
        let d = decimal(n);
        assert(d.drop_last() =~= Seq::<char>::empty());
        assert(digit_val(digit_char(n)) == n);
        assert(digits_value(d.drop_last()) == 0);
        assert(digits_value(d) == digits_value(d.drop_last()) * 10 + digit_val(d.last()));
    }
}

/// The decimal text of `n` reads back as `n`.
pub proof fn lemma_parse_decimal(n: nat, max: nat)
    requires
        n <= max,
    ensures
        parse_unsigned(decimal(n), max) == Some(n),
{
    lemma_decimal(n);
    assert(unsigned_body(decimal(n)) == decimal(n));
}

proof fn lemma_rsplit_at(p: Seq<char>, h: Seq<char>)
    requires
        !h.contains('|'),
    ensures
        rsplit_once(p + seq!['|'] + h, '|') == Some((p, h)),
{
    let t = p + seq!['|'] + h;
    t.index_of_last_ensures('|');
    assert(t[p.len() as int] == '|');
    assert(t.contains('|'));
    let i = t.index_of_last('|').unwrap();
    if i > p.len() {
        assert(t[i] == h[i - p.len() - 1]);
    }
    assert(i == p.len());
    assert(t.subrange(0, i) == p);
    assert(t.subrange(i + 1, t.len() as int) == h);
}

proof fn lemma_split_at(u: Seq<char>, d: Seq<char>)
    requires
        !u.contains('|'),
    ensures
        split_once(u + seq!['|'] + d, '|') == Some((u, d)),
{
    let t = u + seq!['|'] + d;
    t.index_of_first_ensures('|');
    assert(t[u.len() as int] == '|');
    assert(t.contains('|'));
    let i = t.index_of_first('|').unwrap();
    if i < u.len() {
        assert(t[i] == u[i]);
    }
    assert(i == u.len());
    assert(t.subrange(0, i) == u);
    assert(t.subrange(i + 1, t.len() as int) == d);
}

/// A token minted for the configured user is accepted, for that user, at any time up
/// to its expiry (the user name must not contain `|`, which separates the fields).
pub proof fn lemma_mint_then_verify(secret: Seq<u8>, user: Seq<char>, exp: nat, now: nat)
    requires
        !user.contains('|'),
        exp <= u64_max(),
        now <= exp,
    ensures
        verify_spec(secret, user, token_spec(secret, user, exp), now) == Ok::<
            Seq<char>,
            VerifyError,
        >(user),
{
    let p = payload_spec(user, exp);
    lemma_hex_shape(hmac_sha256_spec(secret, vstd::utf8::encode_utf8(p)));
    assert(!sign_spec(secret, p).contains('|'));
    lemma_rsplit_at(p, sign_spec(secret, p));
    lemma_decimal(exp);
    lemma_split_at(user, decimal(exp));
    lemma_parse_decimal(exp, u64_max());
}

proof fn lemma_split_parts(s: Seq<char>, c: char)
    ensures
        split_once(s, c) matches Some((a, b)) ==> s == a + seq![c] + b && !a.contains(c),
{
    s.index_of_first_ensures(c);
    if let Some(i) = s.index_of_first(c) {
        let (a, b) = (s.subrange(0, i), s.subrange(i + 1, s.len() as int));
        assert(s == a + seq![c] + b);
        assert forall|k: int| 0 <= k < a.len() implies a[k] != c by {
            assert(a[k] == s[k]);
        }
    }
}

proof fn lemma_rsplit_parts(s: Seq<char>, c: char)
    ensures
        rsplit_once(s, c) matches Some((a, b)) ==> s == a + seq![c] + b && !b.contains(c),
{
    s.index_of_last_ensures(c);
    if let Some(i) = s.index_of_last(c) {
        let (a, b) = (s.subrange(0, i), s.subrange(i + 1, s.len() as int));
        assert(s == a + seq![c] + b);
        assert forall|k: int| 0 <= k < b.len() implies b[k] != c by {
            assert(b[k] == s[i + 1 + k]);
        }
    }
}

/// Whether token `t` is `<u>|<e>|<s>` with `u` the configured user, `u` and `e` free of
/// `|`, `e` a `u64` no earlier than `now`, and `s` the signature of `<u>|<e>`.
pub open spec fn token_fields(
    secret: Seq<u8>,
    username: Seq<char>,
    t: Seq<char>,
    now: nat,
    u: Seq<char>,
    e: Seq<char>,
) -> bool {
    &&& !u.contains('|')
    &&& !e.contains('|')
    &&& parse_unsigned(e, u64_max()) matches Some(x) && now <= x
    &&& u == username
    &&& t == u + seq!['|'] + e + seq!['|'] + sign_spec(secret, u + seq!['|'] + e)
}

/// A token is accepted at time `now` exactly when it is `<u>|<e>|<s>` where `u` is the
/// configured user, neither `u` nor `e` holds `|`, `e` reads as a `u64` expiry no earlier
/// than `now`, and `s` is the lowercase hex HMAC-SHA256 of `<u>|<e>` under the secret;
/// the user it gives is then the configured user.
pub proof fn lemma_session_token_shape(secret: Seq<u8>, username: Seq<char>, t: Seq<char>, now: nat)
    ensures
        (verify_spec(secret, username, t, now) is Ok) <==> exists|u: Seq<char>, e: Seq<char>|
            #[trigger] token_fields(secret, username, t, now, u, e),
        verify_spec(secret, username, t, now) matches Ok(v) ==> v == username,
{
    if verify_spec(secret, username, t, now) is Ok {
        lemma_rsplit_parts(t, '|');
        let (p, sig) = rsplit_once(t, '|').unwrap();
        lemma_split_parts(p, '|');
        let (u, e) = split_once(p, '|').unwrap();
        let b = unsigned_body(e);
        assert(!e.contains('|')) by {
            assert forall|k: int| 0 <= k < e.len() implies e[k] != '|' by {
                if e.len() > 0 && e[0] == '+' {
                    if k > 0 {
                        assert(e[k] == b[k - 1]);
                        assert(is_digit(b[k - 1]));
                    }
                } else {
                    assert(is_digit(b[k]));
                }
            }
        }
        assert(t == u + seq!['|'] + e + seq!['|'] + sign_spec(secret, u + seq!['|'] + e));
        assert(token_fields(secret, username, t, now, u, e));
    }
    if exists|u: Seq<char>, e: Seq<char>| #[trigger] token_fields(secret, username, t, now, u, e) {
        let (u, e) = choose|u: Seq<char>, e: Seq<char>| #[trigger] token_fields(secret, username, t, now, u, e);
        let p = u + seq!['|'] + e;
        let h = sign_spec(secret, p);
        lemma_hex_shape(hmac_sha256_spec(secret, vstd::utf8::encode_utf8(p)));
        assert(!h.contains('|')) by {
            assert forall|k: int| 0 <= k < h.len() implies h[k] != '|' by {}
        }
        lemma_rsplit_at(p, h);
        lemma_split_at(u, e);
    }
}

/// A token with any one character appended is refused: its signature no longer matches
/// (for an appended `|`, given a non-empty signature, as [`sign`] always gives).
pub proof fn lemma_extended_token_rejected(
    secret: Seq<u8>,
    username: Seq<char>,
    user: Seq<char>,
    exp: nat,
    c: char,
    now: nat,
)
    requires
        c == '|' ==> sign_spec(secret, token_spec(secret, user, exp)).len() > 0,
    ensures
        verify_spec(secret, username, token_spec(secret, user, exp).push(c), now)
            == Err::<Seq<char>, VerifyError>(VerifyError::BadSignature),
{
    let p = payload_spec(user, exp);
    let h = sign_spec(secret, p);
    let t = token_spec(secret, user, exp);
    lemma_hex_shape(hmac_sha256_spec(secret, vstd::utf8::encode_utf8(p)));
    assert(!h.contains('|'));
    if c == '|' {
        assert(t.push(c) == t + seq!['|'] + Seq::<char>::empty());
        lemma_rsplit_at(t, Seq::<char>::empty());
    } else {
        let h2 = h.push(c);
        assert(!h2.contains('|')) by {
            assert forall|i: int| 0 <= i < h2.len() implies h2[i] != '|' by {
                if i < h.len() {
                    assert(h2[i] == h[i]);
                }
            }
        }
        assert(t.push(c) == p + seq!['|'] + h2);
        lemma_rsplit_at(p, h2);
    }
}

// ---------------------------------------------------------------- requests
/// Paths served without a session.
pub open spec fn is_public_spec(path: Seq<char>) -> bool {
    path == "/healthz"@ || path == "/login"@ || path == "/static/style.css"@
        || "/static/"@.is_prefix_of(path)
}

/// Whether `path` is served without a session.
pub fn is_public(path: &str) -> (r: bool)
    ensures
        r == is_public_spec(path@),
{
    str_eq(path, "/healthz") || str_eq(path, "/login") || str_eq(path, "/static/style.css")
        || starts_with(path, "/static/")
}

/// The value of cookie `name` among the `;`-separated pieces: the first piece that,
/// trimmed, reads `name=value`.
pub open spec fn cookie_in(pieces: Seq<Seq<char>>, name: Seq<char>) -> Option<Seq<char>>
    decreases pieces.len(),
{
    if pieces.len() == 0 {
        None
    } else {
        match split_once(trim(pieces[0]), '=') {
            Some((k, v)) => if k == name {
                Some(v)
            } else {
                cookie_in(pieces.drop_first(), name)
            },
            None => cookie_in(pieces.drop_first(), name),
        }
    }
}

/// The value of cookie `name` in the `Cookie` header `header`.
pub open spec fn cookie_value_spec(header: Seq<char>, name: Seq<char>) -> Option<Seq<char>> {
    cookie_in(split_char(header, ';'), name)
}

/// The value of cookie `name` in the `Cookie` header `header`.
pub fn cookie_value(header: &str, name: &str) -> (r: Option<String>)
    ensures
        match r {
            Some(v) => cookie_value_spec(header@, name@) == Some(v@),
            None => cookie_value_spec(header@, name@) is None,
        },
{
    let pieces = split_char_of(header, ';');
    let ghost ps = views(pieces@);
    let mut i: usize = 0;
    assert(ps.subrange(0, ps.len() as int) == ps);
    while i < pieces.len()
        invariant
            i <= pieces@.len(),
            ps == views(pieces@),
            ps == split_char(header@, ';'),
            cookie_in(ps, name@) == cookie_in(ps.subrange(i as int, ps.len() as int), name@),
        decreases pieces@.len() - i,
    {
        let ghost rest = ps.subrange(i as int, ps.len() as int);
        assert(rest[0] == pieces@[i as int]@);
        assert(rest.drop_first() == ps.subrange(i + 1, ps.len() as int));
        let t = trim_str(pieces[i].as_str());
        match split_once_str(t.as_str(), '=') {
            Some((k, v)) => {
                if str_eq(k.as_str(), name) {
                    return Some(v);
                }
            },
            None => {},
        }
        i += 1;
    }
    assert(ps.subrange(ps.len() as int, ps.len() as int) =~= Seq::<Seq<char>>::empty());
    None
}

/// Whether the `Cookie` header (if any) carries a session token accepted at `now`.
pub open spec fn session_valid_spec(
    secret: Seq<u8>,
    username: Seq<char>,
    header: Option<Seq<char>>,
    now: nat,
) -> bool {
    match header {
        None => false,
        Some(h) => match cookie_value_spec(h, COOKIE_NAME@) {
            None => false,
            Some(t) => verify_spec(secret, username, t, now) is Ok,
        },
    }
}

/// Whether the `Cookie` header (if any) carries a session token accepted at `now`.
pub fn session_valid_at(auth: &AuthConfig, cookie_header: Option<&str>, now: u64) -> (r: bool)
    ensures
        r == session_valid_spec(
            auth.session_secret@,
            auth.username@,
            opt_view_str(cookie_header),
            now as nat,
        ),
{
    match cookie_header {
        None => false,
        Some(h) => match cookie_value(h, COOKIE_NAME) {
            None => false,
            Some(t) => verify_session_at(auth, t.as_str(), now).is_ok(),
        },
    }
}

/// Whether the `Cookie` header (if any) carries a session token accepted now.
pub fn session_valid(auth: &AuthConfig, cookie_header: Option<&str>) -> (r: bool)
    ensures
        exists|now: nat| now <= u64_max() && r == #[trigger] session_valid_spec(
            auth.session_secret@,
            auth.username@,
            opt_view_str(cookie_header),
            now,
        ),
{
    let now = now_secs();
    let r = session_valid_at(auth, cookie_header, now);
    assert(r == session_valid_spec(auth.session_secret@, auth.username@, opt_view_str(cookie_header), now as nat));
    r
}

/// The answer to a request that needs a session and has none.
#[derive(Debug, Clone, Copy, PartialEq, Eq, Structural)]
pub enum Access {
    /// Serve the request.
    Allow,
    /// Redirect a browser to `/login`.
    RedirectToLogin,
    /// `401` with a JSON body `{"error": "authentication required", "code": "UNAUTHORIZED"}`.
    Unauthorized,
}

/// How a request without a valid session is answered: a browser asking for HTML outside
/// `/api/` and `/ws/` is sent to the login page; anything else gets `401`.
pub open spec fn denial_spec(accept: Option<Seq<char>>, path: Seq<char>) -> Access {
    let wants_html = match accept {
        Some(a) => contains_seq(a, "text/html"@),
        None => false,
    };
    let is_api = "/api/"@.is_prefix_of(path) || "/ws/"@.is_prefix_of(path);
    if wants_html && !is_api {
        Access::RedirectToLogin
    } else {
        Access::Unauthorized
    }
}

pub open spec fn opt_view_str(o: Option<&str>) -> Option<Seq<char>> {
    match o {
        Some(s) => Some(s@),
        None => None,
    }
}

/// How a request without a valid session is answered.
pub fn unauthorized_response(accept: Option<&str>, path: &str) -> (r: Access)
    ensures
        r == denial_spec(opt_view_str(accept), path@),
{
    let wants_html = match accept {
        Some(a) => contains_str(a, "text/html"),
        None => false,
    };
    let is_api = starts_with(path, "/api/") || starts_with(path, "/ws/");
    if wants_html && !is_api {
        Access::RedirectToLogin
    } else {
        Access::Unauthorized
    }
}

/// The answer to a request for `path` with the given `Cookie` and `Accept` headers at
/// time `now`: public paths and valid sessions are served; others are refused.
pub open spec fn access_spec(
    secret: Seq<u8>,
    username: Seq<char>,
    path: Seq<char>,
    cookie: Option<Seq<char>>,
    accept: Option<Seq<char>>,
    now: nat,
) -> Access {
    if is_public_spec(path) {
        Access::Allow
    } else if session_valid_spec(secret, username, cookie, now) {
        Access::Allow
    } else {
        denial_spec(accept, path)
    }
}

/// The session check in front of every route, at time `now`.
pub fn check_access_at(
    auth: &AuthConfig,
    path: &str,
    cookie_header: Option<&str>,
    accept: Option<&str>,
    now: u64,
) -> (r: Access)
    ensures
        r == access_spec(
            auth.session_secret@,
            auth.username@,
            path@,
            opt_view_str(cookie_header),
            opt_view_str(accept),
            now as nat,
        ),
{
    if is_public(path) {
        return Access::Allow;
    }
    if session_valid_at(auth, cookie_header, now) {
        return Access::Allow;
    }
    unauthorized_response(accept, path)
}

/// The session check in front of every route, by the system clock.
pub fn require_auth(
    auth: &AuthConfig,
    path: &str,
    cookie_header: Option<&str>,
    accept: Option<&str>,
) -> (r: Access)
    ensures
        is_public_spec(path@) ==> r == Access::Allow,
        exists|now: nat| r == #[trigger] access_spec(
            auth.session_secret@,
            auth.username@,
            path@,
            opt_view_str(cookie_header),
            opt_view_str(accept),
            now,
        ),
{
    let now = now_secs();
    check_access_at(auth, path, cookie_header, accept, now)
}

// ---------------------------------------------------------------- login
/// The login form's fields.
pub struct LoginForm {
    pub username: String,
    pub password: String,
}

/// Why a login failed.
#[derive(Debug, Clone, Copy, PartialEq, Eq, Structural)]
pub enum LoginError {
    /// Wrong user name or password.
    InvalidCredentials,
    /// The system clock is too late to give the session an expiry.
    ClockOutOfRange,
}

/// The outcome of a login attempt at time `now`: refused unless the user name and password
/// are the configured ones; refused when the expiry would not fit in a `u64`; else the
/// session token for the user, expiring [`SESSION_TTL_SECS`] after `now`.
pub open spec fn login_spec(
    secret: Seq<u8>,
    auth_user: Seq<char>,
    auth_password: Seq<char>,
    username: Seq<char>,
    password: Seq<char>,
    now: nat,
) -> Result<Seq<char>, LoginError> {
    if !(username == auth_user && password == auth_password) {
        Err(LoginError::InvalidCredentials)
    } else if now + SESSION_TTL_SECS > u64_max() {
        Err(LoginError::ClockOutOfRange)
    } else {
        Ok(token_spec(secret, username, (now + SESSION_TTL_SECS) as nat))
    }
}

/// A login outcome with the token as text.
pub open spec fn login_result_view(r: Result<String, LoginError>) -> Result<Seq<char>, LoginError> {
    match r {
        Ok(t) => Ok(t@),
        Err(e) => Err(e),
    }
}

/// A login attempt at time `now`: the session token for the user, or why there is none.
pub fn login_at(auth: &AuthConfig, username: &str, password: &str, now: u64) -> (r: Result<
    String,
    LoginError,
>)
    ensures
        !(username@ == auth.username@ && password@ == auth.password@) ==> r == Err::<
            String,
            LoginError,
        >(LoginError::InvalidCredentials),
        username@ == auth.username@ && password@ == auth.password@ && now + SESSION_TTL_SECS
            > u64_max() ==> r == Err::<String, LoginError>(LoginError::ClockOutOfRange),
        username@ == auth.username@ && password@ == auth.password@ && now + SESSION_TTL_SECS
            <= u64_max() ==> (r matches Ok(t) && t@ == token_spec(
            auth.session_secret@,
            username@,
            (now + SESSION_TTL_SECS) as nat,
        )),
{
    let user_ok = ct_eq_str(username, auth.username.as_str());
    let pass_ok = ct_eq_str(password, auth.password.as_str());
    if !(user_ok && pass_ok) {
        return Err(LoginError::InvalidCredentials);
    }
    if now > 0xffff_ffff_ffff_ffff - SESSION_TTL_SECS {
        return Err(LoginError::ClockOutOfRange);
    }
    Ok(build_token(auth, username, now))
}

/// A login attempt by the system clock.
pub fn login(auth: &AuthConfig, username: &str, password: &str) -> (r: Result<String, LoginError>)
    ensures
        !(username@ == auth.username@ && password@ == auth.password@) ==> r == Err::<
            String,
            LoginError,
        >(LoginError::InvalidCredentials),
        r matches Ok(t) ==> exists|exp: nat| SESSION_TTL_SECS <= exp <= u64_max() && t@
            == #[trigger] token_spec(auth.session_secret@, username@, exp),
        exists|now: nat| now <= u64_max() && #[trigger] login_spec(
            auth.session_secret@,
            auth.username@,
            auth.password@,
            username@,
            password@,
            now,
        ) == login_result_view(r),
{
    let now = now_secs();
    let r = login_at(auth, username, password, now);
    proof {
        if r is Ok {
            let exp = (now + SESSION_TTL_SECS) as nat;
            assert(r->Ok_0@ == token_spec(auth.session_secret@, username@, exp));
        }
        assert(login_spec(
            auth.session_secret@,
            auth.username@,
            auth.password@,
            username@,
            password@,
            now as nat,
        ) == login_result_view(r));
    }
    r
}

/// The `SameSite` attribute of a cookie.
#[derive(Debug, Clone, Copy, PartialEq, Eq, Structural)]
pub enum SameSitePolicy {
    Strict,
    Lax,
    /// Written `None`: sent on cross-site requests too.
    NoRestriction,
}

/// How a `SameSite` attribute is written.
pub open spec fn same_site_text(p: SameSitePolicy) -> Seq<char> {
    match p {
        SameSitePolicy::Strict => "Strict"@,
        SameSitePolicy::Lax => "Lax"@,
        SameSitePolicy::NoRestriction => "None"@,
    }
}

/// A `Set-Cookie` value as the `cookie` crate's `Display` prints a cookie built with a
/// path, `HttpOnly` set or not, a `SameSite` policy, `Secure` set or not, and a
/// `Max-Age`: the attributes in the order `HttpOnly`, `SameSite`, `Secure`, `Path`,
/// `Max-Age`.
pub open spec fn set_cookie_spec(
    name: Seq<char>,
    value: Seq<char>,
    path: Seq<char>,
    http_only: bool,
    same_site: SameSitePolicy,
    secure: bool,
    max_age: int,
) -> Seq<char> {
    name + "="@ + value + (if http_only {
        "; HttpOnly"@
    } else {
        Seq::<char>::empty()
    }) + "; SameSite="@ + same_site_text(same_site) + (if secure {
        "; Secure"@
    } else {
        Seq::<char>::empty()
    }) + "; Path="@ + path + "; Max-Age="@ + signed_decimal(max_age)
}

/// The `Set-Cookie` value of a cookie built with the `cookie` crate (`Cookie::build`,
/// then `path`, `http_only`, `same_site`, `secure` and `max_age`), as its `Display`
/// prints it.
#[verifier::external_body]
fn set_cookie(
    name: &str,
    value: &str,
    path: &str,
    http_only: bool,
    same_site: SameSitePolicy,
    secure: bool,
    max_age: i64,
) -> (r: String)
    ensures
        r@ == set_cookie_spec(name@, value@, path@, http_only, same_site, secure, max_age as int),
{
    let policy = match same_site {
        SameSitePolicy::Strict => cookie::SameSite::Strict,
        SameSitePolicy::Lax => cookie::SameSite::Lax,
        SameSitePolicy::NoRestriction => cookie::SameSite::None,
    };
    cookie::Cookie::build((name.to_string(), value.to_string()))
        .path(path.to_string())
        .http_only(http_only)
        .same_site(policy)
        .secure(secure)
        .max_age(cookie::time::Duration::seconds(max_age))
        .build()
        .to_string()
}

/// The session cookie's attributes: path `/`, `HttpOnly`, `SameSite=Lax`, and `Secure`
/// as configured.
pub open spec fn session_cookie_spec(secure: bool, value: Seq<char>, max_age: int) -> Seq<char> {
    set_cookie_spec(COOKIE_NAME@, value, "/"@, true, SameSitePolicy::Lax, secure, max_age)
}

/// The `Set-Cookie` value that stores session `token` for [`SESSION_TTL_SECS`].
pub fn session_cookie(auth: &AuthConfig, token: &str) -> (r: String)
    ensures
        r@ == session_cookie_spec(auth.cookie_secure, token@, SESSION_TTL_SECS as int),
{
    set_cookie(COOKIE_NAME, token, "/", true, SameSitePolicy::Lax, auth.cookie_secure, 1209600)
}

/// The `Set-Cookie` value that clears the session cookie.
pub fn logout_cookie(auth: &AuthConfig) -> (r: String)
    ensures
        r@ == session_cookie_spec(auth.cookie_secure, ""@, 0),
{
    set_cookie(COOKIE_NAME, "", "/", true, SameSitePolicy::Lax, auth.cookie_secure, 0)
}

// ---------------------------------------------------------------- the session law
/// A lowercase hex digit.
pub open spec fn is_hex_char(c: char) -> bool {
    ('0' <= c && c <= '9') || ('a' <= c && c <= 'f')
}

proof fn lemma_hex_chars(b: Seq<u8>)
    ensures
        forall|i: int| 0 <= i < hex_spec(b).len() ==> is_hex_char(#[trigger] hex_spec(b)[i]),
    decreases b.len(),
{
    if b.len() > 0 {
        lemma_hex_chars(b.drop_last());
        lemma_hex_shape(b.drop_last());
        let h = hex_spec(b);
        let p = hex_spec(b.drop_last());
        assert forall|i: int| 0 <= i < h.len() implies is_hex_char(#[trigger] h[i]) by {
            if i < p.len() {
                assert(h[i] == p[i]);
            }
        }
    }
}

proof fn lemma_split_first(u: Seq<char>, c: char, d: Seq<char>)
    requires
        !u.contains(c),
    ensures
        split_once(u + seq![c] + d, c) == Some((u, d)),
{
    let t = u + seq![c] + d;
    t.index_of_first_ensures(c);
    assert(t[u.len() as int] == c);
    assert(t.contains(c));
    let i = t.index_of_first(c).unwrap();
    if i < u.len() {
        assert(t[i] == u[i]);
    }
    assert(i == u.len());
    assert(t.subrange(0, i) == u);
    assert(t.subrange(i + 1, t.len() as int) == d);
}

proof fn lemma_no_char_split(s: Seq<char>, c: char)
    requires
        !s.contains(c),
    ensures
        split_char(s, c) == seq![s],
{
    s.index_of_first_ensures(c);
}

proof fn lemma_trim_identity(s: Seq<char>)
    requires
        s.len() > 0,
        !is_ws(s[0]),
        !is_ws(s.last()),
    ensures
        trim(s) == s,
{
    assert(trim_start(s) == s);
    assert(trim_end(s) == s);
}

/// The `Cookie` header a browser sends back after a login: `anchor_session=<token>`.
pub open spec fn session_cookie_header(token: Seq<char>) -> Seq<char> {
    COOKIE_NAME@ + seq!['='] + token
}

/// A request that carries the session cookie of a token minted for the configured user
/// is served, on any path, at any time up to the token's expiry (the user name must
/// contain neither `|` nor `;`).
pub proof fn lemma_session_cookie_grants_access(
    secret: Seq<u8>,
    user: Seq<char>,
    exp: nat,
    now: nat,
    path: Seq<char>,
    accept: Option<Seq<char>>,
)
    requires
        !user.contains('|'),
        !user.contains(';'),
        exp <= u64_max(),
        now <= exp,
    ensures
        access_spec(
            secret,
            user,
            path,
            Some(session_cookie_header(token_spec(secret, user, exp))),
            accept,
            now,
        ) == Access::Allow,
{
    reveal_strlit("anchor_session");
    let p = payload_spec(user, exp);
    let hx = hmac_sha256_spec(secret, vstd::utf8::encode_utf8(p));
    let sig = sign_spec(secret, p);
    let t = token_spec(secret, user, exp);
    let h = session_cookie_header(t);
    lemma_mint_then_verify(secret, user, exp, now);
    lemma_hex_chars(hx);
    lemma_hex_shape(hx);
    lemma_decimal(exp);
    let d = decimal(exp);
    // no `;` anywhere in the header
    assert forall|i: int| 0 <= i < h.len() implies h[i] != ';' by {
        let n = COOKIE_NAME@.len() as int;
        if i < n {
            assert(h[i] == COOKIE_NAME@[i]);
        } else if i == n {
        } else if i < n + 1 + user.len() {
            assert(h[i] == user[i - n - 1]);
        } else if i == n + 1 + user.len() {
        } else if i < n + 2 + user.len() + d.len() {
            assert(h[i] == d[i - n - 2 - user.len()]);
            assert(is_digit(d[i - n - 2 - user.len()]));
        } else if i == n + 2 + user.len() + d.len() {
        } else {
            assert(h[i] == sig[i - n - 3 - user.len() - d.len()]);
            assert(is_hex_char(sig[i - n - 3 - user.len() - d.len()]));
        }
    }
    assert(!h.contains(';'));
    lemma_no_char_split(h, ';');
    // trimming leaves it as it is
    assert(h[0] == 'a');
    if sig.len() > 0 {
        assert(h.last() == sig.last());
        assert(is_hex_char(sig[sig.len() - 1]));
    } else {
        assert(h.last() == '|');
    }
    lemma_trim_identity(h);
    // the name is `anchor_session`
    assert(!COOKIE_NAME@.contains('='));
    lemma_split_first(COOKIE_NAME@, '=', t);
    assert(cookie_in(seq![h], COOKIE_NAME@) == Some(t)) by {
        assert(seq![h][0] == h);
    }
}

/// A request for a path that is not public, carrying no `Cookie` header, is never
/// served: a browser is sent to the login page and anything else gets `401`.
pub proof fn lemma_no_cookie_no_access(
    secret: Seq<u8>,
    username: Seq<char>,
    path: Seq<char>,
    accept: Option<Seq<char>>,
    now: nat,
)
    requires
        !is_public_spec(path),
    ensures
        access_spec(secret, username, path, None, accept, now) != Access::Allow,
        access_spec(secret, username, path, None, accept, now) == denial_spec(accept, path),
{
}

} // verus!
