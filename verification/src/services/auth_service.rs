//! Authentication business logic: registration, login, session management,
//! profile management and rate limiting.

use vstd::prelude::*;

use crate::config::{opt_view, Config};
use crate::middleware::auth::header_session_id;
use crate::models::rate_limit::{
    check_step, ip_step, law_lockout_after_threshold, lemma_fails_below_threshold,
    record_fail_locks, record_fail_step, repeated_fails, FailureTable, IpRateLimiter, RateLimiter, RateLimitStatus, WindowTable,
};
use crate::models::session::{find_step, Session, SessionRepository, SessionTable};
use crate::models::user::{
    clone_opt_string, lookup_email, lookup_id, with_password, EmailIndex, RepoError, User,
    UserRepository, UserTable,
};
use crate::utils::chars::{
    all_ascii, ascii_lowercase, chars_of, lemma_ascii_lowercase, spec_is_whitespace,
    spec_to_lowercase, to_lowercase, trim, trim_end_seq, trim_seq, trim_start_seq,
};
use crate::utils::clock::{
    now_millis, representable, MAX_DELTA_SECS, MAX_TIMESTAMP_MS, MIN_TIMESTAMP_MS,
};
use crate::utils::password::{
    hash_has_cost, hash_password, password_is_strong, spec_bcrypt_verify, validate_password,
    verify_password,
};
use crate::utils::profile::{
    avatar_normalization, default_nickname, email_prefix, first_index_of, nickname_check,
    normalize_avatar, normalize_phone, phone_normalization, profile_error_message,
    validate_nickname, ProfileError,
};
use crate::utils::session_id::{generate_session_id, is_session_id};
use crate::utils::signed_cookie::{
    cookie_tag, lemma_hex_encode_chars, lemma_sign_then_verify, sign, signed_value, spec_hex_encode,
};

verus! {

/// Errors from the auth service, each mapping to a specific API error code.
#[derive(Debug)]
pub enum AuthError {
    InvalidEmail,
    WeakPassword,
    ValidationError,
    EmailAlreadyExists,
    InvalidCredentials,
    TooManyAttempts,
    IpRateLimited,
    InvalidField(String),
    InvalidOldPassword,
    Unauthenticated,
    Internal,
}

/// Index of the last `c` in `s`, or -1 when there is none.
pub open spec fn last_index_of(s: Seq<char>, c: char) -> int
    decreases s.len(),
{
    if s.len() == 0 {
        -1
    } else if s.last() == c {
        s.len() - 1
    } else {
        last_index_of(s.drop_last(), c)
    }
}

pub proof fn lemma_last_index_of(s: Seq<char>, c: char)
    ensures
        -1 <= last_index_of(s, c) < s.len(),
        forall|j: int| last_index_of(s, c) < j < s.len() ==> s[j] != c,
        last_index_of(s, c) >= 0 ==> s[last_index_of(s, c)] == c,
    decreases s.len(),
{
    if s.len() > 0 && s.last() != c {
        lemma_last_index_of(s.drop_last(), c);
        assert forall|j: int| last_index_of(s, c) < j < s.len() implies s[j] != c by {
            if j < s.len() - 1 {
                assert(s[j] == s.drop_last()[j]);
            }
        }
    }
}

pub open spec fn is_ascii_alphanumeric(c: char) -> bool {
    ('a' <= c <= 'z') || ('A' <= c <= 'Z') || ('0' <= c <= '9')
}

pub open spec fn is_ascii_alphabetic(c: char) -> bool {
    ('a' <= c <= 'z') || ('A' <= c <= 'Z')
}

/// Characters allowed before the `@`.
pub open spec fn local_char_ok(c: char) -> bool {
    is_ascii_alphanumeric(c) || c == '.' || c == '_' || c == '%' || c == '+' || c == '-'
}

/// Characters allowed in the domain before its last dot.
pub open spec fn domain_char_ok(c: char) -> bool {
    is_ascii_alphanumeric(c) || c == '.' || c == '-'
}

/// The email format `^[a-zA-Z0-9._%+-]+@[a-zA-Z0-9.-]+\.[a-zA-Z]{2,}$` as the
/// checks below read it, with a limit of 254 bytes. The domain splits at its
/// last dot; the host before that dot is non-empty and the top-level domain
/// after it has at least two letters.
pub open spec fn email_is_valid(s: Seq<char>) -> bool {
    let at = first_index_of(s, '@');
    let domain = s.subrange(at + 1, s.len() as int);
    let dot = last_index_of(domain, '.');
    let local = s.subrange(0, at);
    let host = domain.subrange(0, dot);
    let tld = domain.subrange(dot + 1, domain.len() as int);
    &&& vstd::utf8::encode_utf8(s).len() <= 254
    &&& 0 < at < s.len()
    &&& domain.len() > 0
    &&& dot > 0
    &&& tld.len() >= 2
    &&& forall|i: int| 0 <= i < local.len() ==> local_char_ok(#[trigger] local[i])
    &&& forall|i: int| 0 <= i < host.len() ==> domain_char_ok(#[trigger] host[i])
    &&& forall|i: int| 0 <= i < tld.len() ==> is_ascii_alphabetic(#[trigger] tld[i])
}

/// A character of the pattern's class `[a-zA-Z0-9._%+-]`.
pub open spec fn pattern_local_char(c: char) -> bool {
    ||| 'a' <= c <= 'z'
    ||| 'A' <= c <= 'Z'
    ||| '0' <= c <= '9'
    ||| c == '.' || c == '_' || c == '%' || c == '+' || c == '-'
}

/// A character of the pattern's class `[a-zA-Z0-9.-]`.
pub open spec fn pattern_host_char(c: char) -> bool {
    ||| 'a' <= c <= 'z'
    ||| 'A' <= c <= 'Z'
    ||| '0' <= c <= '9'
    ||| c == '.' || c == '-'
}

/// A character of the pattern's class `[a-zA-Z]`.
pub open spec fn pattern_letter(c: char) -> bool {
    ('a' <= c <= 'z') || ('A' <= c <= 'Z')
}

/// `s` matches `^[a-zA-Z0-9._%+-]+@[a-zA-Z0-9.-]+\.[a-zA-Z]{2,}$` with the
/// `@` at `a` and the separating dot at `d`.
pub open spec fn pattern_split(s: Seq<char>, a: int, d: int) -> bool {
    &&& 0 < a
    &&& a + 1 < d
    &&& d + 3 <= s.len()
    &&& s[a] == '@'
    &&& s[d] == '.'
    &&& forall|i: int| 0 <= i < a ==> pattern_local_char(#[trigger] s[i])
    &&& forall|i: int| a < i < d ==> pattern_host_char(#[trigger] s[i])
    &&& forall|i: int| d < i < s.len() ==> pattern_letter(#[trigger] s[i])
}

/// Whether `s` matches `^[a-zA-Z0-9._%+-]+@[a-zA-Z0-9.-]+\.[a-zA-Z]{2,}$`.
pub open spec fn matches_email_pattern(s: Seq<char>) -> bool {
    exists|a: int, d: int| pattern_split(s, a, d)
}

/// The email check is the documented format: at most 254 bytes, and a match
/// of `^[a-zA-Z0-9._%+-]+@[a-zA-Z0-9.-]+\.[a-zA-Z]{2,}$`.
pub proof fn law_email_format(s: Seq<char>)
    ensures
        email_is_valid(s) <==> (vstd::utf8::encode_utf8(s).len() <= 254 && matches_email_pattern(s)),
{
    crate::utils::profile::lemma_first_index_of(s, '@');
    let at = first_index_of(s, '@');
    let domain = s.subrange(at + 1, s.len() as int);
    lemma_last_index_of(domain, '.');
    let dot = last_index_of(domain, '.');
    if email_is_valid(s) {
        let d = at + 1 + dot;
        let local = s.subrange(0, at);
        let host = domain.subrange(0, dot);
        let tld = domain.subrange(dot + 1, domain.len() as int);
        assert(s[d] == domain[dot]);
        assert forall|i: int| 0 <= i < at implies pattern_local_char(#[trigger] s[i]) by {
            assert(local[i] == s[i]);
            assert(local_char_ok(local[i]));
        }
        assert forall|i: int| at < i < d implies pattern_host_char(#[trigger] s[i]) by {
            assert(host[i - at - 1] == s[i]);
            assert(domain_char_ok(host[i - at - 1]));
        }
        assert forall|i: int| d < i < s.len() implies pattern_letter(#[trigger] s[i]) by {
            assert(tld[i - d - 1] == s[i]);
            assert(is_ascii_alphabetic(tld[i - d - 1]));
        }
        assert(pattern_split(s, at, d));
    }
    if vstd::utf8::encode_utf8(s).len() <= 254 && matches_email_pattern(s) {
        let (a, d) = choose|a: int, d: int| pattern_split(s, a, d);
        // the `@` is the first one: no local character is `@`
        if at < a {
            assert(pattern_local_char(s[at]));
        }
        if at > a {
            assert(s[a] != '@');
        }
        assert(at == a);
        // the dot is the last one in the domain: no letter after it is `.`
        let k = d - a - 1;
        assert(domain[k] == s[d]);
        if dot < k {
            assert(domain[k] != '.');
        }
        if dot > k {
            assert(domain[dot] == s[a + 1 + dot]);
            assert(pattern_letter(s[a + 1 + dot]));
        }
        assert(dot == k);
        let local = s.subrange(0, at);
        let host = domain.subrange(0, dot);
        let tld = domain.subrange(dot + 1, domain.len() as int);
        assert forall|i: int| 0 <= i < local.len() implies local_char_ok(#[trigger] local[i]) by {
            assert(local[i] == s[i]);
            assert(pattern_local_char(s[i]));
        }
        assert forall|i: int| 0 <= i < host.len() implies domain_char_ok(#[trigger] host[i]) by {
            assert(host[i] == s[a + 1 + i]);
            assert(pattern_host_char(s[a + 1 + i]));
        }
        assert forall|i: int| 0 <= i < tld.len() implies is_ascii_alphabetic(#[trigger] tld[i]) by {
            assert(tld[i] == s[d + 1 + i]);
            assert(pattern_letter(s[d + 1 + i]));
        }
    }
}

/// Whether `v[lo..hi]` consists of local-part characters.
fn all_local_chars(v: &Vec<char>, lo: usize, hi: usize) -> (r: bool)
    requires
        lo <= hi <= v.len(),
    ensures
        r == forall|i: int| lo <= i < hi ==> local_char_ok(#[trigger] v@[i]),
{
    let mut i = lo;
    while i < hi
        invariant
            lo <= i <= hi <= v.len(),
            forall|j: int| lo <= j < i ==> local_char_ok(#[trigger] v@[j]),
        decreases hi - i,
    {
        let c = v[i];
        let ok = ('a' <= c && c <= 'z') || ('A' <= c && c <= 'Z') || ('0' <= c && c <= '9')
            || c == '.' || c == '_' || c == '%' || c == '+' || c == '-';
        if !ok {
            return false;
        }
        i += 1;
    }
    true
}

/// Whether `v[lo..hi]` consists of domain characters.
fn all_domain_chars(v: &Vec<char>, lo: usize, hi: usize) -> (r: bool)
    requires
        lo <= hi <= v.len(),
    ensures
        r == forall|i: int| lo <= i < hi ==> domain_char_ok(#[trigger] v@[i]),
{
    let mut i = lo;
    while i < hi
        invariant
            lo <= i <= hi <= v.len(),
            forall|j: int| lo <= j < i ==> domain_char_ok(#[trigger] v@[j]),
        decreases hi - i,
    {
        let c = v[i];
        let ok = ('a' <= c && c <= 'z') || ('A' <= c && c <= 'Z') || ('0' <= c && c <= '9')
            || c == '.' || c == '-';
        if !ok {
            return false;
        }
        i += 1;
    }
    true
}

/// Whether `v[lo..hi]` consists of ASCII letters.
fn all_alphabetic(v: &Vec<char>, lo: usize, hi: usize) -> (r: bool)
    requires
        lo <= hi <= v.len(),
    ensures
        r == forall|i: int| lo <= i < hi ==> is_ascii_alphabetic(#[trigger] v@[i]),
{
    let mut i = lo;
    while i < hi
        invariant
            lo <= i <= hi <= v.len(),
            forall|j: int| lo <= j < i ==> is_ascii_alphabetic(#[trigger] v@[j]),
        decreases hi - i,
    {
        let c = v[i];
        if !(('a' <= c && c <= 'z') || ('A' <= c && c <= 'Z')) {
            return false;
        }
        i += 1;
    }
    true
}

/// Simplified email format validation.
pub fn is_valid_email(email: &str) -> (r: bool)
    ensures
        r == email_is_valid(email@),
{
    if email.as_bytes().len() > 254 {
        return false;
    }
    let v = chars_of(email);
    let n = v.len();
    proof {
        crate::utils::profile::lemma_first_index_of(v@, '@');
    }
    let at = crate::utils::profile::find_char(&v, '@');
    if at == n || at == 0 {
        return false;
    }
    let ghost domain = v@.subrange(at + 1, n as int);
    if at + 1 == n {
        return false;
    }
    // last '.' in v[at + 1..n]
    proof {
        lemma_last_index_of(domain, '.');
    }
    let mut k = n;
    while k > at + 1 && v[k - 1] != '.'
        invariant
            at + 1 <= k <= n == v.len(),
            domain == v@.subrange(at + 1, n as int),
            forall|j: int| k <= j < n ==> v@[j] != '.',
            -1 <= last_index_of(domain, '.') < domain.len(),
            forall|j: int| last_index_of(domain, '.') < j < domain.len() ==> domain[j] != '.',
            last_index_of(domain, '.') >= 0 ==> domain[last_index_of(domain, '.')] == '.',
        decreases k - at,
    {
        k -= 1;
    }
    if k == at + 1 {
        proof {
            if last_index_of(domain, '.') >= 0 {
                let d = last_index_of(domain, '.');
                assert(v@[at + 1 + d] == domain[d]);
            }
        }
        return false;
    }
    let dot = k - 1;
    proof {
        let d = last_index_of(domain, '.');
        assert(domain[dot - at - 1] == '.');
        if d != dot - at - 1 {
            if d > dot - at - 1 {
                assert(v@[at + 1 + d] == domain[d]);
            }
        }
        assert(d == dot - at - 1);
    }
    if dot == at + 1 || n - (dot + 1) < 2 {
        return false;
    }
    let ok_local = all_local_chars(&v, 0, at);
    let ok_host = all_domain_chars(&v, at + 1, dot);
    let ok_tld = all_alphabetic(&v, dot + 1, n);
    proof {
        let local = v@.subrange(0, at as int);
        let host = domain.subrange(0, (dot - at - 1) as int);
        let tld = domain.subrange((dot - at) as int, domain.len() as int);
        assert(ok_local == forall|i: int| 0 <= i < local.len() ==> local_char_ok(#[trigger] local[i])) by {
            if ok_local {
                assert forall|i: int| 0 <= i < local.len() implies local_char_ok(#[trigger] local[i]) by {
                    assert(local[i] == v@[i]);
                }
            } else {
                let i = choose|i: int| 0 <= i < at && !local_char_ok(#[trigger] v@[i]);
                assert(local[i] == v@[i]);
            }
        }
        assert(ok_host == forall|i: int| 0 <= i < host.len() ==> domain_char_ok(#[trigger] host[i])) by {
            if ok_host {
                assert forall|i: int| 0 <= i < host.len() implies domain_char_ok(#[trigger] host[i]) by {
                    assert(host[i] == v@[at + 1 + i]);
                }
            } else {
                let i = choose|i: int| at + 1 <= i < dot && !domain_char_ok(#[trigger] v@[i]);
                assert(host[i - at - 1] == v@[i]);
            }
        }
        assert(ok_tld == forall|i: int| 0 <= i < tld.len() ==> is_ascii_alphabetic(#[trigger] tld[i])) by {
            if ok_tld {
                assert forall|i: int| 0 <= i < tld.len() implies is_ascii_alphabetic(#[trigger] tld[i]) by {
                    assert(tld[i] == v@[dot + 1 + i]);
                }
            } else {
                let i = choose|i: int| dot + 1 <= i < n && !is_ascii_alphabetic(#[trigger] v@[i]);
                assert(tld[i - dot - 1] == v@[i]);
            }
        }
    }
    ok_local && ok_host && ok_tld
}

/// Every user is stored under its own ID.
pub open spec fn users_keyed_by_id(t: UserTable) -> bool {
    forall|id: u128| #[trigger] t.contains_key(id) ==> t[id].id == id
}

/// Result of a successful registration or login.
#[derive(Debug)]
pub struct AuthResult {
    pub user_id: u128,
    pub email: String,
    pub nickname: String,
    /// The signed session cookie value to set via `Set-Cookie`.
    pub signed_cookie_value: String,
    /// Cookie Max-Age in seconds.
    pub cookie_max_age: u64,
    /// The raw session ID (for server-side deletion on logout).
    pub session_id: String,
}

/// A fresh user ID (`uuid::Uuid::new_v4`, as a `u128`). It is random, so
/// nothing is stated of it.
#[verifier::external_body]
fn new_user_id() -> (r: u128) {
    uuid::Uuid::new_v4().as_u128()
}

/// A chrono duration of `ttl` seconds after `ttl as i64`: values above
/// `i64::MAX` wrap to negative numbers.
pub open spec fn ttl_delta_secs(ttl: u64) -> int {
    if ttl <= i64::MAX {
        ttl as int
    } else {
        ttl - 0x1_0000_0000_0000_0000
    }
}

/// Whether a session with lifetime `ttl` created at `now` can be stamped:
/// `chrono` panics for a duration beyond its bounds or an expiry it cannot
/// represent.
pub open spec fn session_time_ok(ttl: u64, now: int) -> bool {
    let d = ttl_delta_secs(ttl);
    &&& -MAX_DELTA_SECS <= d <= MAX_DELTA_SECS
    &&& representable(now + d * 1000)
}

/// When a session with lifetime `ttl` created at `now` expires.
pub open spec fn expiry(ttl: u64, now: int) -> int {
    now + ttl_delta_secs(ttl) * 1000
}

/// The session lifetime chosen by `remember_me`.
pub open spec fn session_ttl(c: Config, remember_me: bool) -> u64 {
    if remember_me {
        c.session_ttl_long
    } else {
        c.session_ttl_short
    }
}

/// `ttl as i64`, without relying on a truncating cast.
fn ttl_delta(ttl: u64) -> (r: i64)
    ensures
        r == ttl_delta_secs(ttl),
{
    if ttl <= 0x7fff_ffff_ffff_ffff {
        ttl as i64
    } else {
        -((0xffff_ffff_ffff_ffff - ttl) as i64) - 1
    }
}

/// Whether a session with lifetime `ttl` created at `now` can be stamped.
fn session_time_within(ttl: u64, now: i64) -> (r: bool)
    ensures
        r == session_time_ok(ttl, now as int),
{
    let d = ttl_delta(ttl);
    if d < -MAX_DELTA_SECS || d > MAX_DELTA_SECS {
        return false;
    }
    let t = now as i128 + d as i128 * 1000;
    MIN_TIMESTAMP_MS as i128 <= t && t <= MAX_TIMESTAMP_MS as i128
}

/// Whether a failure for `key` at `now` would set a lockout whose end
/// `chrono` cannot represent.
pub open spec fn lockout_overflows(t: FailureTable, key: Seq<char>, now: int, max_failures: u32, lockout_ms: int) -> bool {
    record_fail_locks(t, key, now, max_failures) && now + lockout_ms > MAX_TIMESTAMP_MS
}

/// The hash a bcrypt call produced, or `None` for an error.
pub open spec fn hash_view(h: Result<String, bcrypt::BcryptError>) -> Option<Seq<char>> {
    match h {
        Ok(s) => Some(s@),
        Err(_) => None,
    }
}

/// The characters of an optional string slice.
pub open spec fn opt_str_view(o: Option<&str>) -> Option<Seq<char>> {
    match o {
        Some(s) => Some(s@),
        None => None,
    }
}

/// The nickname registration stores: the trimmed request value, or the
/// prefix of the (lowercased) email when none is given or it is blank.
pub open spec fn chosen_nickname(n: Option<Seq<char>>, email: Seq<char>) -> Result<Seq<char>, ProfileError> {
    match n {
        None => Ok(email_prefix(email)),
        Some(s) => {
            let t = trim_seq(s);
            if t.len() == 0 {
                Ok(email_prefix(email))
            } else {
                match nickname_check(t) {
                    Ok(_) => Ok(t),
                    Err(e) => Err(e),
                }
            }
        },
    }
}

/// Why a registration is refused before any hashing.
pub enum RegisterRejection {
    IpRateLimited,
    InvalidEmail,
    WeakPassword,
    InvalidNickname(ProfileError),
    EmailAlreadyExists,
}

/// The outcome of a login attempt, as far as the inputs and the stored state
/// decide it.
pub enum LoginOutcome {
    IpRateLimited,
    Locked,
    UnknownEmail,
    WrongPassword,
    VerifyFailed,
    Success(User),
}

/// A profile update: the new nickname, phone and avatar.
pub type ProfileValues = (Seq<char>, Option<Seq<char>>, Option<Seq<char>>);

/// The values a profile update stores, or the first invalid field (nickname,
/// then phone, then avatar). An absent field keeps its value; a blank
/// nickname resets to the email prefix; an empty phone or avatar clears it.
pub open spec fn profile_update(
    u: User,
    nickname: Option<Seq<char>>,
    phone: Option<Seq<char>>,
    avatar: Option<Seq<char>>,
) -> Result<ProfileValues, ProfileError> {
    let nk: Result<Seq<char>, ProfileError> = match nickname {
        None => Ok(u.nickname@),
        Some(s) => {
            let t = trim_seq(s);
            if t.len() == 0 {
                Ok(email_prefix(u.email@))
            } else {
                match nickname_check(t) {
                    Ok(_) => Ok(t),
                    Err(e) => Err(e),
                }
            }
        },
    };
    let ph: Result<Option<Seq<char>>, ProfileError> = match phone {
        None => Ok(opt_view(u.phone)),
        Some(s) => phone_normalization(s),
    };
    let av: Result<Option<Seq<char>>, ProfileError> = match avatar {
        None => Ok(opt_view(u.avatar)),
        Some(s) => avatar_normalization(s),
    };
    match nk {
        Err(e) => Err(e),
        Ok(n) => match ph {
            Err(e) => Err(e),
            Ok(p) => match av {
                Err(e) => Err(e),
                Ok(a) => Ok((n, p, a)),
            },
        },
    }
}

/// The error a registration rejection is reported with.
pub open spec fn rejection_error(r: Result<AuthResult, AuthError>, rej: RegisterRejection) -> bool {
    match rej {
        RegisterRejection::IpRateLimited => r matches Err(AuthError::IpRateLimited),
        RegisterRejection::InvalidEmail => r matches Err(AuthError::InvalidEmail),
        RegisterRejection::WeakPassword => r matches Err(AuthError::WeakPassword),
        RegisterRejection::InvalidNickname(e) => r matches Err(AuthError::InvalidField(m)) && m@
            == profile_error_message(e),
        RegisterRejection::EmailAlreadyExists => r matches Err(AuthError::EmailAlreadyExists),
    }
}

/// The authentication service: users, sessions, login failures, per-IP
/// limits for registration and login, and the configuration.
pub struct AuthService<U: UserRepository, S: SessionRepository> {
    user_repo: U,
    session_repo: S,
    rate_limiter: RateLimiter,
    register_ip_limiter: IpRateLimiter,
    login_ip_limiter: IpRateLimiter,
    config: Config,
}

impl<U: UserRepository, S: SessionRepository> AuthService<U, S> {
    pub closed spec fn users(&self) -> UserTable {
        self.user_repo.users()
    }

    pub closed spec fn email_index(&self) -> EmailIndex {
        self.user_repo.email_index()
    }

    pub closed spec fn sessions(&self) -> SessionTable {
        self.session_repo.sessions()
    }

    pub closed spec fn failures(&self) -> FailureTable {
        self.rate_limiter.table()
    }

    pub closed spec fn max_failures(&self) -> u32 {
        self.rate_limiter.max_failures()
    }

    pub closed spec fn lockout_ms(&self) -> int {
        self.rate_limiter.lockout_ms()
    }

    pub closed spec fn register_windows(&self) -> WindowTable {
        self.register_ip_limiter.table()
    }

    pub closed spec fn register_ip_max(&self) -> u32 {
        self.register_ip_limiter.max_per_minute()
    }

    pub closed spec fn login_windows(&self) -> WindowTable {
        self.login_ip_limiter.table()
    }

    pub closed spec fn login_ip_max(&self) -> u32 {
        self.login_ip_limiter.max_per_minute()
    }

    pub closed spec fn config(&self) -> Config {
        self.config
    }

    /// Whether the user store may fail to insert for reasons of its own.
    pub closed spec fn storage_may_fail(&self) -> bool {
        self.user_repo.storage_may_fail()
    }

    /// Every component is consistent.
    pub closed spec fn wf(&self) -> bool {
        &&& users_keyed_by_id(self.user_repo.users())
        &&& self.user_repo.wf()
        &&& self.session_repo.wf()
        &&& self.rate_limiter.wf()
        &&& self.register_ip_limiter.wf()
        &&& self.login_ip_limiter.wf()
    }

    /// The stored users and the email index are the same in both states.
    pub open spec fn same_users(&self, other: &Self) -> bool {
        self.users() == other.users() && self.email_index() == other.email_index()
    }

    /// The limits, their parameters and the configuration are the same.
    pub open spec fn same_settings(&self, other: &Self) -> bool {
        &&& self.max_failures() == other.max_failures()
        &&& self.lockout_ms() == other.lockout_ms()
        &&& self.register_ip_max() == other.register_ip_max()
        &&& self.login_ip_max() == other.login_ip_max()
        &&& self.config() == other.config()
    }

    /// The failure table and both window tables are the same.
    pub open spec fn same_limits(&self, other: &Self) -> bool {
        &&& self.failures() == other.failures()
        &&& self.register_windows() == other.register_windows()
        &&& self.login_windows() == other.login_windows()
    }

    /// `after` is `before` with one new session for the user, reported in `r`.
    pub open spec fn session_created(
        before: &Self,
        after: &Self,
        r: AuthResult,
        user_id: u128,
        email: Seq<char>,
        nickname: Seq<char>,
        remember_me: bool,
        now: int,
    ) -> bool {
        let ttl = session_ttl(before.config(), remember_me);
        &&& session_time_ok(ttl, now)
        &&& is_session_id(r.session_id@)
        &&& after.sessions() == before.sessions().insert(
            r.session_id@,
            Session {
                id: r.session_id,
                user_id,
                expires_at: expiry(ttl, now) as i64,
                created_at: now as i64,
            },
        )
        &&& r.user_id == user_id
        &&& r.email@ == email
        &&& r.nickname@ == nickname
        &&& r.cookie_max_age == ttl
        &&& r.signed_cookie_value@ == signed_value(r.session_id@, before.config().session_secret@)
    }

    /// What storing a new user does, given the hash (`None` when hashing
    /// failed) and the new ID: a hashing error is `Internal`; an email taken
    /// meanwhile is `EmailAlreadyExists`; otherwise the user is stored with
    /// that hash and signed in. `Internal` after hashing comes only from a
    /// store that may fail. Apart from success, the users and sessions stay
    /// as they were.
    pub open spec fn store_post(
        before: &Self,
        after: &Self,
        r: Result<AuthResult, AuthError>,
        email: Seq<char>,
        nickname: Seq<char>,
        hashed: Option<Seq<char>>,
        id: u128,
        now: int,
    ) -> bool {
        let key = spec_to_lowercase(email);
        let unchanged = after.same_users(before) && after.sessions() == before.sessions();
        match hashed {
            None => r matches Err(AuthError::Internal) && unchanged,
            Some(h) => match r {
                Ok(res) => {
                    let u = after.users()[id];
                    &&& !before.email_index().contains_key(key)
                    &&& after.users() == before.users().insert(id, u)
                    &&& after.email_index() == before.email_index().insert(key, id)
                    &&& u.id == id
                    &&& u.email@ == email
                    &&& u.password_hash@ == h
                    &&& u.nickname@ == nickname
                    &&& u.phone is None
                    &&& u.avatar is None
                    &&& u.created_at == now
                    &&& u.updated_at == now
                    &&& Self::session_created(before, after, res, id, email, nickname, false, now)
                },
                Err(AuthError::EmailAlreadyExists) => before.email_index().contains_key(key) && unchanged,
                Err(AuthError::Internal) => before.storage_may_fail() && unchanged,
                Err(_) => false,
            },
        }
    }

    /// Why `register` refuses before hashing, if it does.
    pub open spec fn register_rejection(
        &self,
        ip: Seq<char>,
        email: Seq<char>,
        password: Seq<char>,
        nickname: Option<Seq<char>>,
        now: int,
    ) -> Option<RegisterRejection> {
        let normalized = spec_to_lowercase(email);
        if !ip_step(self.register_windows(), ip, now, self.register_ip_max()).0 {
            Some(RegisterRejection::IpRateLimited)
        } else if !email_is_valid(email) {
            Some(RegisterRejection::InvalidEmail)
        } else if !password_is_strong(password) {
            Some(RegisterRejection::WeakPassword)
        } else if chosen_nickname(nickname, normalized) is Err {
            Some(RegisterRejection::InvalidNickname(chosen_nickname(nickname, normalized)->Err_0))
        } else if lookup_email(self.users(), self.email_index(), normalized) is Some {
            Some(RegisterRejection::EmailAlreadyExists)
        } else {
            None
        }
    }

    /// What a registration at `now` does, given its result `r`.
    pub open spec fn register_post(
        before: &Self,
        after: &Self,
        r: Result<AuthResult, AuthError>,
        ip: Seq<char>,
        email: Seq<char>,
        password: Seq<char>,
        nickname: Option<Seq<char>>,
        now: int,
    ) -> bool {
        let normalized = spec_to_lowercase(email);
        &&& after.same_settings(before)
        &&& after.register_windows() == ip_step(before.register_windows(), ip, now, before.register_ip_max()).1
        &&& after.failures() == before.failures()
        &&& after.login_windows() == before.login_windows()
        &&& match before.register_rejection(ip, email, password, nickname, now) {
            Some(rej) => {
                &&& rejection_error(r, rej)
                &&& after.same_users(before)
                &&& after.sessions() == before.sessions()
            },
            None => if !session_time_ok(before.config().session_ttl_short, now) {
                r matches Err(AuthError::Internal) && after.same_users(before) && after.sessions()
                    == before.sessions()
            } else {
                exists|hashed: Option<Seq<char>>, id: u128|
                    #[trigger] Self::store_post(
                        before,
                        after,
                        r,
                        normalized,
                        chosen_nickname(nickname, normalized)->Ok_0,
                        hashed,
                        id,
                        now,
                    ) && (hashed matches Some(h) ==> spec_bcrypt_verify(password, h) == Some(true)
                        && hash_has_cost(h, before.config().bcrypt_cost))
            },
        }
    }

    /// How a login attempt at `now` turns out.
    pub open spec fn login_outcome(
        &self,
        ip: Seq<char>,
        email: Seq<char>,
        password: Seq<char>,
        now: int,
    ) -> LoginOutcome {
        let normalized = spec_to_lowercase(email);
        if !ip_step(self.login_windows(), ip, now, self.login_ip_max()).0 {
            LoginOutcome::IpRateLimited
        } else if check_step(self.failures(), spec_to_lowercase(normalized), now).0 is Locked {
            LoginOutcome::Locked
        } else {
            match lookup_email(self.users(), self.email_index(), normalized) {
                None => LoginOutcome::UnknownEmail,
                Some(u) => match spec_bcrypt_verify(password, u.password_hash@) {
                    None => LoginOutcome::VerifyFailed,
                    Some(false) => LoginOutcome::WrongPassword,
                    Some(true) => LoginOutcome::Success(u),
                },
            }
        }
    }

    /// The failure table after a login attempt. A failure that would set a
    /// lockout ending beyond the representable times is not recorded, and a success
    /// whose session could not be stamped keeps the record.
    pub open spec fn login_failures(
        &self,
        ip: Seq<char>,
        email: Seq<char>,
        password: Seq<char>,
        remember_me: bool,
        now: int,
    ) -> FailureTable {
        let key = spec_to_lowercase(spec_to_lowercase(email));
        let checked = check_step(self.failures(), key, now).1;
        let recorded = if lockout_overflows(checked, key, now, self.max_failures(), self.lockout_ms()) {
            checked
        } else {
            record_fail_step(checked, key, now, self.max_failures(), self.lockout_ms())
        };
        match self.login_outcome(ip, email, password, now) {
            LoginOutcome::IpRateLimited => self.failures(),
            LoginOutcome::Locked => checked,
            LoginOutcome::UnknownEmail => recorded,
            LoginOutcome::WrongPassword => recorded,
            LoginOutcome::VerifyFailed => checked,
            LoginOutcome::Success(_) => if session_time_ok(session_ttl(self.config(), remember_me), now) {
                checked.remove(key)
            } else {
                checked
            },
        }
    }

    /// What a login at `now` does, given its result `r`.
    pub open spec fn login_post(
        before: &Self,
        after: &Self,
        r: Result<AuthResult, AuthError>,
        ip: Seq<char>,
        email: Seq<char>,
        password: Seq<char>,
        remember_me: bool,
        now: int,
    ) -> bool {
        &&& after.same_settings(before)
        &&& after.same_users(before)
        &&& after.login_windows() == ip_step(before.login_windows(), ip, now, before.login_ip_max()).1
        &&& after.register_windows() == before.register_windows()
        &&& after.failures() == before.login_failures(ip, email, password, remember_me, now)
        &&& match before.login_outcome(ip, email, password, now) {
            LoginOutcome::IpRateLimited => r matches Err(AuthError::IpRateLimited) && after.sessions()
                == before.sessions(),
            LoginOutcome::Locked => r matches Err(AuthError::TooManyAttempts) && after.sessions()
                == before.sessions(),
            LoginOutcome::UnknownEmail | LoginOutcome::WrongPassword => after.sessions() == before.sessions()
                && if lockout_overflows(
                check_step(before.failures(), spec_to_lowercase(spec_to_lowercase(email)), now).1,
                spec_to_lowercase(spec_to_lowercase(email)),
                now,
                before.max_failures(),
                before.lockout_ms(),
            ) {
                r matches Err(AuthError::Internal)
            } else {
                r matches Err(AuthError::InvalidCredentials)
            },
            LoginOutcome::VerifyFailed => r matches Err(AuthError::Internal) && after.sessions()
                == before.sessions(),
            LoginOutcome::Success(u) => if session_time_ok(session_ttl(before.config(), remember_me), now) {
                r matches Ok(res) && Self::session_created(
                    before,
                    after,
                    res,
                    u.id,
                    u.email@,
                    u.nickname@,
                    remember_me,
                    now,
                )
            } else {
                r matches Err(AuthError::Internal) && after.sessions() == before.sessions()
            },
        }
    }

    /// What a session lookup at `now` does, given its result `r`.
    pub open spec fn lookup_post(
        before: &Self,
        after: &Self,
        r: Result<(u128, String), AuthError>,
        session_id: Seq<char>,
        now: int,
    ) -> bool {
        let (found, table) = find_step(before.sessions(), session_id, now);
        &&& after.same_settings(before)
        &&& after.same_users(before)
        &&& after.same_limits(before)
        &&& after.sessions() == table
        &&& match found {
            None => r matches Err(AuthError::Unauthenticated),
            Some(s) => match lookup_id(before.users(), s.user_id) {
                None => r matches Err(AuthError::Unauthenticated),
                Some(u) => r == Ok::<(u128, String), AuthError>((u.id, u.email)),
            },
        }
    }

    pub fn new(
        user_repo: U,
        session_repo: S,
        rate_limiter: RateLimiter,
        register_ip_limiter: IpRateLimiter,
        login_ip_limiter: IpRateLimiter,
        config: Config,
    ) -> (r: Self)
        requires
            users_keyed_by_id(user_repo.users()),
            user_repo.wf(),
            session_repo.wf(),
            rate_limiter.wf(),
            register_ip_limiter.wf(),
            login_ip_limiter.wf(),
        ensures
            r.wf(),
            r.users() == user_repo.users(),
            r.email_index() == user_repo.email_index(),
            r.sessions() == session_repo.sessions(),
            r.failures() == rate_limiter.table(),
            r.max_failures() == rate_limiter.max_failures(),
            r.lockout_ms() == rate_limiter.lockout_ms(),
            r.register_windows() == register_ip_limiter.table(),
            r.register_ip_max() == register_ip_limiter.max_per_minute(),
            r.login_windows() == login_ip_limiter.table(),
            r.login_ip_max() == login_ip_limiter.max_per_minute(),
            r.config() == config,
            r.storage_may_fail() == user_repo.storage_may_fail(),
    {
        AuthService { user_repo, session_repo, rate_limiter, register_ip_limiter, login_ip_limiter, config }
    }

    /// The session signing secret (for cookie HMAC verification).
    pub fn session_secret(&self) -> (r: &str)
        ensures
            r@ == self.config().session_secret@,
    {
        self.config.session_secret.as_str()
    }

    /// Whether the Secure flag should be set on cookies.
    pub fn cookie_secure(&self) -> (r: bool)
        ensures
            r == self.config().cookie_secure,
    {
        self.config.cookie_secure
    }

    /// Create a session for a user and produce the signed cookie value.
    fn create_session(
        &mut self,
        user_id: u128,
        email: &str,
        nickname: &str,
        remember_me: bool,
        now: i64,
    ) -> (r: AuthResult)
        requires
            old(self).wf(),
            session_time_ok(session_ttl(old(self).config(), remember_me), now as int),
        ensures
            final(self).wf(),
            final(self).same_settings(old(self)),
            final(self).same_users(old(self)),
            final(self).same_limits(old(self)),
            final(self).storage_may_fail() == old(self).storage_may_fail(),
            Self::session_created(old(self), final(self), r, user_id, email@, nickname@, remember_me, now as int),
    {
        let ttl_secs = if remember_me {
            self.config.session_ttl_long
        } else {
            self.config.session_ttl_short
        };
        let session_id = generate_session_id();
        let expires_at = now + ttl_delta(ttl_secs) * 1000;
        let session = Session { id: session_id.clone(), user_id, expires_at, created_at: now };
        self.session_repo.insert(session);
        let signed_value = sign(session_id.as_str(), self.config.session_secret.as_str());
        AuthResult {
            user_id,
            email: String::from_str(email),
            nickname: String::from_str(nickname),
            signed_cookie_value: signed_value,
            cookie_max_age: ttl_secs,
            session_id,
        }
    }

    /// Store a new user with the given hash result and ID, and sign it in
    /// with a short-lived session.
    pub fn store_registration(
        &mut self,
        email: String,
        nickname: String,
        hash: Result<String, bcrypt::BcryptError>,
        id: u128,
        now: i64,
    ) -> (r: Result<AuthResult, AuthError>)
        requires
            old(self).wf(),
            session_time_ok(old(self).config().session_ttl_short, now as int),
        ensures
            final(self).wf(),
            final(self).same_settings(old(self)),
            final(self).same_limits(old(self)),
            final(self).storage_may_fail() == old(self).storage_may_fail(),
            Self::store_post(old(self), final(self), r, email@, nickname@, hash_view(hash), id, now as int),
    {
        let password_hash = match hash {
            Ok(h) => h,
            Err(_) => return Err(AuthError::Internal),
        };
        let user = User {
            id,
            email: email.clone(),
            password_hash,
            nickname: nickname.clone(),
            phone: None,
            avatar: None,
            created_at: now,
            updated_at: now,
        };
        match self.user_repo.insert(user) {
            Ok(_) => {},
            Err(RepoError::EmailAlreadyExists) => return Err(AuthError::EmailAlreadyExists),
            Err(RepoError::Internal) => return Err(AuthError::Internal),
        }
        let result = self.create_session(id, email.as_str(), nickname.as_str(), false, now);
        Ok(result)
    }

    /// Register a new user at time `now` and create a session for it (the
    /// short lifetime: registration involves no "remember me" choice).
    ///
    /// In order: the per-IP registration limit, the email format, the
    /// password policy, the nickname, and uniqueness of the lowercased email;
    /// then the password is hashed at the configured cost and the user stored
    /// with the lowercased email (see `store_registration`). A session
    /// lifetime whose expiry cannot be represented is `Internal`.
    pub fn register_at(
        &mut self,
        ip: &str,
        email: &str,
        password: &str,
        nickname: Option<&str>,
        now: i64,
    ) -> (r: Result<AuthResult, AuthError>)
        requires
            old(self).wf(),
            representable(now as int),
        ensures
            final(self).wf(),
            Self::register_post(old(self), final(self), r, ip@, email@, password@, opt_str_view(nickname), now as int),
    {
        if !self.register_ip_limiter.check(ip, now) {
            return Err(AuthError::IpRateLimited);
        }
        if !is_valid_email(email) {
            return Err(AuthError::InvalidEmail);
        }
        if validate_password(password).is_err() {
            return Err(AuthError::WeakPassword);
        }
        let normalized_email = to_lowercase(email);
        let nick = match nickname {
            None => default_nickname(normalized_email.as_str()),
            Some(n) => {
                let t = trim(n);
                if t.as_str().is_empty() {
                    default_nickname(normalized_email.as_str())
                } else {
                    match validate_nickname(t.as_str()) {
                        Ok(()) => t,
                        Err(e) => return Err(AuthError::InvalidField(e.message())),
                    }
                }
            },
        };
        if self.user_repo.find_by_email(normalized_email.as_str()).is_some() {
            return Err(AuthError::EmailAlreadyExists);
        }
        if !session_time_within(self.config.session_ttl_short, now) {
            return Err(AuthError::Internal);
        }
        let hash = hash_password(password, self.config.bcrypt_cost);
        let id = new_user_id();
        let ghost mid = *self;
        let ghost hashed = hash_view(hash);
        let r = self.store_registration(normalized_email, nick, hash, id, now);
        proof {
            let normalized = spec_to_lowercase(email@);
            let nick_v = chosen_nickname(opt_str_view(nickname), normalized)->Ok_0;
            assert(Self::store_post(&mid, self, r, normalized, nick_v, hashed, id, now as int));
            assert(Self::store_post(old(self), self, r, normalized, nick_v, hashed, id, now as int));
        }
        r
    }

    /// Register at the current time (see `register_at`).
    pub fn register(
        &mut self,
        ip: &str,
        email: &str,
        password: &str,
        nickname: Option<&str>,
    ) -> (r: Result<AuthResult, AuthError>)
        requires
            old(self).wf(),
        ensures
            final(self).wf(),
            exists|now: i64| 0 <= now <= MAX_TIMESTAMP_MS && #[trigger] Self::register_post(old(self), final(self), r, ip@, email@, password@, opt_str_view(nickname), now as int),
    {
        let now = now_millis();
        self.register_at(ip, email, password, nickname, now)
    }

    /// Authenticate a user at time `now` and create a session.
    ///
    /// The per-IP login limit comes first, then the email's lockout (before
    /// any bcrypt work). A missing email and a wrong password are recorded
    /// and reported identically, so that the response does not reveal which
    /// emails exist. Success resets the email's failure count. A failure that
    /// would set a lockout ending beyond the representable times, or a
    /// success whose session expiry cannot be represented, is `Internal`.
    pub fn login_at(
        &mut self,
        ip: &str,
        email: &str,
        password: &str,
        remember_me: bool,
        now: i64,
    ) -> (r: Result<AuthResult, AuthError>)
        requires
            old(self).wf(),
            representable(now as int),
        ensures
            final(self).wf(),
            Self::login_post(old(self), final(self), r, ip@, email@, password@, remember_me, now as int),
    {
        if !self.login_ip_limiter.check(ip, now) {
            return Err(AuthError::IpRateLimited);
        }
        let normalized_email = to_lowercase(email);
        match self.rate_limiter.check(normalized_email.as_str(), now) {
            RateLimitStatus::Locked(_) => {
                return Err(AuthError::TooManyAttempts);
            },
            RateLimitStatus::Allowed => {},
        }
        let user = match self.user_repo.find_by_email(normalized_email.as_str()) {
            Some(u) => u,
            None => {
                if self.rate_limiter.would_lock(normalized_email.as_str(), now)
                    && now > MAX_TIMESTAMP_MS - self.rate_limiter.lockout() {
                    return Err(AuthError::Internal);
                }
                self.rate_limiter.record_fail(normalized_email.as_str(), now);
                return Err(AuthError::InvalidCredentials);
            },
        };
        let verified = match verify_password(password, user.password_hash.as_str()) {
            Ok(b) => b,
            Err(_) => return Err(AuthError::Internal),
        };
        if !verified {
            if self.rate_limiter.would_lock(normalized_email.as_str(), now)
                && now > MAX_TIMESTAMP_MS - self.rate_limiter.lockout() {
                return Err(AuthError::Internal);
            }
            self.rate_limiter.record_fail(normalized_email.as_str(), now);
            return Err(AuthError::InvalidCredentials);
        }
        let ttl = if remember_me {
            self.config.session_ttl_long
        } else {
            self.config.session_ttl_short
        };
        if !session_time_within(ttl, now) {
            return Err(AuthError::Internal);
        }
        self.rate_limiter.reset(normalized_email.as_str());
        let result = self.create_session(user.id, user.email.as_str(), user.nickname.as_str(), remember_me, now);
        Ok(result)
    }

    /// Log in at the current time (see `login_at`).
    pub fn login(
        &mut self,
        ip: &str,
        email: &str,
        password: &str,
        remember_me: bool,
    ) -> (r: Result<AuthResult, AuthError>)
        requires
            old(self).wf(),
        ensures
            final(self).wf(),
            exists|now: i64| 0 <= now <= MAX_TIMESTAMP_MS && #[trigger] Self::login_post(old(self), final(self), r, ip@, email@, password@, remember_me, now as int),
    {
        let now = now_millis();
        self.login_at(ip, email, password, remember_me, now)
    }

    /// Log out by deleting the session from the store: `Ok` if the session
    /// existed, `Unauthenticated` otherwise.
    pub fn logout(&mut self, session_id: &str) -> (r: Result<(), AuthError>)
        requires
            old(self).wf(),
        ensures
            final(self).wf(),
            final(self).same_settings(old(self)),
            final(self).same_users(old(self)),
            final(self).same_limits(old(self)),
            final(self).sessions() == old(self).sessions().remove(session_id@),
            r is Ok <==> old(self).sessions().contains_key(session_id@),
            r is Err ==> r matches Err(AuthError::Unauthenticated),
    {
        let deleted = self.session_repo.delete(session_id);
        if deleted {
            Ok(())
        } else {
            Err(AuthError::Unauthenticated)
        }
    }

    /// The user ID and email of the session's user at time `now`. A missing
    /// or expired session, or a session whose user is gone, is
    /// `Unauthenticated`; an expired session is deleted.
    pub fn get_user_by_session_at(&mut self, session_id: &str, now: i64) -> (r: Result<(u128, String), AuthError>)
        requires
            old(self).wf(),
        ensures
            final(self).wf(),
            Self::lookup_post(old(self), final(self), r, session_id@, now as int),
    {
        let session = match self.session_repo.find_by_id(session_id, now) {
            Some(s) => s,
            None => return Err(AuthError::Unauthenticated),
        };
        let user = match self.user_repo.find_by_id(session.user_id) {
            Some(u) => u,
            None => return Err(AuthError::Unauthenticated),
        };
        Ok((user.id, user.email))
    }

    /// The session's user at the current time (see `get_user_by_session_at`).
    pub fn get_user_by_session(&mut self, session_id: &str) -> (r: Result<(u128, String), AuthError>)
        requires
            old(self).wf(),
        ensures
            final(self).wf(),
            exists|now: i64| 0 <= now <= MAX_TIMESTAMP_MS && #[trigger] Self::lookup_post(old(self), final(self), r, session_id@, now as int),
    {
        let now = now_millis();
        self.get_user_by_session_at(session_id, now)
    }

    /// Look up a user's email by their user ID.
    pub fn get_email_by_user_id(&self, user_id: u128) -> (r: Option<String>)
        requires
            self.wf(),
        ensures
            match lookup_id(self.users(), user_id) {
                Some(u) => r == Some(u.email),
                None => r is None,
            },
    {
        match self.user_repo.find_by_id(user_id) {
            Some(u) => Some(u.email),
            None => None,
        }
    }

    /// Look up a user by ID.
    pub fn get_user(&self, user_id: u128) -> (r: Option<User>)
        requires
            self.wf(),
        ensures
            r == lookup_id(self.users(), user_id),
    {
        self.user_repo.find_by_id(user_id)
    }

    /// Update nickname / phone / avatar. An absent field is unchanged; a
    /// blank nickname resets it to the email prefix; an empty phone or avatar
    /// clears it. An invalid field rejects the whole request, with nothing
    /// applied. The update time is the current time.
    pub fn update_profile(
        &mut self,
        user_id: u128,
        nickname: Option<String>,
        phone: Option<String>,
        avatar: Option<String>,
    ) -> (r: Result<User, AuthError>)
        requires
            old(self).wf(),
        ensures
            final(self).wf(),
            final(self).same_settings(old(self)),
            final(self).same_limits(old(self)),
            final(self).sessions() == old(self).sessions(),
            final(self).email_index() == old(self).email_index(),
            match lookup_id(old(self).users(), user_id) {
                None => r matches Err(AuthError::Unauthenticated) && final(self).users() == old(self).users(),
                Some(u) => match profile_update(u, opt_view(nickname), opt_view(phone), opt_view(avatar)) {
                    Err(e) => r matches Err(AuthError::InvalidField(m)) && m@ == profile_error_message(e)
                        && final(self).users() == old(self).users(),
                    Ok(vals) => r matches Ok(nu) && {
                        &&& nu.id == u.id
                        &&& nu.email == u.email
                        &&& nu.password_hash == u.password_hash
                        &&& nu.created_at == u.created_at
                        &&& 0 <= nu.updated_at <= MAX_TIMESTAMP_MS
                        &&& nu.nickname@ == vals.0
                        &&& opt_view(nu.phone) == vals.1
                        &&& opt_view(nu.avatar) == vals.2
                        &&& final(self).users() == old(self).users().insert(user_id, nu)
                    },
                },
            },
    {
        let user = match self.user_repo.find_by_id(user_id) {
            Some(u) => u,
            None => return Err(AuthError::Unauthenticated),
        };
        let new_nickname = match nickname {
            None => user.nickname.clone(),
            Some(n) => {
                let t = trim(n.as_str());
                if t.as_str().is_empty() {
                    default_nickname(user.email.as_str())
                } else {
                    match validate_nickname(t.as_str()) {
                        Ok(()) => t,
                        Err(e) => return Err(AuthError::InvalidField(e.message())),
                    }
                }
            },
        };
        let new_phone = match phone {
            None => clone_opt_string(&user.phone),
            Some(p) => match normalize_phone(p.as_str()) {
                Ok(v) => v,
                Err(e) => return Err(AuthError::InvalidField(e.message())),
            },
        };
        let new_avatar = match avatar {
            None => clone_opt_string(&user.avatar),
            Some(a) => match normalize_avatar(a.as_str()) {
                Ok(v) => v,
                Err(e) => return Err(AuthError::InvalidField(e.message())),
            },
        };
        let now = now_millis();
        match self.user_repo.update_profile(user_id, new_nickname, new_phone, new_avatar, now) {
            Some(u) => Ok(u),
            None => Err(AuthError::Unauthenticated),
        }
    }

    /// Store a new password hash for a user, stamped `now`: a hashing error
    /// is `Internal`, an unknown user `Unauthenticated`.
    pub fn store_password(
        &mut self,
        user_id: u128,
        hash: Result<String, bcrypt::BcryptError>,
        now: i64,
    ) -> (r: Result<(), AuthError>)
        requires
            old(self).wf(),
        ensures
            final(self).wf(),
            final(self).same_settings(old(self)),
            final(self).same_limits(old(self)),
            final(self).sessions() == old(self).sessions(),
            final(self).email_index() == old(self).email_index(),
            final(self).storage_may_fail() == old(self).storage_may_fail(),
            match hash {
                Err(_) => r matches Err(AuthError::Internal) && final(self).users() == old(self).users(),
                Ok(h) => if old(self).users().contains_key(user_id) {
                    r is Ok && final(self).users() == old(self).users().insert(
                        user_id,
                        with_password(old(self).users()[user_id], h, now),
                    )
                } else {
                    r matches Err(AuthError::Unauthenticated) && final(self).users() == old(self).users()
                },
            },
    {
        let new_hash = match hash {
            Ok(h) => h,
            Err(_) => return Err(AuthError::Internal),
        };
        if self.user_repo.update_password(user_id, new_hash, now) {
            Ok(())
        } else {
            Err(AuthError::Unauthenticated)
        }
    }

    /// Change a user's password: the old password must verify, and the new
    /// one must meet the policy; it is hashed at the configured cost and
    /// stored (see `store_password`). Existing sessions stay valid. The update
    /// time is the current time.
    pub fn change_password(
        &mut self,
        user_id: u128,
        old_password: &str,
        new_password: &str,
    ) -> (r: Result<(), AuthError>)
        requires
            old(self).wf(),
        ensures
            final(self).wf(),
            final(self).same_settings(old(self)),
            final(self).same_limits(old(self)),
            final(self).sessions() == old(self).sessions(),
            final(self).email_index() == old(self).email_index(),
            match lookup_id(old(self).users(), user_id) {
                None => r matches Err(AuthError::Unauthenticated) && final(self).users() == old(self).users(),
                Some(u) => match spec_bcrypt_verify(old_password@, u.password_hash@) {
                    None => r matches Err(AuthError::Internal) && final(self).users() == old(self).users(),
                    Some(false) => r matches Err(AuthError::InvalidOldPassword) && final(self).users()
                        == old(self).users(),
                    Some(true) => if !password_is_strong(new_password@) {
                        r matches Err(AuthError::WeakPassword) && final(self).users() == old(self).users()
                    } else {
                        match r {
                            Ok(_) => {
                                let nu = final(self).users()[user_id];
                                &&& final(self).users() == old(self).users().insert(user_id, nu)
                                &&& spec_bcrypt_verify(new_password@, nu.password_hash@) == Some(true)
                                &&& hash_has_cost(nu.password_hash@, old(self).config().bcrypt_cost)
                                &&& nu.id == u.id
                                &&& nu.email == u.email
                                &&& nu.nickname == u.nickname
                                &&& nu.phone == u.phone
                                &&& nu.avatar == u.avatar
                                &&& nu.created_at == u.created_at
                                &&& 0 <= nu.updated_at <= MAX_TIMESTAMP_MS
                            },
                            Err(AuthError::Internal) => final(self).users() == old(self).users(),
                            Err(_) => false,
                        }
                    },
                },
            },
    {
        let user = match self.user_repo.find_by_id(user_id) {
            Some(u) => u,
            None => return Err(AuthError::Unauthenticated),
        };
        let verified = match verify_password(old_password, user.password_hash.as_str()) {
            Ok(b) => b,
            Err(_) => return Err(AuthError::Internal),
        };
        if !verified {
            return Err(AuthError::InvalidOldPassword);
        }
        if validate_password(new_password).is_err() {
            return Err(AuthError::WeakPassword);
        }
        let hash = hash_password(new_password, self.config.bcrypt_cost);
        let now = now_millis();
        self.store_password(user_id, hash, now)
    }
}

/// A registered user can log in: after a successful registration, a login
/// with the same password and an email that lowercases alike finds that user
/// and succeeds, whenever the login's IP limit admits it and the email is not
/// locked.
pub proof fn law_registered_user_can_log_in<U: UserRepository, S: SessionRepository>(
    before: AuthService<U, S>,
    after: AuthService<U, S>,
    r: Result<AuthResult, AuthError>,
    ip: Seq<char>,
    email: Seq<char>,
    password: Seq<char>,
    nickname: Option<Seq<char>>,
    now: int,
    login_ip: Seq<char>,
    login_email: Seq<char>,
    later: int,
)
    requires
        AuthService::register_post(&before, &after, r, ip, email, password, nickname, now),
        r is Ok,
        spec_to_lowercase(login_email) == spec_to_lowercase(email),
        ip_step(after.login_windows(), login_ip, later, after.login_ip_max()).0,
        !(check_step(after.failures(), spec_to_lowercase(spec_to_lowercase(email)), later).0 is Locked),
    ensures
        after.login_outcome(login_ip, login_email, password, later) == LoginOutcome::Success(
            after.users()[r->Ok_0.user_id],
        ),
{
    match before.register_rejection(ip, email, password, nickname, now) {
        Some(rej) => {},
        None => {},
    }
}

/// Emails are unique up to case: once an email is registered, a second
/// registration with an email that lowercases alike is refused, and when it
/// passes the IP limit and the format, password and nickname checks, the
/// refusal is `EmailAlreadyExists`.
pub proof fn law_email_unique<U: UserRepository, S: SessionRepository>(
    before: AuthService<U, S>,
    after: AuthService<U, S>,
    r: Result<AuthResult, AuthError>,
    ip: Seq<char>,
    email: Seq<char>,
    password: Seq<char>,
    nickname: Option<Seq<char>>,
    now: int,
    ip2: Seq<char>,
    email2: Seq<char>,
    password2: Seq<char>,
    nickname2: Option<Seq<char>>,
    later: int,
)
    requires
        AuthService::register_post(&before, &after, r, ip, email, password, nickname, now),
        r is Ok,
        spec_to_lowercase(email2) == spec_to_lowercase(email),
    ensures
        after.register_rejection(ip2, email2, password2, nickname2, later) is Some,
        ip_step(after.register_windows(), ip2, later, after.register_ip_max()).0 && email_is_valid(email2)
            && password_is_strong(password2) && chosen_nickname(nickname2, spec_to_lowercase(email2)) is Ok
            ==> after.register_rejection(ip2, email2, password2, nickname2, later) == Some(
            RegisterRejection::EmailAlreadyExists,
        ),
{
    match before.register_rejection(ip, email, password, nickname, now) {
        Some(rej) => {},
        None => {},
    }
}

impl<U: UserRepository, S: SessionRepository> AuthService<U, S> {
    /// The email index and the stored users agree: every stored user is
    /// indexed under its lowercased email, and every indexed ID is a stored
    /// user.
    pub proof fn lemma_email_index(&self)
        requires
            self.wf(),
        ensures
            forall|id: u128| #[trigger] self.users().contains_key(id) ==> {
                let key = spec_to_lowercase(self.users()[id].email@);
                self.email_index().contains_key(key) && self.email_index()[key] == id
            },
            forall|k: Seq<char>| #[trigger] self.email_index().contains_key(k) ==> self.users().contains_key(
                self.email_index()[k],
            ),
    {
        self.user_repo.lemma_index();
    }
}

/// A stored user's email is taken up to case: a registration whose email
/// lowercases like a stored user's email, and that passes the IP limit and
/// the format, password and nickname checks, is refused with
/// `EmailAlreadyExists`.
pub proof fn law_stored_email_refused<U: UserRepository, S: SessionRepository>(
    s: AuthService<U, S>,
    id: u128,
    ip: Seq<char>,
    email: Seq<char>,
    password: Seq<char>,
    nickname: Option<Seq<char>>,
    now: int,
)
    requires
        s.wf(),
        s.users().contains_key(id),
        spec_to_lowercase(s.users()[id].email@) == spec_to_lowercase(spec_to_lowercase(email)),
        ip_step(s.register_windows(), ip, now, s.register_ip_max()).0,
        email_is_valid(email),
        password_is_strong(password),
        chosen_nickname(nickname, spec_to_lowercase(email)) is Ok,
    ensures
        s.register_rejection(ip, email, password, nickname, now) == Some(RegisterRejection::EmailAlreadyExists),
{
    s.lemma_email_index();
}

/// For ASCII emails, case does not matter: two ASCII emails that are equal
/// after ASCII lowercasing lowercase alike, and lowercasing them again
/// changes nothing, so they name one account.
pub proof fn law_ascii_email_case_ignored(e1: Seq<char>, e2: Seq<char>)
    requires
        all_ascii(e1),
        all_ascii(e2),
        ascii_lowercase(e1) == ascii_lowercase(e2),
    ensures
        spec_to_lowercase(e1) == spec_to_lowercase(e2),
        spec_to_lowercase(spec_to_lowercase(e1)) == spec_to_lowercase(e1),
{
    lemma_ascii_lowercase(e1);
    lemma_ascii_lowercase(e2);
}

/// Storing a registration stores what it reports: on success the user kept
/// under the reported ID has the reported email and nickname, which are the
/// ones handed in.
pub proof fn law_registration_stores_reported_user<U: UserRepository, S: SessionRepository>(
    before: AuthService<U, S>,
    after: AuthService<U, S>,
    r: Result<AuthResult, AuthError>,
    email: Seq<char>,
    nickname: Seq<char>,
    hashed: Option<Seq<char>>,
    id: u128,
    now: int,
)
    requires
        AuthService::store_post(&before, &after, r, email, nickname, hashed, id, now),
        r is Ok,
    ensures
        r->Ok_0.user_id == id,
        after.users().contains_key(id),
        after.users()[id].email@ == r->Ok_0.email@,
        after.users()[id].nickname@ == r->Ok_0.nickname@,
        r->Ok_0.email@ == email,
        r->Ok_0.nickname@ == nickname,
{
}

/// A registration keeps the nickname it reports: after a successful
/// registration the stored user has the reported nickname, which is the
/// trimmed nickname given, or the prefix of the lowercased email when none
/// or a blank one is given; and the stored email is the lowercased email.
pub proof fn law_registered_nickname_stored<U: UserRepository, S: SessionRepository>(
    before: AuthService<U, S>,
    after: AuthService<U, S>,
    r: Result<AuthResult, AuthError>,
    ip: Seq<char>,
    email: Seq<char>,
    password: Seq<char>,
    nickname: Option<Seq<char>>,
    now: int,
)
    requires
        AuthService::register_post(&before, &after, r, ip, email, password, nickname, now),
        r is Ok,
    ensures
        after.users().contains_key(r->Ok_0.user_id),
        after.users()[r->Ok_0.user_id].nickname@ == r->Ok_0.nickname@,
        after.users()[r->Ok_0.user_id].email@ == spec_to_lowercase(email),
        nickname is None ==> r->Ok_0.nickname@ == email_prefix(spec_to_lowercase(email)),
        nickname is Some && trim_seq(nickname.unwrap()).len() == 0 ==> r->Ok_0.nickname@ == email_prefix(
            spec_to_lowercase(email),
        ),
        nickname is Some && trim_seq(nickname.unwrap()).len() > 0 ==> r->Ok_0.nickname@ == trim_seq(
            nickname.unwrap(),
        ),
{
    match before.register_rejection(ip, email, password, nickname, now) {
        Some(rej) => {},
        None => {},
    }
}

/// A partial profile update keeps every absent field: without a nickname,
/// phone or avatar in the request, the stored value stays; a given
/// non-blank nickname is stored trimmed.
pub proof fn law_absent_profile_fields_kept(
    u: User,
    nickname: Option<Seq<char>>,
    phone: Option<Seq<char>>,
    avatar: Option<Seq<char>>,
)
    ensures
        profile_update(u, nickname, phone, avatar) matches Ok(v) ==> {
            &&& nickname is None ==> v.0 == u.nickname@
            &&& phone is None ==> v.1 == opt_view(u.phone)
            &&& avatar is None ==> v.2 == opt_view(u.avatar)
            &&& nickname is Some && trim_seq(nickname.unwrap()).len() > 0 ==> v.0 == trim_seq(
                nickname.unwrap(),
            )
        },
{
}

/// A login's session lasts as chosen: with "remember me" the long lifetime,
/// otherwise the short one; the cookie's Max-Age is that lifetime, and the
/// stored session starts now and ends that many seconds later.
pub proof fn law_login_session_lifetime<U: UserRepository, S: SessionRepository>(
    before: AuthService<U, S>,
    after: AuthService<U, S>,
    r: Result<AuthResult, AuthError>,
    ip: Seq<char>,
    email: Seq<char>,
    password: Seq<char>,
    remember_me: bool,
    now: int,
)
    requires
        representable(now),
        AuthService::login_post(&before, &after, r, ip, email, password, remember_me, now),
        r is Ok,
    ensures
        r->Ok_0.cookie_max_age == (if remember_me {
            before.config().session_ttl_long
        } else {
            before.config().session_ttl_short
        }),
        after.sessions().contains_key(r->Ok_0.session_id@),
        after.sessions()[r->Ok_0.session_id@].created_at == now,
        r->Ok_0.cookie_max_age <= i64::MAX ==> after.sessions()[r->Ok_0.session_id@].expires_at == now
            + r->Ok_0.cookie_max_age * 1000,
{
}

/// A registration signs in for the short lifetime: the cookie's Max-Age is
/// the short lifetime, and the stored session starts now and ends that many
/// seconds later.
pub proof fn law_registration_session_lifetime<U: UserRepository, S: SessionRepository>(
    before: AuthService<U, S>,
    after: AuthService<U, S>,
    r: Result<AuthResult, AuthError>,
    ip: Seq<char>,
    email: Seq<char>,
    password: Seq<char>,
    nickname: Option<Seq<char>>,
    now: int,
)
    requires
        AuthService::register_post(&before, &after, r, ip, email, password, nickname, now),
        r is Ok,
    ensures
        r->Ok_0.cookie_max_age == before.config().session_ttl_short,
        after.sessions().contains_key(r->Ok_0.session_id@),
        after.sessions()[r->Ok_0.session_id@].created_at == now,
        r->Ok_0.cookie_max_age <= i64::MAX ==> after.sessions()[r->Ok_0.session_id@].expires_at == now
            + r->Ok_0.cookie_max_age * 1000,
{
    match before.register_rejection(ip, email, password, nickname, now) {
        Some(rej) => {},
        None => {},
    }
}

/// A session created by registration identifies the new user until it
/// expires: looking its ID up before the expiry gives the user's ID and
/// lowercased email.
pub proof fn law_registration_signs_in<U: UserRepository, S: SessionRepository>(
    before: AuthService<U, S>,
    after: AuthService<U, S>,
    r: Result<AuthResult, AuthError>,
    ip: Seq<char>,
    email: Seq<char>,
    password: Seq<char>,
    nickname: Option<Seq<char>>,
    now: int,
    later_state: AuthService<U, S>,
    r2: Result<(u128, String), AuthError>,
    t: int,
)
    requires
        AuthService::register_post(&before, &after, r, ip, email, password, nickname, now),
        r is Ok,
        AuthService::lookup_post(&after, &later_state, r2, r->Ok_0.session_id@, t),
        session_time_ok(before.config().session_ttl_short, now),
        t < expiry(before.config().session_ttl_short, now),
    ensures
        r2 matches Ok((id, e)) && id == r->Ok_0.user_id && e@ == spec_to_lowercase(email),
{
    match before.register_rejection(ip, email, password, nickname, now) {
        Some(rej) => {},
        None => {},
    }
}

/// A session created by login identifies the user until it expires: looking
/// its ID up before the expiry gives the user's ID and email.
pub proof fn law_login_signs_in<U: UserRepository, S: SessionRepository>(
    before: AuthService<U, S>,
    after: AuthService<U, S>,
    r: Result<AuthResult, AuthError>,
    ip: Seq<char>,
    email: Seq<char>,
    password: Seq<char>,
    remember_me: bool,
    now: int,
    later_state: AuthService<U, S>,
    r2: Result<(u128, String), AuthError>,
    t: int,
)
    requires
        before.wf(),
        AuthService::login_post(&before, &after, r, ip, email, password, remember_me, now),
        before.login_outcome(ip, email, password, now) is Success,
        AuthService::lookup_post(&after, &later_state, r2, r->Ok_0.session_id@, t),
        session_time_ok(session_ttl(before.config(), remember_me), now),
        t < expiry(session_ttl(before.config(), remember_me), now),
    ensures
        ({
            let u = before.login_outcome(ip, email, password, now)->Success_0;
            r2 == Ok::<(u128, String), AuthError>((u.id, u.email))
        }),
{
    let key = spec_to_lowercase(email);
    let id = before.email_index()[spec_to_lowercase(key)];
    assert(before.users().contains_key(id));
}

/// A failed login does not tell an unknown email from a wrong password: both
/// answer `InvalidCredentials`, create no session, and count one failure for
/// the email in the same way.
pub proof fn law_failed_logins_look_alike<U: UserRepository, S: SessionRepository>(
    before: AuthService<U, S>,
    after: AuthService<U, S>,
    r: Result<AuthResult, AuthError>,
    ip: Seq<char>,
    email: Seq<char>,
    password: Seq<char>,
    remember_me: bool,
    now: int,
)
    requires
        now + before.lockout_ms() <= MAX_TIMESTAMP_MS,
        AuthService::login_post(&before, &after, r, ip, email, password, remember_me, now),
        before.login_outcome(ip, email, password, now) is UnknownEmail || before.login_outcome(
            ip,
            email,
            password,
            now,
        ) is WrongPassword,
    ensures
        r matches Err(AuthError::InvalidCredentials),
        after.sessions() == before.sessions(),
        ({
            let key = spec_to_lowercase(spec_to_lowercase(email));
            after.failures() == record_fail_step(
                check_step(before.failures(), key, now).1,
                key,
                now,
                before.max_failures(),
                before.lockout_ms(),
            )
        }),
{
}

/// A successful login clears the email's failure record, so earlier
/// failures no longer count towards a lockout.
pub proof fn law_success_resets_failures<U: UserRepository, S: SessionRepository>(
    before: AuthService<U, S>,
    after: AuthService<U, S>,
    r: Result<AuthResult, AuthError>,
    ip: Seq<char>,
    email: Seq<char>,
    password: Seq<char>,
    remember_me: bool,
    now: int,
    later: int,
)
    requires
        AuthService::login_post(&before, &after, r, ip, email, password, remember_me, now),
        r is Ok,
    ensures
        !after.failures().contains_key(spec_to_lowercase(spec_to_lowercase(email))),
        check_step(after.failures(), spec_to_lowercase(spec_to_lowercase(email)), later).0
            == RateLimitStatus::Allowed,
{
}

/// After a successful login, the next `max_failures` wrong-password logins
/// at one time are all answered as bad credentials, never as a lockout: the
/// `j`-th of them (counting from zero) finds `j` failures recorded since the
/// success, answers `InvalidCredentials` and leaves `j + 1` (when the IP
/// limit admits it and a lockout from that time is representable).
pub proof fn law_success_then_wrong_logins_not_locked<U: UserRepository, S: SessionRepository>(
    before: AuthService<U, S>,
    after: AuthService<U, S>,
    r: Result<AuthResult, AuthError>,
    ip: Seq<char>,
    email: Seq<char>,
    password: Seq<char>,
    remember_me: bool,
    now: int,
    s: AuthService<U, S>,
    s2: AuthService<U, S>,
    r2: Result<AuthResult, AuthError>,
    ip2: Seq<char>,
    email2: Seq<char>,
    bad_password: Seq<char>,
    remember_me2: bool,
    t: int,
    j: nat,
)
    requires
        AuthService::login_post(&before, &after, r, ip, email, password, remember_me, now),
        r is Ok,
        spec_to_lowercase(email2) == spec_to_lowercase(email),
        j < after.max_failures(),
        s.max_failures() == after.max_failures(),
        s.lockout_ms() == after.lockout_ms(),
        s.failures() == repeated_fails(
            after.failures(),
            spec_to_lowercase(spec_to_lowercase(email)),
            t,
            j,
            after.max_failures(),
            after.lockout_ms(),
        ),
        lookup_email(s.users(), s.email_index(), spec_to_lowercase(email2)) matches Some(u)
            && spec_bcrypt_verify(bad_password, u.password_hash@) == Some(false),
        ip_step(s.login_windows(), ip2, t, s.login_ip_max()).0,
        t + s.lockout_ms() <= MAX_TIMESTAMP_MS,
        AuthService::login_post(&s, &s2, r2, ip2, email2, bad_password, remember_me2, t),
    ensures
        r2 matches Err(AuthError::InvalidCredentials),
        s2.failures() == repeated_fails(
            after.failures(),
            spec_to_lowercase(spec_to_lowercase(email)),
            t,
            j + 1,
            after.max_failures(),
            after.lockout_ms(),
        ),
{
    let key = spec_to_lowercase(spec_to_lowercase(email));
    assert(!after.failures().contains_key(key));
    lemma_fails_below_threshold(after.failures(), key, t, j, after.max_failures(), after.lockout_ms());
    assert(check_step(s.failures(), key, t) == (RateLimitStatus::Allowed, s.failures()));
    assert(s.login_outcome(ip2, email2, bad_password, t) is WrongPassword);
}

/// A locked email is refused whatever the password, once the IP limit admits
/// the request: after `max_failures` or more failures at one time from no
/// record, the login outcome is `Locked`.
pub proof fn law_locked_email_refused<U: UserRepository, S: SessionRepository>(
    s: AuthService<U, S>,
    t: FailureTable,
    ip: Seq<char>,
    email: Seq<char>,
    password: Seq<char>,
    now: int,
    k: nat,
)
    requires
        !t.contains_key(spec_to_lowercase(spec_to_lowercase(email))),
        s.max_failures() >= 1,
        s.lockout_ms() > 0,
        representable(now),
        now + s.lockout_ms() <= MAX_TIMESTAMP_MS,
        k >= s.max_failures(),
        s.failures() == repeated_fails(
            t,
            spec_to_lowercase(spec_to_lowercase(email)),
            now,
            k,
            s.max_failures(),
            s.lockout_ms(),
        ),
        ip_step(s.login_windows(), ip, now, s.login_ip_max()).0,
    ensures
        s.login_outcome(ip, email, password, now) is Locked,
{
    law_lockout_after_threshold(
        t,
        spec_to_lowercase(spec_to_lowercase(email)),
        now,
        k,
        s.max_failures(),
        s.lockout_ms(),
    );
}

/// After logout, the session no longer authenticates.
pub proof fn law_logout_ends_session<U: UserRepository, S: SessionRepository>(
    after_logout: AuthService<U, S>,
    before_logout: AuthService<U, S>,
    session_id: Seq<char>,
    later_state: AuthService<U, S>,
    r: Result<(u128, String), AuthError>,
    t: int,
)
    requires
        after_logout.sessions() == before_logout.sessions().remove(session_id),
        AuthService::lookup_post(&after_logout, &later_state, r, session_id, t),
    ensures
        r matches Err(AuthError::Unauthenticated),
{
}

/// An expired session must log in again: looking a session up at or after
/// its expiry answers `Unauthenticated` and drops the session.
pub proof fn law_expired_session_refused<U: UserRepository, S: SessionRepository>(
    before: AuthService<U, S>,
    after: AuthService<U, S>,
    r: Result<(u128, String), AuthError>,
    session_id: Seq<char>,
    t: int,
)
    requires
        AuthService::lookup_post(&before, &after, r, session_id, t),
        before.sessions().contains_key(session_id),
        before.sessions()[session_id].expires_at <= t,
    ensures
        r matches Err(AuthError::Unauthenticated),
        after.sessions() == before.sessions().remove(session_id),
{
}

/// A changed password logs in: after a password change that stored a hash
/// verifying the new password, a login with that password finds the user and
/// succeeds, whenever the IP limit admits it and the email is not locked.
pub proof fn law_new_password_logs_in<U: UserRepository, S: SessionRepository>(
    before: AuthService<U, S>,
    after: AuthService<U, S>,
    user_id: u128,
    new_password: Seq<char>,
    ip: Seq<char>,
    email: Seq<char>,
    now: int,
)
    requires
        lookup_email(before.users(), before.email_index(), spec_to_lowercase(email)) matches Some(
            u,
        ) && u.id == user_id,
        after.email_index() == before.email_index(),
        after.users() == before.users().insert(user_id, after.users()[user_id]),
        spec_bcrypt_verify(new_password, after.users()[user_id].password_hash@) == Some(true),
        users_keyed_by_id(before.users()),
        ip_step(after.login_windows(), ip, now, after.login_ip_max()).0,
        !(check_step(after.failures(), spec_to_lowercase(spec_to_lowercase(email)), now).0 is Locked),
    ensures
        after.login_outcome(ip, email, new_password, now) == LoginOutcome::Success(after.users()[user_id]),
{
    let key = spec_to_lowercase(spec_to_lowercase(email));
    assert(before.users().contains_key(before.email_index()[key]));
}

/// Session IDs never contain a `.`.
pub proof fn lemma_session_id_has_no_dot(s: Seq<char>)
    requires
        is_session_id(s),
    ensures
        forall|i: int| 0 <= i < s.len() ==> s[i] != '.',
{
    assert forall|i: int| 0 <= i < s.len() implies s[i] != '.' by {
        assert(('0' <= s[i] <= '9') || ('a' <= s[i] <= 'f'));
    }
}

/// The cookie set for a session authenticates it: a `Cookie:` header
/// `sid=<signed value>` carries exactly that session ID under the same
/// secret.
pub proof fn law_session_cookie_round_trip(session_id: Seq<char>, secret: Seq<char>)
    requires
        is_session_id(session_id),
    ensures
        header_session_id("sid="@ + signed_value(session_id, secret), secret) == Some(session_id),
{
    reveal_strlit("sid=");
    lemma_session_id_has_no_dot(session_id);
    lemma_sign_then_verify(session_id, secret);
    let v = signed_value(session_id, secret);
    let h = "sid="@ + v;
    let tag = spec_hex_encode(cookie_tag(session_id, secret));
    lemma_hex_encode_chars(cookie_tag(session_id, secret));
    assert(v == session_id + seq!['.'] + tag);
    assert forall|i: int| 0 <= i < h.len() implies h[i] != ';' && (0x21 <= (h[i] as u32) <= 0x7e) by {
        if i >= 4 {
            let j = i - 4;
            if j < session_id.len() {
                assert(h[i] == session_id[j]);
            } else if j == session_id.len() {
                assert(h[i] == '.');
            } else {
                assert(h[i] == tag[j - session_id.len() - 1]);
            }
        }
    }
    crate::utils::profile::lemma_first_index_of(h, ';');
    assert(first_index_of(h, ';') == h.len()) by {
        if first_index_of(h, ';') < h.len() {
            assert(h[first_index_of(h, ';')] != ';');
        }
    }
    assert(h.subrange(0, h.len() as int) =~= h);
    assert(!spec_is_whitespace(h[0]));
    assert(trim_start_seq(h) == h);
    assert(!spec_is_whitespace(h.last()));
    assert(trim_end_seq(h) == h);
    assert(h.subrange(0, 4) =~= "sid="@);
    assert(h.subrange(4, h.len() as int) =~= v);
}

} // verus!
