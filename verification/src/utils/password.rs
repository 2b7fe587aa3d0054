//! Password hashing (bcrypt) and strength validation.
//!
//! Policy: 8 to 64 characters, and at least three of the four categories
//! uppercase ASCII letter, lowercase ASCII letter, ASCII digit, and "special"
//! (any character that is not alphanumeric).

use vstd::prelude::*;

use crate::utils::chars::{all_ascii, chars_of, is_alphanumeric, spec_is_alphanumeric};

verus! {

/// Errors that can arise from password validation.
#[derive(Debug)]
pub enum PasswordError {
    TooWeak,
}

impl PasswordError {
    /// The user-facing message of the error.
    pub fn message(&self) -> (r: String)
        ensures
            r@ == password_policy_message(),
    {
        String::from_str("密码至少需要 8 位，且包含大写字母、小写字母、数字、特殊字符中的三类")
    }
}

/// The message that explains the password policy.
pub open spec fn password_policy_message() -> Seq<char> {
    "密码至少需要 8 位，且包含大写字母、小写字母、数字、特殊字符中的三类"@
}

/// Structured password-check result.
///
/// `valid` holds when the password passes the length rule and at least three
/// category rules; the other fields give the individual findings, and
/// `char_count` the number of characters.
#[derive(Debug, Clone, Copy, PartialEq, Eq, Structural)]
pub struct PasswordCheckResult {
    pub valid: bool,
    pub length: bool,
    pub has_upper: bool,
    pub has_lower: bool,
    pub has_digit: bool,
    pub has_special: bool,
    pub categories_met: u32,
    pub char_count: usize,
}

pub open spec fn is_ascii_upper(c: char) -> bool {
    'A' <= c <= 'Z'
}

pub open spec fn is_ascii_lower(c: char) -> bool {
    'a' <= c <= 'z'
}

pub open spec fn is_ascii_digit(c: char) -> bool {
    '0' <= c <= '9'
}

/// An ASCII letter or digit.
pub open spec fn is_ascii_alnum(c: char) -> bool {
    is_ascii_upper(c) || is_ascii_lower(c) || is_ascii_digit(c)
}

pub open spec fn is_special(c: char) -> bool {
    !spec_is_alphanumeric(c)
}

pub open spec fn any_upper(s: Seq<char>) -> bool {
    exists|i: int| 0 <= i < s.len() && is_ascii_upper(#[trigger] s[i])
}

pub open spec fn any_lower(s: Seq<char>) -> bool {
    exists|i: int| 0 <= i < s.len() && is_ascii_lower(#[trigger] s[i])
}

pub open spec fn any_digit(s: Seq<char>) -> bool {
    exists|i: int| 0 <= i < s.len() && is_ascii_digit(#[trigger] s[i])
}

pub open spec fn any_special(s: Seq<char>) -> bool {
    exists|i: int| 0 <= i < s.len() && is_special(#[trigger] s[i])
}

pub open spec fn bool_count(b: bool) -> nat {
    if b {
        1
    } else {
        0
    }
}

/// How many of the four categories `s` contains.
pub open spec fn categories_of(s: Seq<char>) -> nat {
    bool_count(any_upper(s)) + bool_count(any_lower(s)) + bool_count(any_digit(s))
        + bool_count(any_special(s))
}

/// Whether the number of characters is in the allowed range.
pub open spec fn length_ok(s: Seq<char>) -> bool {
    8 <= s.len() <= 64
}

/// The policy: allowed length and at least three categories.
pub open spec fn password_is_strong(s: Seq<char>) -> bool {
    length_ok(s) && categories_of(s) >= 3
}

/// The full check result for `s`.
pub open spec fn password_check(s: Seq<char>) -> PasswordCheckResult {
    PasswordCheckResult {
        valid: password_is_strong(s),
        length: length_ok(s),
        has_upper: any_upper(s),
        has_lower: any_lower(s),
        has_digit: any_digit(s),
        has_special: any_special(s),
        categories_met: categories_of(s) as u32,
        char_count: s.len() as usize,
    }
}

impl PasswordCheckResult {
    /// Strength level for display: "weak" without the length or with fewer
    /// than two categories, "strong" with all four and at least 12
    /// characters, "medium" otherwise.
    pub fn strength(&self) -> (r: &'static str)
        ensures
            r@ == (if !self.length || self.categories_met < 2 {
                "weak"@
            } else if self.categories_met == 4 && self.char_count >= 12 {
                "strong"@
            } else {
                "medium"@
            }),
    {
        if !self.length || self.categories_met < 2 {
            "weak"
        } else if self.categories_met == 4 && self.char_count >= 12 {
            "strong"
        } else {
            "medium"
        }
    }
}

/// Check a password against the strength policy.
pub fn check_password(password: &str) -> (r: PasswordCheckResult)
    ensures
        r == password_check(password@),
        all_ascii(password@) ==> (r.has_special <==> exists|i: int|
            0 <= i < password@.len() && !is_ascii_alnum(#[trigger] password@[i])),
{
    let v = chars_of(password);
    let len = v.len();
    let length = 8 <= len && len <= 64;
    let mut has_upper = false;
    let mut has_lower = false;
    let mut has_digit = false;
    let mut has_special = false;
    let mut i: usize = 0;
    while i < len
        invariant
            i <= len == v.len(),
            v@ == password@,
            has_upper == any_upper(v@.take(i as int)),
            has_lower == any_lower(v@.take(i as int)),
            has_digit == any_digit(v@.take(i as int)),
            has_special == any_special(v@.take(i as int)),
            forall|j: int|
                0 <= j < i && (#[trigger] v@[j] as u32) < 128 ==> (spec_is_alphanumeric(v@[j])
                    == is_ascii_alnum(v@[j])),
        decreases len - i,
    {
        let c = v[i];
        let ghost prev = v@.take(i as int);
        let ghost next = v@.take(i + 1);
        assert(next =~= prev.push(c));
        assert(next[i as int] == c);
        if 'A' <= c && c <= 'Z' {
            has_upper = true;
        }
        if 'a' <= c && c <= 'z' {
            has_lower = true;
        }
        if '0' <= c && c <= '9' {
            has_digit = true;
        }
        if !is_alphanumeric(c) {
            has_special = true;
        }
        assert(any_upper(next) == (any_upper(prev) || is_ascii_upper(c))) by {
            if any_upper(next) && !is_ascii_upper(c) {
                let j = choose|j: int| 0 <= j < next.len() && is_ascii_upper(#[trigger] next[j]);
                assert(prev[j] == next[j]);
            }
            if any_upper(prev) {
                let j = choose|j: int| 0 <= j < prev.len() && is_ascii_upper(#[trigger] prev[j]);
                assert(prev[j] == next[j]);
            }
        }
        assert(any_lower(next) == (any_lower(prev) || is_ascii_lower(c))) by {
            if any_lower(next) && !is_ascii_lower(c) {
                let j = choose|j: int| 0 <= j < next.len() && is_ascii_lower(#[trigger] next[j]);
                assert(prev[j] == next[j]);
            }
            if any_lower(prev) {
                let j = choose|j: int| 0 <= j < prev.len() && is_ascii_lower(#[trigger] prev[j]);
                assert(prev[j] == next[j]);
            }
        }
        assert(any_digit(next) == (any_digit(prev) || is_ascii_digit(c))) by {
            if any_digit(next) && !is_ascii_digit(c) {
                let j = choose|j: int| 0 <= j < next.len() && is_ascii_digit(#[trigger] next[j]);
                assert(prev[j] == next[j]);
            }
            if any_digit(prev) {
                let j = choose|j: int| 0 <= j < prev.len() && is_ascii_digit(#[trigger] prev[j]);
                assert(prev[j] == next[j]);
            }
        }
        assert(any_special(next) == (any_special(prev) || is_special(c))) by {
            if any_special(next) && !is_special(c) {
                let j = choose|j: int| 0 <= j < next.len() && is_special(#[trigger] next[j]);
                assert(prev[j] == next[j]);
            }
            if any_special(prev) {
                let j = choose|j: int| 0 <= j < prev.len() && is_special(#[trigger] prev[j]);
                assert(prev[j] == next[j]);
            }
        }
        i += 1;
    }
    assert(v@.take(len as int) =~= v@);
    proof {
        if all_ascii(password@) {
            if has_special {
                let j = choose|j: int| 0 <= j < v@.len() && is_special(#[trigger] v@[j]);
                assert((v@[j] as u32) < 128);
            } else {
                assert forall|j: int| 0 <= j < password@.len() implies is_ascii_alnum(#[trigger] password@[j]) by {
                    assert((v@[j] as u32) < 128);
                    if !spec_is_alphanumeric(v@[j]) {
                        assert(v@.take(len as int)[j] == v@[j]);
                    }
                }
            }
        }
    }
    let mut categories_met: u32 = 0;
    if has_upper {
        categories_met += 1;
    }
    if has_lower {
        categories_met += 1;
    }
    if has_digit {
        categories_met += 1;
    }
    if has_special {
        categories_met += 1;
    }
    let valid = length && categories_met >= 3;
    PasswordCheckResult {
        valid,
        length,
        has_upper,
        has_lower,
        has_digit,
        has_special,
        categories_met,
        char_count: len,
    }
}

/// Validate that a password meets the strength policy.
pub fn validate_password(password: &str) -> (r: Result<(), PasswordError>)
    ensures
        r is Ok <==> password_is_strong(password@),
{
    if check_password(password).valid {
        Ok(())
    } else {
        Err(PasswordError::TooWeak)
    }
}

#[verifier::external_type_specification]
#[verifier::external_body]
pub struct ExBcryptError(bcrypt::BcryptError);

/// What `bcrypt::verify(password, hash)` returns: `Some(b)` for `Ok(b)`,
/// `None` for an error (a malformed hash). It depends on its arguments alone:
/// the salt and cost are read from the hash.
pub uninterp spec fn spec_bcrypt_verify(password: Seq<char>, hash: Seq<char>) -> Option<bool>;

/// The two decimal digits of a cost below 100.
pub open spec fn cost_digits(cost: u32) -> Seq<char> {
    seq![(48 + cost / 10) as char, (48 + cost % 10) as char]
}

/// Whether `h` is a bcrypt hash string of the given cost: 60 characters
/// that start with `$2b$`, the cost in two digits and `$`.
pub open spec fn hash_has_cost(h: Seq<char>, cost: u32) -> bool {
    &&& h.len() == 60
    &&& h.subrange(0, 7) == "$2b$"@ + cost_digits(cost) + "$"@
}

/// Hash a password with bcrypt at the given cost (calls `bcrypt::hash`).
///
/// The salt is random, so the hash itself is not determined. The contract
/// states what the crate's source shows: a cost outside 4..=31 is refused, a
/// produced hash verifies the password it was made from, and it is written
/// as `$2b$`, the cost in two digits, `$`, then 53 characters of salt and
/// hash.
#[verifier::external_body]
pub fn hash_password(password: &str, cost: u32) -> (r: Result<String, bcrypt::BcryptError>)
    ensures
        !(4 <= cost <= 31) ==> r is Err,
        r matches Ok(h) ==> spec_bcrypt_verify(password@, h@) == Some(true),
        r matches Ok(h) ==> hash_has_cost(h@, cost),
{
    bcrypt::hash(password, cost)
}

/// Verify a plaintext password against a bcrypt hash (calls `bcrypt::verify`).
#[verifier::external_body]
pub fn verify_password(password: &str, hash: &str) -> (r: Result<bool, bcrypt::BcryptError>)
    ensures
        match r {
            Ok(b) => spec_bcrypt_verify(password@, hash@) == Some(b),
            Err(_) => spec_bcrypt_verify(password@, hash@) is None,
        },
{
    bcrypt::verify(password, hash)
}

/// The password policy: 8 to 64 characters and at least three of the four
/// kinds (ASCII uppercase, ASCII lowercase, ASCII digit, and a character
/// that is not alphanumeric).
pub proof fn law_password_policy(s: Seq<char>)
    ensures
        password_is_strong(s) <==> ({
            let upper = exists|i: int| 0 <= i < s.len() && 'A' <= #[trigger] s[i] <= 'Z';
            let lower = exists|i: int| 0 <= i < s.len() && 'a' <= #[trigger] s[i] <= 'z';
            let digit = exists|i: int| 0 <= i < s.len() && '0' <= #[trigger] s[i] <= '9';
            let other = exists|i: int| 0 <= i < s.len() && !spec_is_alphanumeric(#[trigger] s[i]);
            &&& 8 <= s.len() <= 64
            &&& (if upper { 1int } else { 0 }) + (if lower { 1int } else { 0 }) + (if digit { 1int } else { 0 })
                + (if other { 1int } else { 0 }) >= 3
        }),
{
}

} // verus!
