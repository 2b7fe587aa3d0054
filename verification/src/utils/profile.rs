//! Profile field validation: nickname, phone, avatar.
//!
//! The back-end is the final line of defense for these rules.

use vstd::prelude::*;

use crate::utils::chars::{chars_of, string_from_chars};

verus! {

/// Maximum nickname length in characters (after trimming).
pub const NICKNAME_MAX: usize = 20;

/// Maximum avatar URL length in bytes.
pub const AVATAR_MAX: usize = 2048;

/// Validation failures for profile fields, each with a user-facing message.
#[derive(Debug, Clone, Copy, PartialEq, Eq, Structural)]
pub enum ProfileError {
    ControlChars,
    NicknameTooLong,
    InvalidPhone,
    InvalidAvatar,
    AvatarTooLong,
}

/// The user-facing message of each profile error.
pub open spec fn profile_error_message(e: ProfileError) -> Seq<char> {
    match e {
        ProfileError::ControlChars => "昵称不能包含控制字符"@,
        ProfileError::NicknameTooLong => "昵称不能超过 20 个字符"@,
        ProfileError::InvalidPhone => "手机号格式不正确（11 位大陆号段）"@,
        ProfileError::InvalidAvatar => "头像链接必须以 http:// 或 https:// 开头"@,
        ProfileError::AvatarTooLong => "头像链接不能超过 2048 个字符"@,
    }
}

impl ProfileError {
    /// The user-facing message of the error.
    pub fn message(&self) -> (r: String)
        ensures
            r@ == profile_error_message(*self),
    {
        match self {
            ProfileError::ControlChars => String::from_str("昵称不能包含控制字符"),
            ProfileError::NicknameTooLong => String::from_str("昵称不能超过 20 个字符"),
            ProfileError::InvalidPhone => String::from_str("手机号格式不正确（11 位大陆号段）"),
            ProfileError::InvalidAvatar => String::from_str("头像链接必须以 http:// 或 https:// 开头"),
            ProfileError::AvatarTooLong => String::from_str("头像链接不能超过 2048 个字符"),
        }
    }
}

/// Index of the first `c` in `s`, or `s.len()` when there is none.
pub open spec fn first_index_of(s: Seq<char>, c: char) -> int
    decreases s.len(),
{
    if s.len() == 0 {
        0
    } else if s[0] == c {
        0
    } else {
        1 + first_index_of(s.drop_first(), c)
    }
}

pub proof fn lemma_first_index_of(s: Seq<char>, c: char)
    ensures
        0 <= first_index_of(s, c) <= s.len(),
        forall|j: int| 0 <= j < first_index_of(s, c) ==> s[j] != c,
        first_index_of(s, c) < s.len() ==> s[first_index_of(s, c)] == c,
    decreases s.len(),
{
    if s.len() > 0 && s[0] != c {
        lemma_first_index_of(s.drop_first(), c);
        assert forall|j: int| 0 <= j < first_index_of(s, c) implies s[j] != c by {
            if j > 0 {
                assert(s[j] == s.drop_first()[j - 1]);
            }
        }
    }
}

/// The part of `s` before its first `@` (all of `s` when there is none).
pub open spec fn email_prefix(s: Seq<char>) -> Seq<char> {
    s.subrange(0, first_index_of(s, '@'))
}

/// Index of the first `c` in `v`, or `v.len()`.
pub fn find_char(v: &Vec<char>, c: char) -> (r: usize)
    ensures
        r as int == first_index_of(v@, c),
        r <= v.len(),
{
    proof {
        lemma_first_index_of(v@, c);
    }
    let mut i: usize = 0;
    while i < v.len() && v[i] != c
        invariant
            i <= v.len(),
            i <= first_index_of(v@, c),
            0 <= first_index_of(v@, c) <= v@.len(),
            forall|j: int| 0 <= j < first_index_of(v@, c) ==> v@[j] != c,
            first_index_of(v@, c) < v@.len() ==> v@[first_index_of(v@, c)] == c,
        decreases v.len() - i,
    {
        i += 1;
    }
    i
}

/// Default nickname: the email prefix (text before `@`).
pub fn default_nickname(email: &str) -> (r: String)
    ensures
        r@ == email_prefix(email@),
{
    let v = chars_of(email);
    let at = find_char(&v, '@');
    string_from_chars(&v, 0, at)
}

/// Whether `c` is a control character below U+0020.
pub open spec fn is_low_control(c: char) -> bool {
    (c as u32) < 0x20
}

pub open spec fn has_low_control(s: Seq<char>) -> bool {
    exists|i: int| 0 <= i < s.len() && is_low_control(#[trigger] s[i])
}

/// The outcome of validating a nickname.
pub open spec fn nickname_check(s: Seq<char>) -> Result<(), ProfileError> {
    if has_low_control(s) {
        Err(ProfileError::ControlChars)
    } else if s.len() > NICKNAME_MAX {
        Err(ProfileError::NicknameTooLong)
    } else {
        Ok(())
    }
}

/// Validate a (trimmed, non-empty) nickname: no control characters below
/// U+0020, at most 20 characters.
pub fn validate_nickname(nickname: &str) -> (r: Result<(), ProfileError>)
    ensures
        r == nickname_check(nickname@),
{
    let v = chars_of(nickname);
    let mut i: usize = 0;
    while i < v.len()
        invariant
            i <= v.len(),
            v@ == nickname@,
            forall|j: int| 0 <= j < i ==> !is_low_control(#[trigger] v@[j]),
        decreases v.len() - i,
    {
        if (v[i] as u32) < 0x20 {
            return Err(ProfileError::ControlChars);
        }
        i += 1;
    }
    if v.len() > NICKNAME_MAX {
        return Err(ProfileError::NicknameTooLong);
    }
    Ok(())
}

/// Whether `s` has the 11-digit mainland form `1[3-9]` followed by nine digits.
pub open spec fn phone_is_valid(s: Seq<char>) -> bool {
    &&& s.len() == 11
    &&& s[0] == '1'
    &&& '3' <= s[1] <= '9'
    &&& forall|i: int| 0 <= i < s.len() ==> '0' <= #[trigger] s[i] <= '9'
}

/// `true` if `phone` matches the 11-digit mainland format.
pub fn is_valid_phone(phone: &str) -> (r: bool)
    ensures
        r == phone_is_valid(phone@),
{
    let v = chars_of(phone);
    if v.len() != 11 {
        return false;
    }
    if v[0] != '1' {
        return false;
    }
    if !('3' <= v[1] && v[1] <= '9') {
        return false;
    }
    let mut i: usize = 0;
    while i < v.len()
        invariant
            i <= v.len() == 11,
            v@ == phone@,
            forall|j: int| 0 <= j < i ==> '0' <= #[trigger] v@[j] <= '9',
        decreases v.len() - i,
    {
        if !('0' <= v[i] && v[i] <= '9') {
            return false;
        }
        i += 1;
    }
    true
}

/// The outcome of normalizing a phone value.
pub open spec fn phone_normalization(s: Seq<char>) -> Result<Option<Seq<char>>, ProfileError> {
    if s.len() == 0 {
        Ok(None)
    } else if !phone_is_valid(s) {
        Err(ProfileError::InvalidPhone)
    } else {
        Ok(Some(s))
    }
}

/// Normalize a phone value: the empty string clears the field (`None`);
/// anything else must be a valid mainland number.
pub fn normalize_phone(phone: &str) -> (r: Result<Option<String>, ProfileError>)
    ensures
        match r {
            Ok(Some(p)) => phone_normalization(phone@) == Ok::<Option<Seq<char>>, ProfileError>(
                Some(p@),
            ),
            Ok(None) => phone_normalization(phone@) == Ok::<Option<Seq<char>>, ProfileError>(None),
            Err(e) => phone_normalization(phone@) == Err::<Option<Seq<char>>, ProfileError>(e),
        },
{
    if phone.is_empty() {
        return Ok(None);
    }
    if !is_valid_phone(phone) {
        return Err(ProfileError::InvalidPhone);
    }
    Ok(Some(String::from_str(phone)))
}

/// Whether `s` begins with `p`.
pub open spec fn has_prefix(s: Seq<char>, p: Seq<char>) -> bool {
    p.len() <= s.len() && s.subrange(0, p.len() as int) == p
}

/// Whether the characters `v` begin with the characters of `p`.
pub fn starts_with(v: &Vec<char>, p: &str) -> (r: bool)
    ensures
        r == has_prefix(v@, p@),
{
    let pv = chars_of(p);
    if pv.len() > v.len() {
        return false;
    }
    let mut i: usize = 0;
    while i < pv.len()
        invariant
            i <= pv.len() <= v.len(),
            pv@ == p@,
            forall|j: int| 0 <= j < i ==> v@[j] == pv@[j],
        decreases pv.len() - i,
    {
        if v[i] != pv[i] {
            assert(v@.subrange(0, pv@.len() as int)[i as int] != pv@[i as int]);
            return false;
        }
        i += 1;
    }
    assert(v@.subrange(0, pv@.len() as int) =~= pv@);
    true
}

/// The outcome of normalizing an avatar URL; the length limit counts bytes.
pub open spec fn avatar_normalization(s: Seq<char>) -> Result<Option<Seq<char>>, ProfileError> {
    if s.len() == 0 {
        Ok(None)
    } else if !has_prefix(s, "http://"@) && !has_prefix(s, "https://"@) {
        Err(ProfileError::InvalidAvatar)
    } else if vstd::utf8::encode_utf8(s).len() > AVATAR_MAX {
        Err(ProfileError::AvatarTooLong)
    } else {
        Ok(Some(s))
    }
}

/// Normalize an avatar URL: the empty string clears the field (`None`);
/// anything else must start with `http://` or `https://` and be at most
/// 2048 bytes long.
pub fn normalize_avatar(avatar: &str) -> (r: Result<Option<String>, ProfileError>)
    ensures
        match r {
            Ok(Some(p)) => avatar_normalization(avatar@) == Ok::<Option<Seq<char>>, ProfileError>(
                Some(p@),
            ),
            Ok(None) => avatar_normalization(avatar@) == Ok::<Option<Seq<char>>, ProfileError>(
                None,
            ),
            Err(e) => avatar_normalization(avatar@) == Err::<Option<Seq<char>>, ProfileError>(e),
        },
{
    if avatar.is_empty() {
        return Ok(None);
    }
    let v = chars_of(avatar);
    if !starts_with(&v, "http://") && !starts_with(&v, "https://") {
        return Err(ProfileError::InvalidAvatar);
    }
    if avatar.as_bytes().len() > AVATAR_MAX {
        return Err(ProfileError::AvatarTooLong);
    }
    Ok(Some(String::from_str(avatar)))
}

/// The nickname rule: a nickname is accepted exactly when it has at most
/// 20 characters and none below U+0020; control characters are reported
/// before the length.
pub proof fn law_nickname_rule(s: Seq<char>)
    ensures
        nickname_check(s) is Ok <==> (s.len() <= 20 && forall|i: int| 0 <= i < s.len() ==> (#[trigger] s[i] as u32)
            >= 0x20),
        (exists|i: int| 0 <= i < s.len() && (#[trigger] s[i] as u32) < 0x20) ==> nickname_check(s)
            == Err::<(), ProfileError>(ProfileError::ControlChars),
{
    if exists|i: int| 0 <= i < s.len() && (#[trigger] s[i] as u32) < 0x20 {
        let i = choose|i: int| 0 <= i < s.len() && (#[trigger] s[i] as u32) < 0x20;
        assert(is_low_control(s[i]));
    }
}

/// The phone rule: the empty value clears the phone, a value of the form
/// `1[3-9]` followed by nine more digits is kept as given, and anything else
/// is refused as an invalid phone.
pub proof fn law_phone_rule(s: Seq<char>)
    ensures
        s.len() == 0 ==> phone_normalization(s) == Ok::<Option<Seq<char>>, ProfileError>(None),
        (s.len() == 11 && s[0] == '1' && '3' <= s[1] <= '9' && forall|i: int| 2 <= i < 11 ==> '0' <= #[trigger] s[i]
            <= '9') ==> phone_normalization(s) == Ok::<Option<Seq<char>>, ProfileError>(Some(s)),
        s.len() > 0 && !(s.len() == 11 && s[0] == '1' && '3' <= s[1] <= '9' && forall|i: int| 2 <= i < 11 ==> '0'
            <= #[trigger] s[i] <= '9') ==> phone_normalization(s) == Err::<Option<Seq<char>>, ProfileError>(
            ProfileError::InvalidPhone,
        ),
{
    if s.len() == 11 && s[0] == '1' && '3' <= s[1] <= '9' && forall|i: int| 2 <= i < 11 ==> '0' <= #[trigger] s[i] <= '9' {
        assert forall|i: int| 0 <= i < s.len() implies '0' <= #[trigger] s[i] <= '9' by {
            if i >= 2 {
                assert('0' <= s[i] <= '9');
            }
        }
    }
    if phone_is_valid(s) {
        assert forall|i: int| 2 <= i < 11 implies '0' <= #[trigger] s[i] <= '9' by {
            assert('0' <= s[i] <= '9');
        }
    }
}

/// The avatar rule: the empty value clears the avatar; anything else must
/// start with `http://` or `https://` (otherwise an invalid avatar) and be
/// at most 2048 bytes (otherwise too long), and is then kept as given.
pub proof fn law_avatar_rule(s: Seq<char>)
    ensures
        s.len() == 0 ==> avatar_normalization(s) == Ok::<Option<Seq<char>>, ProfileError>(None),
        ({
            let http = s.len() >= 7 && s.subrange(0, 7) == seq!['h', 't', 't', 'p', ':', '/', '/'];
            let https = s.len() >= 8 && s.subrange(0, 8) == seq!['h', 't', 't', 'p', 's', ':', '/', '/'];
            &&& s.len() > 0 && !http && !https ==> avatar_normalization(s) == Err::<Option<Seq<char>>, ProfileError>(
                ProfileError::InvalidAvatar,
            )
            &&& (http || https) && vstd::utf8::encode_utf8(s).len() <= 2048 ==> avatar_normalization(s) == Ok::<
                Option<Seq<char>>,
                ProfileError,
            >(Some(s))
            &&& (http || https) && vstd::utf8::encode_utf8(s).len() > 2048 ==> avatar_normalization(s) == Err::<
                Option<Seq<char>>,
                ProfileError,
            >(ProfileError::AvatarTooLong)
        }),
{
    reveal_strlit("http://");
    reveal_strlit("https://");
    assert("http://"@ =~= seq!['h', 't', 't', 'p', ':', '/', '/']);
    assert("https://"@ =~= seq!['h', 't', 't', 'p', 's', ':', '/', '/']);
}

} // verus!
