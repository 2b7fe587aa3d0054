//! Request bodies, the `Set-Cookie` value and error responses of the
//! authentication and profile endpoints.

use vstd::prelude::*;

use crate::services::auth_service::AuthError;

verus! {

/// Body of `POST /api/register`.
#[derive(Debug)]
pub struct RegisterRequest {
    pub email: String,
    pub password: String,
    pub nickname: Option<String>,
}

/// Body of `POST /api/login`; `remember_me` defaults to `false`.
#[derive(Debug)]
pub struct LoginRequest {
    pub email: String,
    pub password: String,
    pub remember_me: bool,
}

/// Body of `PUT /api/me/profile`; absent fields stay unchanged.
#[derive(Debug)]
pub struct UpdateProfileRequest {
    pub nickname: Option<String>,
    pub phone: Option<String>,
    pub avatar: Option<String>,
}

/// Body of `PUT /api/me/password`.
#[derive(Debug)]
pub struct ChangePasswordRequest {
    pub old_password: String,
    pub new_password: String,
}

/// A response carrying only a message.
#[derive(Debug)]
pub struct MessageResponse {
    pub message: String,
}

/// The decimal digits of `n`.
pub open spec fn decimal(n: nat) -> Seq<char>
    decreases n,
{
    if n < 10 {
        seq![(48 + n) as char]
    } else {
        decimal(n / 10).push((48 + n % 10) as char)
    }
}

/// Calls `u64::to_string`, which writes the number in decimal.
#[verifier::external_body]
fn u64_to_string(n: u64) -> (r: String)
    ensures
        r@ == decimal(n as nat),
{
    n.to_string()
}

/// The `Set-Cookie` value for the session cookie.
pub open spec fn cookie_header(value: Seq<char>, max_age: u64, secure: bool) -> Seq<char> {
    "sid="@ + value + "; HttpOnly; "@ + (if secure {
        "Secure; "@
    } else {
        ""@
    }) + "SameSite=Lax; Path=/; Max-Age="@ + decimal(max_age as nat)
}

/// Build a `Set-Cookie` header value for the session.
pub fn build_cookie(value: &str, max_age: u64, secure: bool) -> (r: String)
    ensures
        r@ == cookie_header(value@, max_age, secure),
{
    let mut c = String::from_str("sid=");
    c.append(value);
    c.append("; HttpOnly; ");
    if secure {
        c.append("Secure; ");
    } else {
        c.append("");
    }
    c.append("SameSite=Lax; Path=/; Max-Age=");
    let age = u64_to_string(max_age);
    c.append(age.as_str());
    c
}

/// An error response: HTTP status, error code and message.
#[derive(Debug)]
pub struct ErrorResponse {
    pub status: u16,
    pub error: String,
    pub message: String,
}

/// The status, code and message each error is answered with.
pub open spec fn error_parts(e: AuthError) -> (u16, Seq<char>, Seq<char>) {
    match e {
        AuthError::InvalidEmail => (400, "invalid_email"@, "邮箱格式不正确"@),
        AuthError::WeakPassword => (
            400,
            "weak_password"@,
            "密码至少需要 8 位，且包含大写字母、小写字母、数字、特殊字符中的三类"@,
        ),
        AuthError::ValidationError => (400, "validation_error"@, "请求参数不正确"@),
        AuthError::InvalidCredentials => (401, "invalid_credentials"@, "邮箱或密码错误"@),
        AuthError::Unauthenticated => (401, "unauthenticated"@, "请先登录"@),
        AuthError::EmailAlreadyExists => (409, "email_already_exists"@, "该邮箱已注册"@),
        AuthError::TooManyAttempts => (
            429,
            "too_many_attempts"@,
            "登录尝试次数过多，请 15 分钟后再试"@,
        ),
        AuthError::IpRateLimited => (429, "too_many_attempts"@, "请求过于频繁，请稍后再试"@),
        AuthError::InvalidField(m) => (400, "invalid_field"@, m@),
        AuthError::InvalidOldPassword => (400, "invalid_old_password"@, "原密码错误"@),
        AuthError::Internal => (500, "internal_error"@, "服务器内部错误"@),
    }
}

/// Map an `AuthError` to its HTTP status, error code and message.
pub fn error_response(e: AuthError) -> (r: ErrorResponse)
    ensures
        (r.status, r.error@, r.message@) == error_parts(e),
{
    let (status, code, message): (u16, &str, String) = match e {
        AuthError::InvalidEmail => (400, "invalid_email", String::from_str("邮箱格式不正确")),
        AuthError::WeakPassword => (
            400,
            "weak_password",
            String::from_str("密码至少需要 8 位，且包含大写字母、小写字母、数字、特殊字符中的三类"),
        ),
        AuthError::ValidationError => (400, "validation_error", String::from_str("请求参数不正确")),
        AuthError::InvalidCredentials => (401, "invalid_credentials", String::from_str("邮箱或密码错误")),
        AuthError::Unauthenticated => (401, "unauthenticated", String::from_str("请先登录")),
        AuthError::EmailAlreadyExists => (409, "email_already_exists", String::from_str("该邮箱已注册")),
        AuthError::TooManyAttempts => (
            429,
            "too_many_attempts",
            String::from_str("登录尝试次数过多，请 15 分钟后再试"),
        ),
        AuthError::IpRateLimited => (429, "too_many_attempts", String::from_str("请求过于频繁，请稍后再试")),
        AuthError::InvalidField(msg) => (400, "invalid_field", msg),
        AuthError::InvalidOldPassword => (400, "invalid_old_password", String::from_str("原密码错误")),
        AuthError::Internal => (500, "internal_error", String::from_str("服务器内部错误")),
    };
    ErrorResponse { status, error: String::from_str(code), message }
}

} // verus!
