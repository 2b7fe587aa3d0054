//! Helpers: character handling, password policy, profile fields, signed cookies.

pub mod chars;
pub mod password;
pub mod profile;
pub mod signed_cookie;
pub mod clock;
pub mod session_id;
